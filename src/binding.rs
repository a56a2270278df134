use vstd::prelude::*;
use crate::framing::{encode_line, encoded_line, frame, LineDecoder};
use crate::transform::{capitalized, echo_capitalize};

verus! {

/// What a single-client binding holds: the connection it serves, if any, and
/// the bytes of that client's unfinished line.
pub ghost struct SessionView {
    pub client: Option<u64>,
    pub pending: Seq<u8>,
}

/// A connection attempt: taken when no client is served, refused otherwise.
pub open spec fn connect_step(v: SessionView, conn: u64) -> (SessionView, bool) {
    if v.client is None {
        (SessionView { client: Some(conn), pending: Seq::empty() }, true)
    } else {
        (v, false)
    }
}

/// Bytes arriving on `conn`: framed into lines when `conn` is the client
/// served, ignored otherwise.
pub open spec fn receive_step(v: SessionView, conn: u64, chunk: Seq<u8>) -> (SessionView, Seq<Seq<char>>) {
    if v.client == Some(conn) {
        let f = frame(v.pending, chunk);
        (SessionView { client: v.client, pending: f.1 }, f.0)
    } else {
        (v, Seq::empty())
    }
}

/// `conn` going away: when it is the client served, the binding is free again
/// and the unfinished line is dropped.
pub open spec fn disconnect_step(v: SessionView, conn: u64) -> SessionView {
    if v.client == Some(conn) {
        SessionView { client: None, pending: Seq::empty() }
    } else {
        v
    }
}

/// The bytes sent back for `lines`, each reply followed by a line feed.
pub open spec fn encoded_lines(lines: Seq<Seq<char>>) -> Seq<u8>
    decreases lines.len(),
{
    if lines.len() == 0 {
        Seq::empty()
    } else {
        encoded_lines(lines.drop_last()) + encoded_line(lines.last())
    }
}

/// The listening end of the echo service: at most one client at a time, whose
/// bytes are framed into lines and answered in order.
pub struct Session {
    client: Option<u64>,
    decoder: LineDecoder,
}

impl View for Session {
    type V = SessionView;

    closed spec fn view(&self) -> SessionView {
        SessionView { client: self.client, pending: self.decoder.pending() }
    }
}

impl Session {
    pub fn new() -> (s: Session)
        ensures
            s@.client is None,
            s@.pending == Seq::<u8>::empty(),
    {
        Session { client: None, decoder: LineDecoder::new() }
    }

    /// A client asks to connect; a second client is refused while one is served.
    pub fn connect(&mut self, conn: u64) -> (accepted: bool)
        ensures
            (final(self)@, accepted) == connect_step(old(self)@, conn),
    {
        if self.client.is_none() {
            self.client = Some(conn);
            self.decoder = LineDecoder::new();
            true
        } else {
            false
        }
    }

    /// Bytes arrive on `conn`; returns the lines they complete for the client served.
    pub fn receive(&mut self, conn: u64, chunk: &[u8]) -> (lines: Vec<String>)
        ensures
            (final(self)@, lines@.map_values(|s: String| s@)) == receive_step(old(self)@, conn, chunk@),
    {
        if self.client == Some(conn) {
            self.decoder.feed(chunk)
        } else {
            let lines: Vec<String> = Vec::new();
            assert(lines@.map_values(|s: String| s@) =~= Seq::<Seq<char>>::empty());
            lines
        }
    }

    /// Bytes arrive on `conn`; returns the bytes of the replies to the lines they
    /// complete: each line upper-cased, in the order received.
    pub fn serve(&mut self, conn: u64, chunk: &[u8]) -> (reply: Vec<u8>)
        ensures
            final(self)@ == receive_step(old(self)@, conn, chunk@).0,
            reply@ == encoded_lines(capitalized(receive_step(old(self)@, conn, chunk@).1)),
    {
        let lines = self.receive(conn, chunk);
        let answers = echo_capitalize(&lines);
        let ghost texts = capitalized(lines@.map_values(|s: String| s@));
        assert(answers@.map_values(|s: String| s@) == texts);
        let mut reply: Vec<u8> = Vec::new();
        let mut i: usize = 0;
        assert(texts.take(0) =~= Seq::<Seq<char>>::empty());
        while i < answers.len()
            invariant
                i <= answers@.len(),
                answers@.len() == texts.len(),
                forall|j: int| 0 <= j < texts.len() ==> #[trigger] texts[j] == answers@[j]@,
                reply@ == encoded_lines(texts.take(i as int)),
            decreases answers@.len() - i,
        {
            let bytes = encode_line(answers[i].as_str());
            reply.append(&mut bytes.clone());
            assert(texts.take(i + 1).drop_last() =~= texts.take(i as int));
            i = i + 1;
        }
        assert(texts.take(texts.len() as int) =~= texts);
        reply
    }

    /// `conn` goes away; returns whether it was the client served.
    pub fn disconnect(&mut self, conn: u64) -> (was_client: bool)
        ensures
            final(self)@ == disconnect_step(old(self)@, conn),
            was_client == (old(self)@.client == Some(conn)),
    {
        if self.client == Some(conn) {
            self.client = None;
            self.decoder.disconnect();
            true
        } else {
            false
        }
    }
}

/// A second connection attempt while a client is served changes nothing for
/// that client: the attempt is refused, bytes from the second connection are
/// ignored, and the first client's next bytes give the same lines and the same
/// buffered rest as if the attempt had never been made.
pub proof fn lemma_single_client(v: SessionView, other: u64, chunk: Seq<u8>, next: Seq<u8>)
    requires
        v.client is Some,
        v.client != Some(other),
    ensures
        connect_step(v, other) == (v, false),
        receive_step(v, other, chunk) == (v, Seq::<Seq<char>>::empty()),
        receive_step(connect_step(v, other).0, v.client->Some_0, next)
            == receive_step(v, v.client->Some_0, next),
        disconnect_step(v, other) == v,
{
}

/// Bytes that arrive in two pieces give the lines of the first piece, then the
/// lines of the second read after what the first left buffered: the same as
/// the bytes arriving at once.
pub proof fn lemma_frame_append(pending: Seq<u8>, a: Seq<u8>, b: Seq<u8>)
    ensures
        frame(pending, a + b).0 == frame(pending, a).0 + frame(frame(pending, a).1, b).0,
        frame(pending, a + b).1 == frame(frame(pending, a).1, b).1,
    decreases b.len(),
{
    if b.len() == 0 {
        assert(a + b =~= a);
        assert(frame(pending, a).0 + Seq::<Seq<char>>::empty() =~= frame(pending, a).0);
    } else {
        assert((a + b).drop_last() =~= a + b.drop_last());
        assert((a + b).last() == b.last());
        lemma_frame_append(pending, a, b.drop_last());
        let f = frame(pending, a);
        let g = frame(f.1, b.drop_last());
        assert forall|x: Seq<char>| (f.0 + g.0).push(x) =~= f.0 + g.0.push(x) by {}
        assert(f.0 + Seq::<Seq<char>>::empty() =~= f.0);
    }
}

/// The replies to two runs of lines, sent one after the other, are the bytes
/// of the replies to the two runs together.
pub proof fn lemma_encoded_lines_append(x: Seq<Seq<char>>, y: Seq<Seq<char>>)
    ensures
        encoded_lines(x + y) == encoded_lines(x) + encoded_lines(y),
    decreases y.len(),
{
    if y.len() == 0 {
        assert(x + y =~= x);
        assert(encoded_lines(x) + Seq::<u8>::empty() =~= encoded_lines(x));
    } else {
        assert((x + y).drop_last() =~= x + y.drop_last());
        assert((x + y).last() == y.last());
        lemma_encoded_lines_append(x, y.drop_last());
        assert(encoded_lines(x) + encoded_lines(y.drop_last()) + encoded_line(y.last())
            =~= encoded_lines(x) + (encoded_lines(y.drop_last()) + encoded_line(y.last())));
    }
}

/// For the client served, the lines sent in order are answered in order: what
/// is sent back for bytes `a` and then bytes `b` is, byte for byte, what is sent
/// back for `a` and `b` arriving at once, and the binding ends in the same state.
pub proof fn lemma_order_preserved(v: SessionView, a: Seq<u8>, b: Seq<u8>)
    requires
        v.client is Some,
    ensures
        ({
            let conn = v.client->Some_0;
            let first = receive_step(v, conn, a);
            let second = receive_step(first.0, conn, b);
            let whole = receive_step(v, conn, a + b);
            &&& second.0 == whole.0
            &&& encoded_lines(capitalized(first.1)) + encoded_lines(capitalized(second.1))
                == encoded_lines(capitalized(whole.1))
        }),
{
    let conn = v.client->Some_0;
    lemma_frame_append(v.pending, a, b);
    let first = receive_step(v, conn, a);
    let second = receive_step(first.0, conn, b);
    crate::transform::lemma_capitalized_append(first.1, second.1);
    lemma_encoded_lines_append(capitalized(first.1), capitalized(second.1));
}

} // verus!
