use vstd::prelude::*;
use vstd::utf8::{decode_utf8, encode_utf8, valid_utf8};

verus! {

/// The line feed that ends each line on the wire.
pub const LINE_FEED: u8 = 10;

/// The carriage return that may stand before a line feed.
pub const CARRIAGE_RETURN: u8 = 13;

/// A line's bytes without the carriage return that may end them.
pub open spec fn strip_cr(line: Seq<u8>) -> Seq<u8> {
    if line.len() > 0 && line.last() == CARRIAGE_RETURN {
        line.drop_last()
    } else {
        line
    }
}

/// Reading `input` with `pending` already buffered: the text lines completed on
/// the way, in order, and the bytes left buffered after the last line feed.
/// A completed line that is not UTF-8 is dropped.
pub open spec fn frame(pending: Seq<u8>, input: Seq<u8>) -> (Seq<Seq<char>>, Seq<u8>)
    decreases input.len(),
{
    if input.len() == 0 {
        (Seq::empty(), pending)
    } else {
        let before = frame(pending, input.drop_last());
        if input.last() == LINE_FEED {
            let text = strip_cr(before.1);
            if valid_utf8(text) {
                (before.0.push(decode_utf8(text)), Seq::empty())
            } else {
                (before.0, Seq::empty())
            }
        } else {
            (before.0, before.1.push(input.last()))
        }
    }
}

/// What goes on the wire for one line of reply: its UTF-8 bytes and a line feed.
pub open spec fn encoded_line(line: Seq<char>) -> Seq<u8> {
    encode_utf8(line).push(LINE_FEED)
}

/// Relies on `String::from_utf8`: `Ok` exactly when the bytes are UTF-8, and
/// then the text that they encode.
#[verifier::external_body]
fn text_of(bytes: Vec<u8>) -> (r: Option<String>)
    ensures
        r is Some <==> valid_utf8(bytes@),
        r matches Some(s) ==> s@ == decode_utf8(bytes@),
{
    String::from_utf8(bytes).ok()
}

/// Splits the bytes of one connection into text lines, buffering a line until
/// its line feed comes.
pub struct LineDecoder {
    pending: Vec<u8>,
}

impl LineDecoder {
    /// The bytes received after the last line feed.
    pub closed spec fn pending(&self) -> Seq<u8> {
        self.pending@
    }

    pub fn new() -> (d: LineDecoder)
        ensures
            d.pending() == Seq::<u8>::empty(),
    {
        LineDecoder { pending: Vec::new() }
    }

    /// Takes in the next bytes of the connection and returns the lines that
    /// they complete.
    pub fn feed(&mut self, chunk: &[u8]) -> (lines: Vec<String>)
        ensures
            lines@.map_values(|s: String| s@) == frame(old(self).pending(), chunk@).0,
            final(self).pending() == frame(old(self).pending(), chunk@).1,
    {
        let ghost start = self.pending@;
        let mut lines: Vec<String> = Vec::new();
        let mut i: usize = 0;
        assert(chunk@.take(0) =~= Seq::<u8>::empty());
        assert(lines@.map_values(|s: String| s@) =~= Seq::<Seq<char>>::empty());
        while i < chunk.len()
            invariant
                i <= chunk@.len(),
                lines@.map_values(|s: String| s@) == frame(start, chunk@.take(i as int)).0,
                self.pending@ == frame(start, chunk@.take(i as int)).1,
            decreases chunk@.len() - i,
        {
            let b = chunk[i];
            assert(chunk@.take(i + 1).drop_last() =~= chunk@.take(i as int));
            assert(chunk@.take(i + 1).last() == b);
            let ghost before_lines = lines@.map_values(|s: String| s@);
            if b == LINE_FEED {
                let n = self.pending.len();
                if n > 0 && self.pending[n - 1] == CARRIAGE_RETURN {
                    self.pending.pop();
                }
                assert(self.pending@ =~= strip_cr(frame(start, chunk@.take(i as int)).1));
                let mut bytes: Vec<u8> = Vec::new();
                std::mem::swap(&mut self.pending, &mut bytes);
                match text_of(bytes) {
                    Some(text) => {
                        lines.push(text);
                        assert(lines@.map_values(|s: String| s@) =~= before_lines.push(
                            frame(start, chunk@.take(i + 1)).0.last(),
                        ));
                    },
                    None => {},
                }
            } else {
                self.pending.push(b);
            }
            i = i + 1;
        }
        assert(chunk@.take(chunk@.len() as int) =~= chunk@);
        lines
    }

    /// The client went away: the bytes of an unfinished line are dropped, and
    /// their number returned.
    pub fn disconnect(&mut self) -> (discarded: usize)
        ensures
            final(self).pending() == Seq::<u8>::empty(),
            discarded == old(self).pending().len(),
    {
        let discarded = self.pending.len();
        self.pending.clear();
        discarded
    }
}

/// The bytes that send one line of reply.
pub fn encode_line(line: &str) -> (bytes: Vec<u8>)
    ensures
        bytes@ == encoded_line(line@),
{
    let text = line.as_bytes();
    let mut bytes: Vec<u8> = Vec::new();
    let mut i: usize = 0;
    while i < text.len()
        invariant
            i <= text@.len(),
            text@ == encode_utf8(line@),
            bytes@ == text@.take(i as int),
        decreases text@.len() - i,
    {
        bytes.push(text[i]);
        i = i + 1;
        assert(bytes@ =~= text@.take(i as int));
    }
    assert(text@.take(text@.len() as int) =~= text@);
    bytes.push(LINE_FEED);
    bytes
}

} // verus!
