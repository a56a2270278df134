use vstd::prelude::*;
use vstd::multiset::Multiset;
use vstd::seq_lib::group_to_multiset_ensures;
use crate::transform::{capitalized, echo_capitalize, upper_of};

verus! {

broadcast use group_to_multiset_ensures;

/// The texts of a run of strings.
pub open spec fn texts(v: Seq<String>) -> Seq<Seq<char>> {
    v.map_values(|s: String| s@)
}

/// Everything sent on the inputs, input after input, each in the order sent.
pub open spec fn all_sent(queues: Seq<Seq<Seq<char>>>) -> Seq<Seq<char>>
    decreases queues.len(),
{
    if queues.len() == 0 {
        Seq::empty()
    } else {
        all_sent(queues.drop_last()) + queues.last()
    }
}

/// The multiset of replies that the transform gives for `lines`.
pub open spec fn replies(lines: Seq<Seq<char>>) -> Multiset<Seq<char>> {
    capitalized(lines).to_multiset()
}

/// Names one simulated input.
#[derive(Clone, Copy, PartialEq, Eq, Structural, Debug)]
pub struct SimInput {
    pub id: usize,
}

/// Runs the echo transform with no network and no host: values are sent on
/// simulated inputs, and the values yielded are checked against what is expected.
pub struct SimFlow {
    queues: Vec<Vec<String>>,
}

impl View for SimFlow {
    type V = Seq<Seq<Seq<char>>>;

    closed spec fn view(&self) -> Seq<Seq<Seq<char>>> {
        self.queues@.map_values(|q: Vec<String>| texts(q@))
    }
}

impl SimFlow {
    pub fn new() -> (f: SimFlow)
        ensures
            f@ == Seq::<Seq<Seq<char>>>::empty(),
    {
        let f = SimFlow { queues: Vec::new() };
        assert(f@ =~= Seq::<Seq<Seq<char>>>::empty());
        f
    }

    /// A new input, with nothing sent on it yet.
    pub fn sim_input(&mut self) -> (input: SimInput)
        ensures
            input.id == old(self)@.len(),
            final(self)@ == old(self)@.push(Seq::empty()),
    {
        let id = self.queues.len();
        self.queues.push(Vec::new());
        assert(final(self)@ =~= old(self)@.push(Seq::empty())) by {
            assert(texts(Seq::<String>::empty()) =~= Seq::<Seq<char>>::empty());
        }
        SimInput { id }
    }

    /// Sends `value` on `input`, after what was sent on it before. Returns
    /// false, and sends nothing, when the input is not one of this flow.
    pub fn send(&mut self, input: SimInput, value: String) -> (sent: bool)
        ensures
            sent == (input.id < old(self)@.len()),
            sent ==> final(self)@ == old(self)@.update(
                input.id as int,
                old(self)@[input.id as int].push(value@),
            ),
            !sent ==> final(self)@ == old(self)@,
    {
        if input.id >= self.queues.len() {
            return false;
        }
        let ghost v = value@;
        let mut queue: Vec<String> = Vec::new();
        std::mem::swap(&mut queue, &mut self.queues[input.id]);
        queue.push(value);
        self.queues.set(input.id, queue);
        assert(self@ =~= old(self)@.update(input.id as int, old(self)@[input.id as int].push(v))) by {
            assert(texts(queue@) =~= old(self)@[input.id as int].push(v));
        }
        true
    }

    /// Runs the flow to quiescence in one order, inputs taken one after the
    /// other, and returns the values yielded.
    pub fn run(&self) -> (outputs: Vec<String>)
        ensures
            texts(outputs@) == capitalized(all_sent(self@)),
    {
        let mut lines: Vec<String> = Vec::new();
        let mut q: usize = 0;
        while q < self.queues.len()
            invariant
                q <= self@.len(),
                self@.len() == self.queues@.len(),
                texts(lines@) == all_sent(self@.take(q as int)),
            decreases self.queues@.len() - q,
        {
            let queue = &self.queues[q];
            assert(texts(queue@) == self@[q as int]);
            let ghost before = texts(lines@);
            let mut i: usize = 0;
            while i < queue.len()
                invariant
                    i <= queue@.len(),
                    texts(lines@) == before + texts(queue@).take(i as int),
                decreases queue@.len() - i,
            {
                let line: String = queue[i].clone();
                assert(line@ == texts(queue@)[i as int]);
                proof {
                    lemma_texts_push(lines@, line);
                }
                assert(texts(queue@).take(i + 1) =~= texts(queue@).take(i as int).push(line@));
                lines.push(line);
                i = i + 1;
                assert(texts(lines@) =~= before + texts(queue@).take(i as int));
            }
            assert(self@.take(q + 1).drop_last() =~= self@.take(q as int));
            assert(texts(queue@).take(queue@.len() as int) =~= texts(queue@));
            q = q + 1;
        }
        assert(self@.take(self@.len() as int) =~= self@);
        let outputs = echo_capitalize(&lines);
        assert(texts(outputs@) == capitalized(texts(lines@)));
        outputs
    }

    /// Whether, in every order in which the flow can take in what was sent, the
    /// values yielded are exactly `expected`, counted with repetition.
    pub fn assert_yields_only(&self, expected: &Vec<String>) -> (ok: bool)
        ensures
            ok == (forall|order: Seq<Seq<char>>|
                order.to_multiset() == all_sent(self@).to_multiset()
                    ==> #[trigger] replies(order) == texts(expected@).to_multiset()),
    {
        let outputs = self.run();
        let ok = yields_only(&outputs, expected);
        proof {
            let sent = all_sent(self@);
            if ok {
                assert forall|order: Seq<Seq<char>>|
                    order.to_multiset() == sent.to_multiset()
                        implies #[trigger] replies(order) == texts(expected@).to_multiset() by {
                    lemma_replies_permutation(order, sent);
                }
            } else {
                assert(replies(sent) != texts(expected@).to_multiset());
            }
        }
        ok
    }
}

/// Whether `actual` and `expected` hold the same values, counted with
/// repetition, in any order.
pub fn yields_only(actual: &Vec<String>, expected: &Vec<String>) -> (ok: bool)
    ensures
        ok == (texts(actual@).to_multiset() == texts(expected@).to_multiset()),
{
    let mut rest: Vec<String> = Vec::new();
    let mut k: usize = 0;
    while k < expected.len()
        invariant
            k <= expected@.len(),
            texts(rest@) == texts(expected@).take(k as int),
        decreases expected@.len() - k,
    {
        let line: String = expected[k].clone();
        assert(line@ == texts(expected@)[k as int]);
        proof {
            lemma_texts_push(rest@, line);
        }
        assert(texts(expected@).take(k + 1) =~= texts(expected@).take(k as int).push(line@));
        rest.push(line);
        k = k + 1;
        assert(texts(rest@) =~= texts(expected@).take(k as int));
    }
    assert(texts(expected@).take(expected@.len() as int) =~= texts(expected@));
    let ghost want = texts(expected@).to_multiset();
    let ghost got = texts(actual@);
    let mut i: usize = 0;
    assert(got.take(0).to_multiset() =~= Multiset::empty());
    while i < actual.len()
        invariant
            i <= actual@.len(),
            got == texts(actual@),
            want == texts(expected@).to_multiset(),
            got.take(i as int).to_multiset().add(texts(rest@).to_multiset()) == want,
        decreases actual@.len() - i,
    {
        let ghost x = got[i as int];
        assert(got.take(i + 1) =~= got.take(i as int).push(x));
        let mut j: usize = 0;
        while j < rest.len() && !(rest[j] == actual[i])
            invariant
                j <= rest@.len(),
                i < actual@.len(),
                x == actual@[i as int]@,
                forall|m: int| 0 <= m < j ==> rest@[m]@ != x,
            decreases rest@.len() - j,
        {
            j = j + 1;
        }
        if j == rest.len() {
            proof {
                assert forall|m: int| 0 <= m < texts(rest@).len() implies texts(rest@)[m] != x by {
                    assert(texts(rest@)[m] == rest@[m]@);
                }
                assert(!texts(rest@).contains(x));
                assert(texts(rest@).to_multiset().count(x) == 0);
                assert(got.take(i as int).to_multiset().count(x) == want.count(x));
                lemma_count_grows(got, i as int);
                assert(got.to_multiset().count(x) > want.count(x));
            }
            return false;
        }
        let ghost before = texts(rest@);
        rest.remove(j);
        assert(texts(rest@) =~= before.remove(j as int));
        i = i + 1;
    }
    assert(got.take(got.len() as int) =~= got);
    proof {
        let left = texts(rest@).to_multiset();
        assert(left.len() == rest@.len());
        if rest@.len() == 0 {
            assert(left =~= Multiset::empty());
            assert(got.to_multiset().add(left) =~= got.to_multiset());
        } else {
            assert(want.len() == got.to_multiset().len() + left.len());
        }
    }
    rest.len() == 0
}

proof fn lemma_texts_push(v: Seq<String>, s: String)
    ensures
        texts(v.push(s)) == texts(v).push(s@),
{
    assert(texts(v.push(s)) =~= texts(v).push(s@));
}

/// One more element of `s` adds one more of its value.
proof fn lemma_count_grows(s: Seq<Seq<char>>, i: int)
    requires
        0 <= i < s.len(),
    ensures
        s.to_multiset().count(s[i]) > s.take(i).to_multiset().count(s[i]),
    decreases s.len(),
{
    if s.len() == i + 1 {
        assert(s =~= s.take(i).push(s[i]));
    } else {
        lemma_count_grows(s.drop_last(), i);
        assert(s.drop_last().take(i) =~= s.take(i));
        assert(s =~= s.drop_last().push(s.last()));
    }
}

/// The order in which the lines come does not change the multiset of replies:
/// lines that are a reordering of each other give replies that are a
/// reordering of each other.
pub proof fn lemma_replies_permutation(a: Seq<Seq<char>>, b: Seq<Seq<char>>)
    requires
        a.to_multiset() == b.to_multiset(),
    ensures
        replies(a) == replies(b),
    decreases a.len(),
{
    if a.len() == 0 {
        assert(a.to_multiset().len() == 0);
        assert(b.to_multiset().len() == b.len());
        assert(b.len() == 0);
        assert(capitalized(a) =~= Seq::<Seq<char>>::empty());
        assert(capitalized(b) =~= Seq::<Seq<char>>::empty());
    } else {
        let x = a.last();
        assert(a =~= a.drop_last().push(x));
        assert(a.to_multiset().count(x) > 0);
        assert(b.contains(x));
        let j = choose|j: int| 0 <= j < b.len() && b[j] == x;
        assert(b.remove(j).to_multiset() == a.drop_last().to_multiset());
        lemma_replies_permutation(a.drop_last(), b.remove(j));
        assert(capitalized(a) =~= capitalized(a.drop_last()).push(upper_of(x)));
        assert(capitalized(b.remove(j)) =~= capitalized(b).remove(j));
        assert(capitalized(b)[j] == upper_of(x));
    }
}

} // verus!
