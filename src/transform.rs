use vstd::prelude::*;

verus! {

/// The full-Unicode, locale-independent upper-case form of a text, as std's
/// `str::to_uppercase` computes it from the characters alone.
pub uninterp spec fn upper_of(s: Seq<char>) -> Seq<char>;

/// Relies on `str::to_uppercase`: the result depends only on the characters of
/// `s`, and the empty text stays empty.
#[verifier::external_body]
fn to_uppercase(s: &str) -> (r: String)
    ensures
        r@ == upper_of(s@),
        s@.len() == 0 ==> r@.len() == 0,
{
    s.to_uppercase()
}

/// The lines that the echo service sends back for `lines`: one upper-cased
/// line for each line received, in the order received.
pub open spec fn capitalized(lines: Seq<Seq<char>>) -> Seq<Seq<char>> {
    lines.map_values(|s: Seq<char>| upper_of(s))
}

/// The reply to one line.
pub fn uppercase(s: &str) -> (r: String)
    ensures
        r@ == upper_of(s@),
        s@.len() == 0 ==> r@.len() == 0,
{
    to_uppercase(s)
}

/// The echo transform: every line of `input`, upper-cased, in the same order.
pub fn echo_capitalize(input: &Vec<String>) -> (output: Vec<String>)
    ensures
        output@.len() == input@.len(),
        forall|i: int| 0 <= i < input@.len() ==> #[trigger] output@[i]@ == upper_of(input@[i]@),
        output@.map_values(|s: String| s@) == capitalized(input@.map_values(|s: String| s@)),
{
    let mut output: Vec<String> = Vec::new();
    let mut i: usize = 0;
    while i < input.len()
        invariant
            i <= input@.len(),
            output@.len() == i,
            forall|j: int| 0 <= j < i ==> #[trigger] output@[j]@ == upper_of(input@[j]@),
        decreases input@.len() - i,
    {
        let line = uppercase(input[i].as_str());
        output.push(line);
        i = i + 1;
    }
    assert(output@.map_values(|s: String| s@) =~= capitalized(input@.map_values(|s: String| s@)));
    output
}

/// Lines handed to the transform in two parts come back as if handed over at
/// once: the replies to `a` come first, in order, then those to `b`.
pub proof fn lemma_capitalized_append(a: Seq<Seq<char>>, b: Seq<Seq<char>>)
    ensures
        capitalized(a + b) == capitalized(a) + capitalized(b),
        capitalized(a + b).len() == a.len() + b.len(),
{
    assert(capitalized(a + b) =~= capitalized(a) + capitalized(b));
}

/// No lines in, no lines out.
pub proof fn lemma_capitalized_empty()
    ensures
        capitalized(Seq::<Seq<char>>::empty()) == Seq::<Seq<char>>::empty(),
{
    assert(capitalized(Seq::<Seq<char>>::empty()) =~= Seq::<Seq<char>>::empty());
}

} // verus!
