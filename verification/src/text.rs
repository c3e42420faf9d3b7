//! Character-level access to strings.

use vstd::prelude::*;

verus! {

/// `String::push` of the standard library appends one character to the end
/// of the string and leaves what was there before untouched.
pub assume_specification[ String::push ](text: &mut String, c: char)
    ensures
        final(text)@ == old(text)@.push(c),
;

/// The characters of `text`, in order.
pub fn to_chars(text: &str) -> (chars: Vec<char>)
    ensures
        chars@ == text@,
{
    broadcast use vstd::string::group_string_axioms;

    let mut chars: Vec<char> = Vec::new();
    for c in it: text.chars()
        invariant
            it.seq() == text@,
            chars@ == it.seq().take(it.index()),
    {
        chars.push(c);
        assert(it.seq().take(it.index() + 1) =~= it.seq().take(it.index()).push(c));
    }
    assert(chars@ =~= text@);
    chars
}

/// The string made of `chars`, in order.
pub fn from_chars(chars: &[char]) -> (text: String)
    ensures
        text@ == chars@,
{
    let mut text = String::new();
    let mut i: usize = 0;
    while i < chars.len()
        invariant
            i <= chars@.len(),
            text@ == chars@.take(i as int),
        decreases chars@.len() - i,
    {
        text.push(chars[i]);
        i = i + 1;
        assert(chars@.take(i as int) =~= chars@.take(i - 1).push(chars@[i - 1]));
    }
    assert(chars@.take(chars@.len() as int) =~= chars@);
    text
}

/// The index of the first `c` in `text`, or the length of `text` where it
/// holds none.
pub open spec fn find(text: Seq<char>, c: char) -> int
    decreases text.len(),
{
    if text.len() == 0 || text[0] == c {
        0
    } else {
        1 + find(text.drop_first(), c)
    }
}

/// How often `c` occurs in `text`.
pub open spec fn count(text: Seq<char>, c: char) -> nat
    decreases text.len(),
{
    if text.len() == 0 {
        0
    } else if text[0] == c {
        1 + count(text.drop_first(), c)
    } else {
        count(text.drop_first(), c)
    }
}

/// `find` gives a position within `text`, nothing before it is `c`, and
/// what stands at it, if anything, is `c`.
pub proof fn lemma_find(text: Seq<char>, c: char)
    ensures
        0 <= find(text, c) <= text.len(),
        forall|j: int| 0 <= j < find(text, c) ==> text[j] != c,
        find(text, c) < text.len() ==> text[find(text, c)] == c,
    decreases text.len(),
{
    if text.len() == 0 || text[0] == c {
    } else {
        let rest = text.drop_first();
        lemma_find(rest, c);
        assert forall|j: int| 0 <= j < find(text, c) implies text[j] != c by {
            if j > 0 {
                assert(text[j] == rest[j - 1]);
            }
        }
        assert(find(rest, c) < rest.len() ==> rest[find(rest, c)] == text[find(text, c)]);
    }
}

/// The position that `find` gives is the only one with these properties.
pub proof fn lemma_find_is(text: Seq<char>, c: char, i: int)
    requires
        0 <= i <= text.len(),
        forall|j: int| 0 <= j < i ==> text[j] != c,
        i < text.len() ==> text[i] == c,
    ensures
        find(text, c) == i,
{
    lemma_find(text, c);
}

/// `text` holds no `c` exactly where `find` runs to its end; otherwise it
/// holds one more than what follows the first.
pub proof fn lemma_count_find(text: Seq<char>, c: char)
    ensures
        find(text, c) == text.len() ==> count(text, c) == 0,
        find(text, c) < text.len() ==> count(text, c) == 1 + count(
            text.skip(find(text, c) + 1),
            c,
        ),
    decreases text.len(),
{
    lemma_find(text, c);
    if text.len() == 0 {
    } else if text[0] == c {
        assert(text.skip(1) =~= text.drop_first());
    } else {
        let rest = text.drop_first();
        lemma_count_find(rest, c);
        lemma_find(rest, c);
        if find(rest, c) < rest.len() {
            assert(rest.skip(find(rest, c) + 1) =~= text.skip(find(text, c) + 1));
        }
    }
}

/// The index of the first `c` in `text`, or the length of `text`.
pub fn find_char(text: &[char], c: char) -> (i: usize)
    ensures
        i == find(text@, c),
        i <= text@.len(),
{
    let mut i: usize = 0;
    while i < text.len() && text[i] != c
        invariant
            i <= text@.len(),
            forall|j: int| 0 <= j < i ==> text@[j] != c,
        decreases text@.len() - i,
    {
        i = i + 1;
    }
    proof {
        lemma_find_is(text@, c, i as int);
    }
    i
}

} // verus!
