use vstd::prelude::*;
use crate::text::{same_text, texts};

verus! {

/// Whether one text comes before another: at the first place where they
/// differ the one with the smaller character comes first, and a text comes
/// before those that go on after it.
pub open spec fn text_lt(a: Seq<char>, b: Seq<char>) -> bool
    decreases a.len(),
{
    if b.len() == 0 {
        false
    } else if a.len() == 0 {
        true
    } else if a[0] != b[0] {
        a[0] < b[0]
    } else {
        text_lt(a.skip(1), b.skip(1))
    }
}

/// Whether one list of texts comes before another, in the same way.
pub open spec fn texts_lt(a: Seq<Seq<char>>, b: Seq<Seq<char>>) -> bool
    decreases a.len(),
{
    if b.len() == 0 {
        false
    } else if a.len() == 0 {
        true
    } else if a[0] != b[0] {
        text_lt(a[0], b[0])
    } else {
        texts_lt(a.skip(1), b.skip(1))
    }
}

/// Whether one string comes before another: the `<` of std on `str`, which
/// goes by bytes and so, for UTF-8, by characters.
#[verifier::external_body]
pub(crate) fn text_less(a: &str, b: &str) -> (r: bool)
    ensures
        r == text_lt(a@, b@),
{
    a < b
}

/// Whether one list of strings comes before another.
pub fn texts_less(a: &Vec<String>, b: &Vec<String>) -> (r: bool)
    ensures
        r == texts_lt(texts(a@), texts(b@)),
{
    let mut i: usize = 0;
    assert(texts(a@).skip(0) =~= texts(a@));
    assert(texts(b@).skip(0) =~= texts(b@));
    while i < a.len() && i < b.len()
        invariant
            i <= a@.len(),
            i <= b@.len(),
            texts_lt(texts(a@), texts(b@)) == texts_lt(texts(a@).skip(i as int), texts(b@).skip(i as int)),
        decreases a@.len() - i,
    {
        let ghost x = texts(a@).skip(i as int);
        let ghost y = texts(b@).skip(i as int);
        assert(x[0] == a@[i as int]@);
        assert(y[0] == b@[i as int]@);
        assert(x.skip(1) =~= texts(a@).skip(i as int + 1));
        assert(y.skip(1) =~= texts(b@).skip(i as int + 1));
        if !same_text(a[i].as_str(), b[i].as_str()) {
            return text_less(a[i].as_str(), b[i].as_str());
        }
        i += 1;
    }
    assert(texts(a@).skip(i as int).len() == a@.len() - i);
    assert(texts(b@).skip(i as int).len() == b@.len() - i);
    i < b.len()
}

} // verus!
