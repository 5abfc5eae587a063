//! Character-level helpers shared by the request parser, the file naming
//! rules and the header builders.

use vstd::prelude::*;
use vstd::string::{StrSliceExecFns, StringExecFns};

verus! {

/// Whether `needle` occurs in `hay` starting at position `at`.
pub open spec fn occurs_at(hay: Seq<char>, needle: Seq<char>, at: int) -> bool {
    &&& 0 <= at
    &&& at + needle.len() <= hay.len()
    &&& hay.subrange(at, at + needle.len()) == needle
}

/// Whether `needle` occurs somewhere in `hay`.
pub open spec fn contains_text(hay: Seq<char>, needle: Seq<char>) -> bool {
    exists|at: int| occurs_at(hay, needle, at)
}

/// Whether `s` ends with `suffix`.
pub open spec fn ends_with(s: Seq<char>, suffix: Seq<char>) -> bool {
    suffix.len() <= s.len() && s.subrange(s.len() - suffix.len(), s.len() as int) == suffix
}

/// The characters of a string slice, in order.
pub fn chars_of(s: &str) -> (v: Vec<char>)
    ensures
        v@ == s@,
{
    let mut v: Vec<char> = Vec::new();
    for c in it: s.chars()
        invariant
            it.seq() == s@,
            v@ == it.seq().take(it.index()),
    {
        v.push(c);
    }
    v
}

/// Tests whether `needle` occurs in `hay` at position `at`.
pub fn matches_at(hay: &Vec<char>, needle: &Vec<char>, at: usize) -> (b: bool)
    ensures
        b == occurs_at(hay@, needle@, at as int),
{
    if needle.len() > hay.len() || at > hay.len() - needle.len() {
        return false;
    }
    let mut k: usize = 0;
    while k < needle.len()
        invariant
            k <= needle.len(),
            at + needle.len() <= hay.len(),
            forall|j: int| 0 <= j < k ==> hay@[at + j] == needle@[j],
        decreases needle.len() - k,
    {
        if hay[at + k] != needle[k] {
            assert(hay@.subrange(at as int, at + needle.len())[k as int] != needle@[k as int]);
            return false;
        }
        k += 1;
    }
    assert(hay@.subrange(at as int, at + needle.len()) =~= needle@);
    true
}

/// Tests whether `needle` occurs anywhere in `hay`.
pub fn contains(hay: &Vec<char>, needle: &Vec<char>) -> (b: bool)
    ensures
        b == contains_text(hay@, needle@),
{
    if needle.len() > hay.len() {
        assert(forall|at: int| !occurs_at(hay@, needle@, at));
        return false;
    }
    let last: usize = hay.len() - needle.len();
    let mut at: usize = 0;
    while at < last
        invariant
            last == hay.len() - needle.len(),
            at <= last,
            forall|j: int| 0 <= j < at ==> !occurs_at(hay@, needle@, j),
        decreases last - at,
    {
        if matches_at(hay, needle, at) {
            return true;
        }
        at += 1;
    }
    matches_at(hay, needle, last)
}

/// `s` with every occurrence of the non-empty `from` replaced by `to`,
/// found from left to right, each search starting after the last match.
/// With an empty `from`, `s` itself.
pub open spec fn replaced(s: Seq<char>, from: Seq<char>, to: Seq<char>) -> Seq<char>
    decreases s.len(),
{
    if from.len() == 0 || s.len() < from.len() {
        s
    } else if s.take(from.len() as int) == from {
        to + replaced(s.skip(from.len() as int), from, to)
    } else {
        seq![s[0]] + replaced(s.skip(1), from, to)
    }
}

/// Replacing by something no longer than what is replaced does not make
/// a text longer.
pub proof fn lemma_replaced_len(s: Seq<char>, from: Seq<char>, to: Seq<char>)
    requires
        to.len() <= from.len(),
    ensures
        replaced(s, from, to).len() <= s.len(),
    decreases s.len(),
{
    if from.len() == 0 || s.len() < from.len() {
    } else if s.take(from.len() as int) == from {
        lemma_replaced_len(s.skip(from.len() as int), from, to);
    } else {
        lemma_replaced_len(s.skip(1), from, to);
    }
}

/// A text in UTF-8 takes at most four bytes for each character.
pub proof fn lemma_encoded_len(s: Seq<char>)
    ensures
        vstd::utf8::encode_utf8(s).len() <= 4 * s.len(),
    decreases s.len(),
{
    if s.len() > 0 {
        lemma_encoded_len(s.drop_first());
    }
}

/// Replaces every occurrence of the non-empty `from` in `s` by `to`; with
/// an empty `from` the text stays as it is.
pub fn replace_all(s: &str, from: &str, to: &str) -> (r: String)
    ensures
        r@ == replaced(s@, from@, to@),
{
    let hay = chars_of(s);
    let needle = chars_of(from);
    if needle.len() == 0 {
        return String::from_str(s);
    }
    let mut out = String::new();
    let mut kept: usize = 0;
    let mut i: usize = 0;
    assert(s@.skip(0) =~= s@);
    while i < hay.len() && hay.len() - i >= needle.len()
        invariant
            hay@ == s@,
            needle@ == from@,
            needle.len() > 0,
            kept <= i <= hay.len(),
            out@ + s@.subrange(kept as int, i as int) + replaced(s@.skip(i as int), from@, to@)
                == replaced(s@, from@, to@),
        decreases hay.len() - i,
    {
        let ghost rest = s@.skip(i as int);
        if matches_at(&hay, &needle, i) {
            assert(rest.take(from@.len() as int) =~= s@.subrange(i as int, i + from@.len()));
            assert(rest.skip(from@.len() as int) =~= s@.skip(i + from@.len()));
            out.append(s.substring_char(kept, i));
            out.append(to);
            i += needle.len();
            kept = i;
            assert(s@.subrange(kept as int, i as int) =~= Seq::<char>::empty());
            assert(out@ + s@.subrange(kept as int, i as int) + replaced(
                s@.skip(i as int),
                from@,
                to@,
            ) =~= replaced(s@, from@, to@));
        } else {
            assert(rest.take(from@.len() as int) =~= s@.subrange(i as int, i + from@.len()));
            assert(rest.skip(1) =~= s@.skip(i + 1));
            assert(s@.subrange(kept as int, i + 1) =~= s@.subrange(kept as int, i as int) + seq![
                rest[0],
            ]);
            i += 1;
            assert(out@ + s@.subrange(kept as int, i as int) + replaced(
                s@.skip(i as int),
                from@,
                to@,
            ) =~= replaced(s@, from@, to@));
        }
    }
    out.append(s.substring_char(kept, hay.len()));
    assert(s@.subrange(kept as int, i as int) + s@.skip(i as int) =~= s@.subrange(
        kept as int,
        hay.len() as int,
    ));
    assert(out@ =~= replaced(s@, from@, to@));
    out
}


} // verus!
