//! Text helpers shared by the other modules.

use itertools::Itertools;
use vstd::prelude::*;

verus! {

/// The texts that a list of strings holds.
pub open spec fn texts(strings: Seq<String>) -> Seq<Seq<char>> {
    strings.map_values(|s: String| s@)
}

/// `a` comes no later than `b` where texts are ordered character by
/// character, by code point, a text before each of its extensions.
pub open spec fn text_le(a: Seq<char>, b: Seq<char>) -> bool
    decreases a.len(),
{
    if a.len() == 0 {
        true
    } else if b.len() == 0 {
        false
    } else if a[0] != b[0] {
        a[0] < b[0]
    } else {
        text_le(a.skip(1), b.skip(1))
    }
}

/// Two texts that each come no later than the other are the same text.
pub proof fn lemma_text_le_antisymmetric(a: Seq<char>, b: Seq<char>)
    requires
        text_le(a, b),
        text_le(b, a),
    ensures
        a == b,
    decreases a.len(),
{
    if a.len() == 0 {
        assert(a =~= b);
    } else {
        lemma_text_le_antisymmetric(a.skip(1), b.skip(1));
        assert(a =~= seq![a[0]] + a.skip(1));
        assert(b =~= seq![b[0]] + b.skip(1));
    }
}

/// Of two texts one comes no later than the other.
pub proof fn lemma_text_le_total(a: Seq<char>, b: Seq<char>)
    ensures
        text_le(a, b) || text_le(b, a),
    decreases a.len(),
{
    if a.len() > 0 && b.len() > 0 && a[0] == b[0] {
        lemma_text_le_total(a.skip(1), b.skip(1));
    }
}

/// A text that comes no later than a second, which comes no later than a
/// third, comes no later than the third.
pub proof fn lemma_text_le_transitive(a: Seq<char>, b: Seq<char>, c: Seq<char>)
    requires
        text_le(a, b),
        text_le(b, c),
    ensures
        text_le(a, c),
    decreases a.len(),
{
    if a.len() > 0 && a[0] == b[0] && b[0] == c[0] {
        lemma_text_le_transitive(a.skip(1), b.skip(1), c.skip(1));
    }
}

/// Each text comes no later than the texts behind it.
pub open spec fn ascending(names: Seq<Seq<char>>) -> bool {
    forall|i: int, j: int| 0 <= i < j < names.len() ==> text_le(names[i], names[j])
}

/// Each text comes no earlier than the texts behind it.
pub open spec fn descending(names: Seq<Seq<char>>) -> bool {
    forall|i: int, j: int| 0 <= i < j < names.len() ==> text_le(names[j], names[i])
}

/// The lower-case form that `str::to_lowercase` gives a text.
pub uninterp spec fn lowercased(s: Seq<char>) -> Seq<char>;

/// `str::to_lowercase`: the text in lower case, by the Unicode rules that
/// std follows.
#[verifier::external_body]
pub(crate) fn lowercase(s: &str) -> (lower: String)
    ensures
        lower@ == lowercased(s@),
{
    s.to_lowercase()
}

/// `Itertools::sorted` on strings: the same strings, each as often as
/// before, in ascending order. Strings are ordered as std orders them, by
/// their bytes, which is the order of their code points.
#[verifier::external_body]
pub(crate) fn sorted_names(names: Vec<String>) -> (sorted: Vec<String>)
    ensures
        texts(sorted@).to_multiset() == texts(names@).to_multiset(),
        ascending(texts(sorted@)),
{
    names.into_iter().sorted().collect()
}

/// What is left of `s` once a leading `prefix` has been cut off; `s` itself
/// where it does not start with `prefix`.
pub open spec fn without_prefix(s: Seq<char>, prefix: Seq<char>) -> Seq<char> {
    if prefix.is_prefix_of(s) {
        s.skip(prefix.len() as int)
    } else {
        s
    }
}

/// What is left of `s` once a trailing `suffix` has been cut off; `s` itself
/// where it does not end with `suffix`.
pub open spec fn without_suffix(s: Seq<char>, suffix: Seq<char>) -> Seq<char> {
    if suffix.is_suffix_of(s) {
        s.take(s.len() - suffix.len())
    } else {
        s
    }
}

/// `str::strip_prefix` with a string pattern: the rest of `s` behind `prefix`
/// where `s` starts with it, `None` where it does not.
#[verifier::external_body]
pub(crate) fn strip_prefix<'a>(s: &'a str, prefix: &str) -> (rest: Option<&'a str>)
    ensures
        rest is Some <==> prefix@.is_prefix_of(s@),
        rest matches Some(r) ==> r@ == s@.skip(prefix@.len() as int),
{
    s.strip_prefix(prefix)
}

/// `str::strip_suffix` with a string pattern: the part of `s` before `suffix`
/// where `s` ends with it, `None` where it does not.
#[verifier::external_body]
pub(crate) fn strip_suffix<'a>(s: &'a str, suffix: &str) -> (rest: Option<&'a str>)
    ensures
        rest is Some <==> suffix@.is_suffix_of(s@),
        rest matches Some(r) ==> r@ == s@.take(s@.len() - suffix@.len()),
{
    s.strip_suffix(suffix)
}

/// Whether a list of names holds `name`.
pub(crate) fn contains_name(names: &Vec<String>, name: &String) -> (found: bool)
    ensures
        found == texts(names@).contains(name@),
{
    let mut i: usize = 0;
    while i < names.len()
        invariant
            i <= names@.len(),
            forall|k: int| 0 <= k < i ==> texts(names@)[k] != name@,
        decreases names@.len() - i,
    {
        if names[i] == *name {
            assert(texts(names@)[i as int] == name@);
            return true;
        }
        i += 1;
    }
    false
}

/// Cuts `prefix` off the front of `s` if it is there.
pub fn remove_prefix<'a>(s: &'a str, prefix: &str) -> (rest: &'a str)
    ensures
        rest@ == without_prefix(s@, prefix@),
{
    match strip_prefix(s, prefix) {
        Some(rest) => rest,
        None => s,
    }
}

/// Cuts `suffix` off the end of `s` if it is there.
pub fn remove_suffix<'a>(s: &'a str, suffix: &str) -> (rest: &'a str)
    ensures
        rest@ == without_suffix(s@, suffix@),
{
    match strip_suffix(s, suffix) {
        Some(rest) => rest,
        None => s,
    }
}

} // verus!
