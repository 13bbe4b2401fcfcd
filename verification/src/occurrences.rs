//! How often a piece of text occurs in a text, and how that number adds up
//! where texts are joined.
//!
//! Joining two texts can make an occurrence that neither of them holds, one
//! that starts in the first and ends in the second. A text is settled for a
//! pattern where that cannot happen: every position of it either starts a
//! whole occurrence or differs from the pattern before the text ends.

use vstd::prelude::*;

verus! {

/// `pattern` stands in `text` at position `at`.
pub open spec fn occurs_at(text: Seq<char>, pattern: Seq<char>, at: int) -> bool {
    0 <= at && at + pattern.len() <= text.len() && text.subrange(at, at + pattern.len())
        == pattern
}

/// From position `at` on, `text` differs from `pattern` before it ends.
pub open spec fn differs_at(text: Seq<char>, pattern: Seq<char>, at: int) -> bool {
    exists|j: int| 0 <= j < pattern.len() && at + j < text.len() && text[at + j] != pattern[j]
}

/// No occurrence of `pattern` can start in `text` and end behind it.
pub open spec fn settled(text: Seq<char>, pattern: Seq<char>) -> bool {
    forall|i: int|
        0 <= i < text.len() ==> occurs_at(text, pattern, i) || differs_at(text, pattern, i)
}

/// The number of occurrences of `pattern` that start at `from` or behind it.
pub open spec fn count_from(text: Seq<char>, pattern: Seq<char>, from: int) -> nat
    decreases text.len() - from,
{
    if from >= text.len() {
        0
    } else if occurs_at(text, pattern, from) {
        count_from(text, pattern, from + 1) + 1
    } else {
        count_from(text, pattern, from + 1)
    }
}

/// The number of occurrences of `pattern` in `text`.
pub open spec fn count(text: Seq<char>, pattern: Seq<char>) -> nat {
    count_from(text, pattern, 0)
}

/// `text` is settled for `pattern` and holds it `n` times.
pub open spec fn holds(text: Seq<char>, pattern: Seq<char>, n: nat) -> bool {
    settled(text, pattern) && count(text, pattern) == n
}

/// What a position of a text is to a pattern: the start of an occurrence, a
/// place where the text differs from the pattern, or a place where the text
/// ends before the pattern does.
pub enum Start {
    Occurs,
    Differs,
    Open,
}

/// What position `at` is to `pattern`, given that the first `matched`
/// characters from `at` on agree with it.
pub open spec fn start_from(text: Seq<char>, pattern: Seq<char>, at: int, matched: int) -> Start
    decreases pattern.len() - matched,
{
    if matched >= pattern.len() {
        Start::Occurs
    } else if at + matched >= text.len() {
        Start::Open
    } else if text[at + matched] != pattern[matched] {
        Start::Differs
    } else {
        start_from(text, pattern, at, matched + 1)
    }
}

/// The number of occurrences of `pattern` that start at `from` or behind it,
/// where no position from there on is left open; `None` where one is.
pub open spec fn scan(text: Seq<char>, pattern: Seq<char>, from: int) -> Option<nat>
    decreases text.len() - from,
{
    if from >= text.len() {
        Some(0)
    } else {
        match (start_from(text, pattern, from, 0), scan(text, pattern, from + 1)) {
            (Start::Occurs, Some(n)) => Some(n + 1),
            (Start::Differs, Some(n)) => Some(n),
            _ => None,
        }
    }
}

proof fn lemma_start_from(text: Seq<char>, pattern: Seq<char>, at: int, matched: int)
    requires
        0 <= at <= text.len(),
        0 <= matched <= pattern.len(),
        forall|j: int|
            0 <= j < matched ==> at + j < text.len() && text[at + j] == #[trigger] pattern[j],
    ensures
        start_from(text, pattern, at, matched) is Occurs ==> occurs_at(text, pattern, at),
        start_from(text, pattern, at, matched) is Differs ==> differs_at(text, pattern, at)
            && !occurs_at(text, pattern, at),
    decreases pattern.len() - matched,
{
    if matched >= pattern.len() {
        if pattern.len() > 0 {
            let last = pattern.len() - 1;
            assert(text[at + last] == pattern[last]);
        }
        assert(text.subrange(at, at + pattern.len()) =~= pattern);
    } else if at + matched >= text.len() {
    } else if text[at + matched] != pattern[matched] {
        if occurs_at(text, pattern, at) {
            assert(text.subrange(at, at + pattern.len())[matched] == text[at + matched]);
        }
    } else {
        lemma_start_from(text, pattern, at, matched + 1);
    }
}

/// A scan that leaves no position open has counted the occurrences, and
/// shows that the text is settled from where it began.
proof fn lemma_scan_from(text: Seq<char>, pattern: Seq<char>, from: int)
    requires
        0 <= from,
        scan(text, pattern, from) is Some,
    ensures
        scan(text, pattern, from) == Some(count_from(text, pattern, from)),
        forall|i: int|
            from <= i < text.len() ==> occurs_at(text, pattern, i) || differs_at(text, pattern, i),
    decreases text.len() - from,
{
    if from < text.len() {
        lemma_start_from(text, pattern, from, 0);
        lemma_scan_from(text, pattern, from + 1);
    }
}

/// A text that was scanned from its beginning holds the pattern as often as
/// the scan says.
pub proof fn lemma_scanned(text: Seq<char>, pattern: Seq<char>, n: nat)
    requires
        scan(text, pattern, 0) == Some(n),
    ensures
        holds(text, pattern, n),
{
    lemma_scan_from(text, pattern, 0);
}

/// Where the pattern occurs nowhere from `from` on, the count from there is
/// zero, and the other way round.
pub proof fn lemma_count_zero(text: Seq<char>, pattern: Seq<char>, from: int)
    requires
        0 <= from,
    ensures
        count_from(text, pattern, from) == 0 <==> forall|i: int|
            from <= i < text.len() ==> !occurs_at(text, pattern, i),
    decreases text.len() - from,
{
    if from < text.len() {
        lemma_count_zero(text, pattern, from + 1);
    }
}

/// A text without the first character of a pattern holds the pattern nowhere.
pub proof fn lemma_without_first_char(text: Seq<char>, pattern: Seq<char>)
    requires
        pattern.len() > 0,
        forall|i: int| 0 <= i < text.len() ==> text[i] != pattern[0],
    ensures
        holds(text, pattern, 0),
{
    assert forall|i: int| 0 <= i < text.len() implies differs_at(text, pattern, i)
        && !occurs_at(text, pattern, i) by {
        assert(0 <= 0 < pattern.len() && i + 0 < text.len() && text[i + 0] != pattern[0]);
        if occurs_at(text, pattern, i) {
            assert(text.subrange(i, i + pattern.len())[0] == text[i]);
        }
    }
    lemma_count_zero(text, pattern, 0);
}

/// In a text that is settled, joining another text behind it changes
/// nothing about the occurrences that start in it.
proof fn lemma_occurs_in_front(a: Seq<char>, b: Seq<char>, pattern: Seq<char>, at: int)
    requires
        settled(a, pattern),
        0 <= at < a.len(),
    ensures
        occurs_at(a + b, pattern, at) <==> occurs_at(a, pattern, at),
{
    if occurs_at(a, pattern, at) {
        assert((a + b).subrange(at, at + pattern.len()) =~= a.subrange(at, at + pattern.len()));
    }
    if occurs_at(a + b, pattern, at) && !occurs_at(a, pattern, at) {
        let j = choose|j: int|
            0 <= j < pattern.len() && at + j < a.len() && a[at + j] != pattern[j];
        assert((a + b).subrange(at, at + pattern.len())[j] == (a + b)[at + j]);
    }
}

/// Behind the first of two joined texts, the occurrences are those of the
/// second.
proof fn lemma_occurs_behind(a: Seq<char>, b: Seq<char>, pattern: Seq<char>, at: int)
    requires
        a.len() <= at,
    ensures
        occurs_at(a + b, pattern, at) <==> occurs_at(b, pattern, at - a.len()),
{
    if at + pattern.len() <= a.len() + b.len() {
        assert((a + b).subrange(at, at + pattern.len()) =~= b.subrange(
            at - a.len(),
            at - a.len() + pattern.len(),
        ));
    }
}

proof fn lemma_count_behind(a: Seq<char>, b: Seq<char>, pattern: Seq<char>, from: int)
    requires
        a.len() <= from,
    ensures
        count_from(a + b, pattern, from) == count_from(b, pattern, from - a.len()),
    decreases a.len() + b.len() - from,
{
    if from < a.len() + b.len() {
        lemma_occurs_behind(a, b, pattern, from);
        lemma_count_behind(a, b, pattern, from + 1);
    }
}

proof fn lemma_count_joined(a: Seq<char>, b: Seq<char>, pattern: Seq<char>, from: int)
    requires
        settled(a, pattern),
        0 <= from <= a.len(),
    ensures
        count_from(a + b, pattern, from) == count_from(a, pattern, from) + count(b, pattern),
    decreases a.len() - from,
{
    if from == a.len() {
        lemma_count_behind(a, b, pattern, from);
    } else {
        lemma_occurs_in_front(a, b, pattern, from);
        lemma_count_joined(a, b, pattern, from + 1);
    }
}

/// Two settled texts, joined, are settled and hold the pattern as often as
/// both together.
pub proof fn lemma_joined(a: Seq<char>, b: Seq<char>, pattern: Seq<char>, m: nat, n: nat)
    requires
        holds(a, pattern, m),
        holds(b, pattern, n),
    ensures
        holds(a + b, pattern, m + n),
{
    lemma_count_joined(a, b, pattern, 0);
    assert forall|i: int| 0 <= i < (a + b).len() implies occurs_at(a + b, pattern, i)
        || differs_at(a + b, pattern, i) by {
        if i < a.len() {
            lemma_occurs_in_front(a, b, pattern, i);
            if !occurs_at(a, pattern, i) {
                let j = choose|j: int|
                    0 <= j < pattern.len() && i + j < a.len() && a[i + j] != pattern[j];
                assert((a + b)[i + j] != pattern[j]);
            }
        } else {
            lemma_occurs_behind(a, b, pattern, i);
            if !occurs_at(b, pattern, i - a.len()) {
                let j = choose|j: int|
                    0 <= j < pattern.len() && i - a.len() + j < b.len() && b[i - a.len() + j]
                        != pattern[j];
                assert((a + b)[i + j] != pattern[j]);
            }
        }
    }
}

/// A text without the pattern, put between two settled texts without it,
/// makes no occurrence, provided that what follows it begins with a
/// character that the pattern holds in its first place at most.
pub proof fn lemma_enclosed(a: Seq<char>, inner: Seq<char>, b: Seq<char>, pattern: Seq<char>)
    requires
        holds(a, pattern, 0),
        count(inner, pattern) == 0,
        holds(b, pattern, 0),
        b.len() > 0,
        forall|j: int| 1 <= j < pattern.len() ==> b[0] != pattern[j],
    ensures
        count(a + inner + b, pattern) == 0,
{
    let rest = inner + b;
    lemma_count_zero(inner, pattern, 0);
    lemma_count_zero(b, pattern, 0);
    assert forall|i: int| 0 <= i < rest.len() implies !occurs_at(rest, pattern, i) by {
        if occurs_at(rest, pattern, i) {
            if i >= inner.len() {
                lemma_occurs_behind(inner, b, pattern, i);
            } else if i + pattern.len() <= inner.len() {
                assert(inner.subrange(i, i + pattern.len()) =~= rest.subrange(
                    i,
                    i + pattern.len(),
                ));
                assert(occurs_at(inner, pattern, i));
            } else {
                let j = inner.len() - i;
                assert(rest.subrange(i, i + pattern.len())[j] == rest[i + j]);
                assert(rest[i + j] == b[0]);
            }
        }
    }
    lemma_count_zero(rest, pattern, 0);
    lemma_count_joined(a, rest, pattern, 0);
    assert(a + inner + b =~= a + rest);
}

} // verus!
