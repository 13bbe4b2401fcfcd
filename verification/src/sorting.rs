//! Why every list of pages has an index: the order of texts is a total
//! order, so the keys that occur can be put in order, each once.

use vstd::prelude::*;
use crate::index::{
    group_keys, has_key, in_order, index_of, is_index, members, occurs, page_keys, Grouping,
};
use crate::page::PageView;
use crate::text::{
    lemma_text_le_antisymmetric, lemma_text_le_total, lemma_text_le_transitive, text_le,
};

verus! {

/// `a` may stand before `b` in an index: years run downwards, tags upwards.
pub open spec fn precedes(a: Seq<char>, b: Seq<char>, by: Grouping) -> bool {
    if by == Grouping::Year {
        text_le(b, a)
    } else {
        text_le(a, b)
    }
}

proof fn lemma_precedes_total(a: Seq<char>, b: Seq<char>, by: Grouping)
    ensures
        precedes(a, b, by) || precedes(b, a, by),
{
    lemma_text_le_total(a, b);
}

proof fn lemma_precedes_transitive(a: Seq<char>, b: Seq<char>, c: Seq<char>, by: Grouping)
    requires
        precedes(a, b, by),
        precedes(b, c, by),
    ensures
        precedes(a, c, by),
{
    if by == Grouping::Year {
        lemma_text_le_transitive(c, b, a);
    } else {
        lemma_text_le_transitive(a, b, c);
    }
}

proof fn lemma_precedes_antisymmetric(a: Seq<char>, b: Seq<char>, by: Grouping)
    requires
        precedes(a, b, by),
        precedes(b, a, by),
    ensures
        a == b,
{
    lemma_text_le_antisymmetric(a, b);
}

/// Each key may stand before the keys behind it.
spec fn ordered(keys: Seq<Seq<char>>, by: Grouping) -> bool {
    forall|i: int, j: int| 0 <= i < j < keys.len() ==> precedes(keys[i], keys[j], by)
}

proof fn lemma_ordered_is_in_order(keys: Seq<Seq<char>>, by: Grouping)
    ensures
        ordered(keys, by) <==> in_order(keys, by),
{
    if ordered(keys, by) {
        if by == Grouping::Year {
            assert forall|i: int, j: int| 0 <= i < j < keys.len() implies text_le(
                keys[j],
                keys[i],
            ) by {
                assert(precedes(keys[i], keys[j], by));
            }
        } else {
            assert forall|i: int, j: int| 0 <= i < j < keys.len() implies text_le(
                keys[i],
                keys[j],
            ) by {
                assert(precedes(keys[i], keys[j], by));
            }
        }
    }
    if in_order(keys, by) {
        assert forall|i: int, j: int| 0 <= i < j < keys.len() implies precedes(
            keys[i],
            keys[j],
            by,
        ) by {
            if by == Grouping::Year {
                assert(text_le(keys[j], keys[i]));
            } else {
                assert(text_le(keys[i], keys[j]));
            }
        }
    }
}

/// `keys` with `key` put in its place, unless it is among them.
spec fn with_key(keys: Seq<Seq<char>>, key: Seq<char>, by: Grouping) -> Seq<Seq<char>>
    decreases keys.len(),
{
    if keys.len() == 0 {
        seq![key]
    } else if keys[0] == key {
        keys
    } else if precedes(key, keys[0], by) {
        seq![key] + keys
    } else {
        seq![keys[0]] + with_key(keys.skip(1), key, by)
    }
}

proof fn lemma_with_key(keys: Seq<Seq<char>>, key: Seq<char>, by: Grouping)
    requires
        keys.no_duplicates(),
        ordered(keys, by),
    ensures
        with_key(keys, key, by).no_duplicates(),
        ordered(with_key(keys, key, by), by),
        forall|k: Seq<char>|
            #[trigger] with_key(keys, key, by).contains(k) <==> keys.contains(k) || k == key,
    decreases keys.len(),
{
    let r = with_key(keys, key, by);
    if keys.len() == 0 {
        assert(r[0] == key);
    } else if keys[0] == key {
        assert(keys.contains(keys[0]));
    } else if precedes(key, keys[0], by) {
        assert(r[0] == key);
        assert forall|j: int| 0 <= j < keys.len() implies r[j + 1] == keys[j] by {}
        assert forall|j: int| 0 <= j < keys.len() implies precedes(key, #[trigger] keys[j], by)
            && key != keys[j] by {
            if j > 0 {
                assert(precedes(keys[0], keys[j], by));
                lemma_precedes_transitive(key, keys[0], keys[j], by);
                if key == keys[j] {
                    lemma_precedes_antisymmetric(key, keys[0], by);
                }
            }
        }
        assert forall|i: int, j: int| 0 <= i < j < r.len() implies precedes(r[i], r[j], by) by {
            assert(r[j] == keys[j - 1]);
            if i > 0 {
                assert(r[i] == keys[i - 1]);
            }
        }
        assert forall|i: int, j: int| 0 <= i < r.len() && 0 <= j < r.len() && i != j implies r[i]
            != r[j] by {
            if i > 0 {
                assert(r[i] == keys[i - 1]);
            }
            if j > 0 {
                assert(r[j] == keys[j - 1]);
            }
        }
        assert forall|k: Seq<char>| r.contains(k) <==> keys.contains(k) || k == key by {
            if r.contains(k) {
                let i = choose|i: int| 0 <= i < r.len() && r[i] == k;
                if i > 0 {
                    assert(keys[i - 1] == k);
                }
            }
            if keys.contains(k) {
                let i = choose|i: int| 0 <= i < keys.len() && keys[i] == k;
                assert(r[i + 1] == k);
            }
        }
    } else {
        let rest = keys.skip(1);
        let placed = with_key(rest, key, by);
        assert(ordered(rest, by)) by {
            assert forall|i: int, j: int| 0 <= i < j < rest.len() implies precedes(
                rest[i],
                rest[j],
                by,
            ) by {
                assert(precedes(keys[i + 1], keys[j + 1], by));
            }
        }
        lemma_with_key(rest, key, by);
        lemma_precedes_total(key, keys[0], by);
        assert(r[0] == keys[0]);
        assert forall|j: int| 0 <= j < placed.len() implies r[j + 1] == placed[j] by {}
        assert forall|j: int| 0 <= j < placed.len() implies precedes(
            keys[0],
            #[trigger] placed[j],
            by,
        ) && keys[0] != placed[j] by {
            assert(placed.contains(placed[j]));
            if placed[j] != key {
                assert(rest.contains(placed[j]));
                let m = choose|m: int| 0 <= m < rest.len() && rest[m] == placed[j];
                assert(keys[m + 1] == placed[j]);
                assert(precedes(keys[0], keys[m + 1], by));
            }
        }
        assert forall|i: int, j: int| 0 <= i < j < r.len() implies precedes(r[i], r[j], by) by {
            assert(r[j] == placed[j - 1]);
            if i > 0 {
                assert(r[i] == placed[i - 1]);
            }
        }
        assert forall|i: int, j: int| 0 <= i < r.len() && 0 <= j < r.len() && i != j implies r[i]
            != r[j] by {
            if i > 0 {
                assert(r[i] == placed[i - 1]);
            }
            if j > 0 {
                assert(r[j] == placed[j - 1]);
            }
        }
        assert forall|k: Seq<char>| r.contains(k) <==> keys.contains(k) || k == key by {
            if r.contains(k) {
                let i = choose|i: int| 0 <= i < r.len() && r[i] == k;
                if i > 0 {
                    assert(placed[i - 1] == k);
                    assert(placed.contains(k));
                    if k != key {
                        assert(rest.contains(k));
                        let m = choose|m: int| 0 <= m < rest.len() && rest[m] == k;
                        assert(keys[m + 1] == k);
                    }
                } else {
                    assert(keys[0] == k);
                }
            }
            if keys.contains(k) {
                let i = choose|i: int| 0 <= i < keys.len() && keys[i] == k;
                if i > 0 {
                    assert(rest[i - 1] == k);
                    assert(rest.contains(k));
                    assert(placed.contains(k));
                    let m = choose|m: int| 0 <= m < placed.len() && placed[m] == k;
                    assert(r[m + 1] == k);
                } else {
                    assert(r[0] == k);
                }
            }
            if k == key {
                assert(placed.contains(k));
                let m = choose|m: int| 0 <= m < placed.len() && placed[m] == k;
                assert(r[m + 1] == k);
            }
        }
    }
}

/// The keys of `listed`, each once and in order.
spec fn put_in_order(listed: Seq<Seq<char>>, by: Grouping) -> Seq<Seq<char>>
    decreases listed.len(),
{
    if listed.len() == 0 {
        Seq::empty()
    } else {
        with_key(put_in_order(listed.drop_last(), by), listed.last(), by)
    }
}

proof fn lemma_put_in_order(listed: Seq<Seq<char>>, by: Grouping)
    ensures
        put_in_order(listed, by).no_duplicates(),
        ordered(put_in_order(listed, by), by),
        forall|k: Seq<char>| #[trigger] put_in_order(listed, by).contains(k) <==> listed.contains(k),
    decreases listed.len(),
{
    if listed.len() > 0 {
        let earlier = listed.drop_last();
        lemma_put_in_order(earlier, by);
        lemma_with_key(put_in_order(earlier, by), listed.last(), by);
        assert forall|k: Seq<char>| #[trigger]
            put_in_order(listed, by).contains(k) <==> listed.contains(k) by {
            assert(put_in_order(listed, by).contains(k) <==> put_in_order(earlier, by).contains(k)
                || k == listed.last());
            if listed.contains(k) {
                let i = choose|i: int| 0 <= i < listed.len() && listed[i] == k;
                if i < listed.len() - 1 {
                    assert(earlier[i] == k);
                    assert(earlier.contains(k));
                }
            }
            if earlier.contains(k) {
                let i = choose|i: int| 0 <= i < earlier.len() && earlier[i] == k;
                assert(listed[i] == k);
            }
            if k == listed.last() {
                assert(listed[listed.len() - 1] == k);
            }
        }
    }
}

/// The keys of all pages, one page after the other.
spec fn keys_met(pages: Seq<PageView>, by: Grouping) -> Seq<Seq<char>>
    decreases pages.len(),
{
    if pages.len() == 0 {
        Seq::empty()
    } else {
        keys_met(pages.drop_last(), by) + page_keys(pages.last(), by)
    }
}

proof fn lemma_keys_met(pages: Seq<PageView>, by: Grouping)
    ensures
        forall|k: Seq<char>| #[trigger] keys_met(pages, by).contains(k) <==> occurs(pages, by, k),
    decreases pages.len(),
{
    if pages.len() == 0 {
    } else {
        let earlier = pages.drop_last();
        let own = page_keys(pages.last(), by);
        let met = keys_met(pages, by);
        lemma_keys_met(earlier, by);
        assert forall|k: Seq<char>| #[trigger] met.contains(k) <==> occurs(pages, by, k) by {
            if met.contains(k) {
                let i = choose|i: int| 0 <= i < met.len() && met[i] == k;
                if i < keys_met(earlier, by).len() {
                    assert(keys_met(earlier, by)[i] == k);
                    assert(keys_met(earlier, by).contains(k));
                    assert(occurs(earlier, by, k));
                    let w = choose|w: int|
                        0 <= w < earlier.len() && has_key(#[trigger] earlier[w], by, k);
                    assert(has_key(pages[w], by, k));
                } else {
                    assert(own[i - keys_met(earlier, by).len()] == k);
                    assert(own.contains(k));
                    assert(has_key(pages[pages.len() - 1], by, k));
                }
            }
            if occurs(pages, by, k) {
                let w = choose|w: int| 0 <= w < pages.len() && has_key(#[trigger] pages[w], by, k);
                if w < pages.len() - 1 {
                    assert(has_key(earlier[w], by, k));
                    assert(occurs(earlier, by, k));
                    assert(keys_met(earlier, by).contains(k));
                    let i = choose|i: int|
                        0 <= i < keys_met(earlier, by).len() && keys_met(earlier, by)[i] == k;
                    assert(met[i] == k);
                } else {
                    assert(own.contains(k));
                    let i = choose|i: int| 0 <= i < own.len() && own[i] == k;
                    assert(met[keys_met(earlier, by).len() + i] == k);
                }
            }
        }
    }
}

/// Every list of pages has an index with its keys in order, and `index_of`
/// is that index.
pub proof fn lemma_index_exists(pages: Seq<PageView>, by: Grouping)
    ensures
        is_index(index_of(pages, by), pages, by),
        in_order(group_keys(index_of(pages, by)), by),
{
    let keys = put_in_order(keys_met(pages, by), by);
    lemma_keys_met(pages, by);
    lemma_put_in_order(keys_met(pages, by), by);
    lemma_ordered_is_in_order(keys, by);
    let groups = keys.map_values(|k: Seq<char>| (k, members(pages, by, k)));
    assert(group_keys(groups) =~= keys);
    assert forall|k: Seq<char>| group_keys(groups).contains(k) <==> occurs(pages, by, k) by {
        assert(keys.contains(k) <==> keys_met(pages, by).contains(k));
    }
    assert(is_index(groups, pages, by) && in_order(group_keys(groups), by));
}

} // verus!
