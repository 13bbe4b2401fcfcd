//! The indexes over the pages of a site: by category, by project, by year of
//! publication, and by kind of page.
//!
//! An index is a list of groups, each a key with the pages that carry it.
//! Within a group the pages keep the order in which they were found. Tags
//! come in ascending order, years in descending order.

use vstd::prelude::*;
use vstd::string::*;
use crate::date::year_text;
use crate::page::{all_dated, group_views, page_views, referenced_pages, Page, PageView};
use crate::paths::{page_type, page_type_of, PageType};
use crate::text::{
    ascending, contains_name, descending, lemma_text_le_antisymmetric, sorted_names, text_le, texts,
};

verus! {

/// What an index groups pages by.
#[derive(Clone, Copy, Debug, PartialEq, Eq, Structural)]
pub enum Grouping {
    Category,
    Project,
    Year,
}

/// The keys under which a page is listed: its categories, its projects, or
/// the year of its date. An undated page has no year.
pub open spec fn page_keys(page: PageView, by: Grouping) -> Seq<Seq<char>> {
    match by {
        Grouping::Category => page.config.categories,
        Grouping::Project => page.config.projects,
        Grouping::Year => match page.config.date {
            Some(t) => seq![year_text(t)],
            None => Seq::empty(),
        },
    }
}

pub open spec fn has_key(page: PageView, by: Grouping, key: Seq<char>) -> bool {
    page_keys(page, by).contains(key)
}

/// The pages that carry `key`, in the order of `pages`.
pub open spec fn members(pages: Seq<PageView>, by: Grouping, key: Seq<char>) -> Seq<PageView>
    decreases pages.len(),
{
    if pages.len() == 0 {
        Seq::empty()
    } else if has_key(pages.last(), by, key) {
        members(pages.drop_last(), by, key).push(pages.last())
    } else {
        members(pages.drop_last(), by, key)
    }
}

/// Some page carries `key`.
pub open spec fn occurs(pages: Seq<PageView>, by: Grouping, key: Seq<char>) -> bool {
    exists|i: int| 0 <= i < pages.len() && has_key(#[trigger] pages[i], by, key)
}

/// The keys of the groups of an index, in the same order.
pub open spec fn group_keys(groups: Seq<(Seq<char>, Seq<PageView>)>) -> Seq<Seq<char>> {
    groups.map_values(|g: (Seq<char>, Seq<PageView>)| g.0)
}

/// `groups` is an index of `pages`: one group for each key that occurs, none
/// for any other, and in each group the pages that carry its key.
pub open spec fn is_index(
    groups: Seq<(Seq<char>, Seq<PageView>)>,
    pages: Seq<PageView>,
    by: Grouping,
) -> bool {
    &&& group_keys(groups).no_duplicates()
    &&& forall|key: Seq<char>| group_keys(groups).contains(key) <==> occurs(pages, by, key)
    &&& forall|i: int|
        0 <= i < groups.len() ==> (#[trigger] groups[i]).1 == members(pages, by, groups[i].0)
}

/// Years run downwards, tags upwards.
pub open spec fn in_order(keys: Seq<Seq<char>>, by: Grouping) -> bool {
    if by == Grouping::Year {
        descending(keys)
    } else {
        ascending(keys)
    }
}

/// The index of `pages` by `by`: the one list of groups that is an index of
/// them and has its keys in order.
pub open spec fn index_of(pages: Seq<PageView>, by: Grouping) -> Seq<(Seq<char>, Seq<PageView>)> {
    choose|groups: Seq<(Seq<char>, Seq<PageView>)>|
        is_index(groups, pages, by) && in_order(group_keys(groups), by)
}

/// Two lists of distinct keys that hold the same keys in the same order are
/// the same list.
pub proof fn lemma_keys_in_order_unique(a: Seq<Seq<char>>, b: Seq<Seq<char>>, by: Grouping)
    requires
        a.no_duplicates(),
        b.no_duplicates(),
        in_order(a, by),
        in_order(b, by),
        forall|k: Seq<char>| a.contains(k) <==> b.contains(k),
    ensures
        a == b,
    decreases a.len(),
{
    if a.len() == 0 {
        if b.len() > 0 {
            assert(b.contains(b[0]));
        }
        assert(a =~= b);
    } else {
        assert(a.contains(a[0]));
        assert(b.contains(a[0]));
        let j = choose|j: int| 0 <= j < b.len() && b[j] == a[0];
        assert(b.contains(b[0]));
        assert(a.contains(b[0]));
        let i = choose|i: int| 0 <= i < a.len() && a[i] == b[0];
        if i != 0 && j != 0 {
            lemma_text_le_antisymmetric(a[0], b[0]);
        }
        assert(a[0] == b[0]);
        let a1 = a.skip(1);
        let b1 = b.skip(1);
        assert forall|k: Seq<char>| a1.contains(k) <==> b1.contains(k) by {
            if a1.contains(k) {
                let x = choose|x: int| 0 <= x < a1.len() && a1[x] == k;
                assert(a[x + 1] == k);
                assert(a.contains(k));
                assert(b.contains(k));
                let y = choose|y: int| 0 <= y < b.len() && b[y] == k;
                assert(y != 0);
                assert(b1[y - 1] == k);
            }
            if b1.contains(k) {
                let y = choose|y: int| 0 <= y < b1.len() && b1[y] == k;
                assert(b[y + 1] == k);
                assert(b.contains(k));
                assert(a.contains(k));
                let x = choose|x: int| 0 <= x < a.len() && a[x] == k;
                assert(x != 0);
                assert(a1[x - 1] == k);
            }
        }
        assert(in_order(a1, by)) by {
            if by == Grouping::Year {
                assert forall|x: int, y: int| 0 <= x < y < a1.len() implies text_le(
                    a1[y],
                    a1[x],
                ) by {
                    assert(text_le(a[y + 1], a[x + 1]));
                }
            } else {
                assert forall|x: int, y: int| 0 <= x < y < a1.len() implies text_le(
                    a1[x],
                    a1[y],
                ) by {
                    assert(text_le(a[x + 1], a[y + 1]));
                }
            }
        }
        assert(in_order(b1, by)) by {
            if by == Grouping::Year {
                assert forall|x: int, y: int| 0 <= x < y < b1.len() implies text_le(
                    b1[y],
                    b1[x],
                ) by {
                    assert(text_le(b[y + 1], b[x + 1]));
                }
            } else {
                assert forall|x: int, y: int| 0 <= x < y < b1.len() implies text_le(
                    b1[x],
                    b1[y],
                ) by {
                    assert(text_le(b[x + 1], b[y + 1]));
                }
            }
        }
        lemma_keys_in_order_unique(a1, b1, by);
        assert(a =~= seq![a[0]] + a1);
        assert(b =~= seq![b[0]] + b1);
    }
}

/// Pages have one index in order: whatever is an index of them with its keys
/// in order is `index_of` them.
pub proof fn lemma_index_unique(
    groups: Seq<(Seq<char>, Seq<PageView>)>,
    pages: Seq<PageView>,
    by: Grouping,
)
    requires
        is_index(groups, pages, by),
        in_order(group_keys(groups), by),
    ensures
        groups == index_of(pages, by),
{
    let other = index_of(pages, by);
    assert(is_index(other, pages, by) && in_order(group_keys(other), by));
    lemma_keys_in_order_unique(group_keys(groups), group_keys(other), by);
    assert(groups.len() == other.len()) by {
        assert(group_keys(groups).len() == group_keys(other).len());
    }
    assert forall|i: int| 0 <= i < groups.len() implies groups[i] == other[i] by {
        assert(group_keys(groups)[i] == group_keys(other)[i]);
        assert(groups[i].0 == other[i].0);
        assert(groups[i].1 == members(pages, by, groups[i].0));
        assert(other[i].1 == members(pages, by, other[i].0));
    }
    assert(groups =~= other);
}

/// Every page among the members of a key carries the key.
pub proof fn lemma_members_have_key(pages: Seq<PageView>, by: Grouping, key: Seq<char>)
    ensures
        forall|j: int|
            0 <= j < members(pages, by, key).len() ==> has_key(
                #[trigger] members(pages, by, key)[j],
                by,
                key,
            ),
    decreases pages.len(),
{
    if pages.len() > 0 {
        let rest = members(pages.drop_last(), by, key);
        lemma_members_have_key(pages.drop_last(), by, key);
        assert forall|j: int| 0 <= j < members(pages, by, key).len() implies has_key(
            #[trigger] members(pages, by, key)[j],
            by,
            key,
        ) by {
            if j < rest.len() {
                assert(members(pages, by, key)[j] == rest[j]);
            }
        }
    }
}

/// A key has members exactly when it occurs.
pub proof fn lemma_members_nonempty(pages: Seq<PageView>, by: Grouping, key: Seq<char>)
    ensures
        members(pages, by, key).len() > 0 <==> occurs(pages, by, key),
    decreases pages.len(),
{
    if pages.len() > 0 {
        let rest = pages.drop_last();
        lemma_members_nonempty(rest, by, key);
        if occurs(pages, by, key) {
            let i = choose|i: int| 0 <= i < pages.len() && has_key(#[trigger] pages[i], by, key);
            if i < pages.len() - 1 {
                assert(has_key(rest[i], by, key));
            }
        }
        if occurs(rest, by, key) {
            let i = choose|i: int| 0 <= i < rest.len() && has_key(#[trigger] rest[i], by, key);
            assert(has_key(pages[i], by, key));
        }
        if has_key(pages.last(), by, key) {
            assert(has_key(pages[pages.len() - 1], by, key));
        }
    }
}

/// No group of an index is empty: a key has its group only where some page
/// carries it.
pub proof fn lemma_no_group_is_empty(pages: Seq<PageView>, by: Grouping, g: int)
    requires
        0 <= g < index_of(pages, by).len(),
    ensures
        index_of(pages, by)[g].1.len() > 0,
{
    crate::sorting::lemma_index_exists(pages, by);
    let groups = index_of(pages, by);
    lemma_members_nonempty(pages, by, groups[g].0);
    assert(group_keys(groups)[g] == groups[g].0);
    assert(group_keys(groups).contains(groups[g].0));
}

/// A page is among the members of a key exactly when it is one of the pages
/// and carries the key.
pub proof fn lemma_members_are_carriers(
    pages: Seq<PageView>,
    by: Grouping,
    key: Seq<char>,
    page: PageView,
)
    ensures
        members(pages, by, key).contains(page) <==> pages.contains(page) && has_key(page, by, key),
    decreases pages.len(),
{
    if pages.len() > 0 {
        let rest = pages.drop_last();
        let found = members(pages, by, key);
        lemma_members_are_carriers(rest, by, key, page);
        if found.contains(page) {
            let j = choose|j: int| 0 <= j < found.len() && found[j] == page;
            if j < members(rest, by, key).len() {
                assert(members(rest, by, key)[j] == page);
                assert(members(rest, by, key).contains(page));
                let i = choose|i: int| 0 <= i < rest.len() && rest[i] == page;
                assert(pages[i] == page);
            } else {
                assert(pages[pages.len() - 1] == page);
            }
        }
        if pages.contains(page) && has_key(page, by, key) {
            let i = choose|i: int| 0 <= i < pages.len() && pages[i] == page;
            if i < pages.len() - 1 {
                assert(rest[i] == page);
                assert(rest.contains(page));
                let j = choose|j: int|
                    0 <= j < members(rest, by, key).len() && members(rest, by, key)[j] == page;
                assert(found[j] == page);
            } else {
                assert(found[found.len() - 1] == page);
            }
        }
    }
}

/// Among pages that are all different, no page is a member of a key twice.
pub proof fn lemma_members_once(pages: Seq<PageView>, by: Grouping, key: Seq<char>)
    requires
        pages.no_duplicates(),
    ensures
        members(pages, by, key).no_duplicates(),
    decreases pages.len(),
{
    if pages.len() > 0 {
        let rest = pages.drop_last();
        let found = members(pages, by, key);
        lemma_members_once(rest, by, key);
        lemma_members_are_carriers(rest, by, key, pages.last());
        if rest.contains(pages.last()) {
            let i = choose|i: int| 0 <= i < rest.len() && rest[i] == pages.last();
            assert(pages[i] == pages[pages.len() - 1]);
        }
        assert forall|i: int, j: int|
            0 <= i < found.len() && 0 <= j < found.len() && i != j implies found[i]
            != found[j] by {
            let earlier = members(rest, by, key);
            if i < earlier.len() {
                assert(found[i] == earlier[i]);
                assert(earlier.contains(found[i]));
            }
            if j < earlier.len() {
                assert(found[j] == earlier[j]);
                assert(earlier.contains(found[j]));
            }
        }
    }
}

/// A page is listed under the keys that it carries and under no other: in
/// the index of the pages, each key that the page carries has its group, one
/// and no more, and the page is in a group exactly when it carries the
/// group's key.
pub proof fn lemma_page_listed_under_its_keys(pages: Seq<PageView>, by: Grouping, at: int)
    requires
        0 <= at < pages.len(),
    ensures
        group_keys(index_of(pages, by)).no_duplicates(),
        forall|key: Seq<char>|
            has_key(pages[at], by, key) ==> #[trigger] group_keys(index_of(pages, by)).contains(
                key,
            ),
        forall|g: int|
            0 <= g < index_of(pages, by).len() ==> ((#[trigger] index_of(pages, by)[g]).1.contains(
                pages[at],
            ) <==> has_key(pages[at], by, index_of(pages, by)[g].0)),
{
    crate::sorting::lemma_index_exists(pages, by);
    let groups = index_of(pages, by);
    assert forall|key: Seq<char>| has_key(pages[at], by, key) implies #[trigger] group_keys(
        groups,
    ).contains(key) by {
        assert(occurs(pages, by, key));
    }
    assert forall|g: int| 0 <= g < groups.len() implies ((#[trigger] groups[g]).1.contains(
        pages[at],
    ) <==> has_key(pages[at], by, groups[g].0)) by {
        lemma_members_are_carriers(pages, by, groups[g].0, pages[at]);
        assert(pages.contains(pages[at]));
    }
}

/// A page without a date is in no year: no group of the index by year holds
/// it, whatever pages the index is made of.
pub proof fn lemma_undated_page_in_no_year(pages: Seq<PageView>, page: PageView)
    requires
        page.config.date is None,
    ensures
        forall|g: int|
            0 <= g < index_of(pages, Grouping::Year).len() ==> !(#[trigger] index_of(
                pages,
                Grouping::Year,
            )[g]).1.contains(page),
{
    crate::sorting::lemma_index_exists(pages, Grouping::Year);
    let groups = index_of(pages, Grouping::Year);
    assert forall|g: int| 0 <= g < groups.len() implies !(#[trigger] groups[g]).1.contains(
        page,
    ) by {
        lemma_members_are_carriers(pages, Grouping::Year, groups[g].0, page);
        assert(page_keys(page, Grouping::Year) =~= Seq::<Seq<char>>::empty());
    }
}

/// The date of a page does not decide where its tags list it: a page with
/// or without a date is in the group of each category and of each project
/// that it carries.
pub proof fn lemma_tags_list_undated_pages(pages: Seq<PageView>, by: Grouping, at: int, g: int)
    requires
        by != Grouping::Year,
        0 <= at < pages.len(),
        0 <= g < index_of(pages, by).len(),
        has_key(pages[at], by, index_of(pages, by)[g].0),
    ensures
        index_of(pages, by)[g].1.contains(pages[at]),
{
    lemma_page_listed_under_its_keys(pages, by, at);
}

fn page_has_key(page: &Page, by: Grouping, key: &String) -> (found: bool)
    ensures
        found == has_key(page@, by, key@),
{
    match by {
        Grouping::Category => contains_name(&page.config.categories, key),
        Grouping::Project => contains_name(&page.config.projects, key),
        Grouping::Year => match page.config.date {
            Some(t) => {
                let label = t.year_label();
                proof {
                    let keys = seq![year_text(t)];
                    assert(keys[0] == year_text(t));
                    assert(keys.contains(key@) <==> year_text(t) == key@);
                }
                label == *key
            },
            None => false,
        },
    }
}

fn members_of<'a>(pages: &Vec<&'a Page>, by: Grouping, key: &String) -> (found: Vec<&'a Page>)
    ensures
        referenced_pages(found@) == members(referenced_pages(pages@), by, key@),
{
    let mut found: Vec<&'a Page> = Vec::new();
    let mut i: usize = 0;
    while i < pages.len()
        invariant
            i <= pages@.len(),
            referenced_pages(found@) == members(
                referenced_pages(pages@).take(i as int),
                by,
                key@,
            ),
        decreases pages@.len() - i,
    {
        proof {
            let done = referenced_pages(pages@).take(i + 1);
            assert(done.drop_last() =~= referenced_pages(pages@).take(i as int));
            assert(done.last() == pages@[i as int]@);
        }
        if page_has_key(pages[i], by, key) {
            let ghost before = referenced_pages(found@);
            found.push(pages[i]);
            assert(referenced_pages(found@) =~= before.push(pages@[i as int]@));
        }
        i += 1;
    }
    proof {
        assert(referenced_pages(pages@).take(pages@.len() as int) =~= referenced_pages(pages@));
    }
    found
}

/// Adds `key` to a list of distinct keys unless it is there.
fn add_key(keys: &mut Vec<String>, key: String)
    requires
        texts(old(keys)@).no_duplicates(),
    ensures
        texts(final(keys)@).no_duplicates(),
        forall|k: Seq<char>|
            #[trigger] texts(final(keys)@).contains(k) <==> texts(old(keys)@).contains(k) || k
                == key@,
{
    if !contains_name(keys, &key) {
        let ghost before = texts(keys@);
        keys.push(key);
        proof {
            let after = texts(keys@);
            assert(after =~= before.push(key@));
            assert forall|k: Seq<char>| after.contains(k) <==> before.contains(k) || k
                == key@ by {
                if before.contains(k) {
                    let i = choose|i: int| 0 <= i < before.len() && before[i] == k;
                    assert(after[i] == k);
                }
                if k == key@ {
                    assert(after[before.len() as int] == k);
                }
            }
        }
    }
}

/// Adds the keys of one page to a list of distinct keys.
fn add_page_keys(keys: &mut Vec<String>, page: &Page, by: Grouping)
    requires
        texts(old(keys)@).no_duplicates(),
    ensures
        texts(final(keys)@).no_duplicates(),
        forall|k: Seq<char>|
            #[trigger] texts(final(keys)@).contains(k) <==> texts(old(keys)@).contains(k)
                || has_key(page@, by, k),
{
    match by {
        Grouping::Year => match page.config.date {
            Some(t) => {
                proof {
                    let own = seq![year_text(t)];
                    assert(own[0] == year_text(t));
                    assert(forall|k: Seq<char>| own.contains(k) <==> k == year_text(t));
                }
                add_key(keys, t.year_label());
            },
            None => {},
        },
        _ => {
            let names = match by {
                Grouping::Project => &page.config.projects,
                _ => &page.config.categories,
            };
            let mut j: usize = 0;
            while j < names.len()
                invariant
                    j <= names@.len(),
                    texts(names@) == page_keys(page@, by),
                    texts(keys@).no_duplicates(),
                    forall|k: Seq<char>|
                        texts(keys@).contains(k) <==> texts(old(keys)@).contains(k) || texts(
                            names@,
                        ).take(j as int).contains(k),
                decreases names@.len() - j,
            {
                let ghost before = texts(keys@);
                add_key(keys, names[j].clone());
                proof {
                    let seen = texts(names@).take(j as int);
                    let next = texts(names@).take(j + 1);
                    assert(next =~= seen.push(names@[j as int]@));
                    assert forall|k: Seq<char>| next.contains(k) <==> seen.contains(k) || k
                        == names@[j as int]@ by {
                        if seen.contains(k) {
                            let i = choose|i: int| 0 <= i < seen.len() && seen[i] == k;
                            assert(next[i] == k);
                        }
                        if k == names@[j as int]@ {
                            assert(next[j as int] == k);
                        }
                    }
                }
                j += 1;
            }
            proof {
                assert(texts(names@).take(names@.len() as int) =~= texts(names@));
            }
        },
    }
}

/// The keys that occur among `pages`, each once, in the order in which they
/// are first met.
fn collect_keys(pages: &Vec<&Page>, by: Grouping) -> (keys: Vec<String>)
    ensures
        texts(keys@).no_duplicates(),
        forall|k: Seq<char>| texts(keys@).contains(k) <==> occurs(referenced_pages(pages@), by, k),
{
    let mut keys: Vec<String> = Vec::new();
    let mut i: usize = 0;
    while i < pages.len()
        invariant
            i <= pages@.len(),
            texts(keys@).no_duplicates(),
            forall|k: Seq<char>|
                texts(keys@).contains(k) <==> occurs(
                    referenced_pages(pages@).take(i as int),
                    by,
                    k,
                ),
        decreases pages@.len() - i,
    {
        let ghost before = texts(keys@);
        add_page_keys(&mut keys, pages[i], by);
        proof {
            let seen = referenced_pages(pages@).take(i as int);
            let next = referenced_pages(pages@).take(i + 1);
            assert forall|k: Seq<char>| texts(keys@).contains(k) <==> occurs(next, by, k) by {
                assert(before.contains(k) <==> occurs(seen, by, k));
                assert(texts(keys@).contains(k) <==> before.contains(k) || has_key(
                    pages@[i as int]@,
                    by,
                    k,
                ));
                if occurs(seen, by, k) {
                    let w = choose|w: int| 0 <= w < seen.len() && has_key(#[trigger] seen[w], by, k);
                    assert(has_key(next[w], by, k));
                }
                if has_key(pages@[i as int]@, by, k) {
                    assert(has_key(next[i as int], by, k));
                }
                if occurs(next, by, k) {
                    let w = choose|w: int| 0 <= w < next.len() && has_key(#[trigger] next[w], by, k);
                    if w < i {
                        assert(has_key(seen[w], by, k));
                    }
                }
            }
        }
        i += 1;
    }
    proof {
        assert(referenced_pages(pages@).take(pages@.len() as int) =~= referenced_pages(pages@));
    }
    keys
}

/// The `at`-th key of a sorted list, counted from the end for years.
pub open spec fn ordered_key(sorted: Seq<Seq<char>>, by: Grouping, at: int) -> Seq<char> {
    if by == Grouping::Year {
        sorted[sorted.len() - 1 - at]
    } else {
        sorted[at]
    }
}

/// The index of `pages` by `by`, in the order of that index.
fn index_by<'a>(pages: &Vec<&'a Page>, by: Grouping) -> (groups: Vec<(String, Vec<&'a Page>)>)
    ensures
        group_views(groups@) == index_of(referenced_pages(pages@), by),
        is_index(group_views(groups@), referenced_pages(pages@), by),
        in_order(group_keys(group_views(groups@)), by),
{
    let keys = collect_keys(pages, by);
    let sorted = sorted_names(keys);
    let ghost views = referenced_pages(pages@);
    let ghost names = texts(sorted@);
    proof {
        let found = texts(keys@);
        found.to_multiset_ensures();
        names.to_multiset_ensures();
        found.lemma_multiset_has_no_duplicates();
        names.lemma_multiset_has_no_duplicates_conv();
        assert forall|k: Seq<char>| names.contains(k) <==> occurs(views, by, k) by {
            assert(names.contains(k) <==> names.to_multiset().count(k) > 0);
            assert(found.contains(k) <==> found.to_multiset().count(k) > 0);
        }
    }
    let n = sorted.len();
    let mut groups: Vec<(String, Vec<&'a Page>)> = Vec::new();
    let mut at: usize = 0;
    while at < n
        invariant
            at <= n,
            n == sorted@.len(),
            names == texts(sorted@),
            views == referenced_pages(pages@),
            groups@.len() == at,
            forall|i: int|
                0 <= i < at ==> (#[trigger] group_views(groups@)[i]) == (
                    ordered_key(names, by, i),
                    members(views, by, ordered_key(names, by, i)),
                ),
        decreases n - at,
    {
        let key = if by == Grouping::Year {
            &sorted[n - 1 - at]
        } else {
            &sorted[at]
        };
        let found = members_of(pages, by, key);
        let ghost before = group_views(groups@);
        groups.push((key.clone(), found));
        proof {
            let after = group_views(groups@);
            assert(after[at as int] == (
                ordered_key(names, by, at as int),
                members(views, by, ordered_key(names, by, at as int)),
            ));
            assert forall|i: int| 0 <= i < at implies (#[trigger] after[i]) == (
                ordered_key(names, by, i),
                members(views, by, ordered_key(names, by, i)),
            ) by {
                assert(after[i] == before[i]);
            }
        }
        at += 1;
    }
    proof {
        let built = group_views(groups@);
        let ks = group_keys(built);
        assert forall|i: int| 0 <= i < n implies ks[i] == ordered_key(names, by, i) by {
            assert(ks[i] == built[i].0);
        }
        assert(ks.no_duplicates()) by {
            assert forall|i: int, j: int| 0 <= i < n && 0 <= j < n && i != j implies ks[i]
                != ks[j] by {
                assert(ks[i] == ordered_key(names, by, i));
                assert(ks[j] == ordered_key(names, by, j));
            }
        }
        assert forall|k: Seq<char>| ks.contains(k) <==> occurs(views, by, k) by {
            if ks.contains(k) {
                let i = choose|i: int| 0 <= i < ks.len() && ks[i] == k;
                assert(ks[i] == ordered_key(names, by, i));
                if by == Grouping::Year {
                    assert(names[n - 1 - i] == k);
                } else {
                    assert(names[i] == k);
                }
                assert(names.contains(k));
            }
            if occurs(views, by, k) {
                assert(names.contains(k));
                let i = choose|i: int| 0 <= i < names.len() && names[i] == k;
                if by == Grouping::Year {
                    assert(ks[n - 1 - i] == ordered_key(names, by, n - 1 - i));
                    assert(ks[n - 1 - i] == k);
                } else {
                    assert(ks[i] == ordered_key(names, by, i));
                    assert(ks[i] == k);
                }
            }
        }
        assert forall|i: int| 0 <= i < built.len() implies (#[trigger] built[i]).1 == members(
            views,
            by,
            built[i].0,
        ) by {}
        assert(in_order(ks, by)) by {
            if by == Grouping::Year {
                assert forall|i: int, j: int| 0 <= i < j < ks.len() implies text_le(
                    ks[j],
                    ks[i],
                ) by {
                    assert(ks[i] == ordered_key(names, by, i));
                    assert(ks[j] == ordered_key(names, by, j));
                }
            } else {
                assert forall|i: int, j: int| 0 <= i < j < ks.len() implies text_le(
                    ks[i],
                    ks[j],
                ) by {
                    assert(ks[i] == ordered_key(names, by, i));
                    assert(ks[j] == ordered_key(names, by, j));
                }
            }
        }
        lemma_index_unique(built, views, by);
    }
    groups
}

/// The pages of each category, categories in ascending order.
pub fn pages_by_category<'a>(pages: &Vec<&'a Page>) -> (groups: Vec<(String, Vec<&'a Page>)>)
    ensures
        group_views(groups@) == index_of(referenced_pages(pages@), Grouping::Category),
        is_index(group_views(groups@), referenced_pages(pages@), Grouping::Category),
        ascending(group_keys(group_views(groups@))),
{
    index_by(pages, Grouping::Category)
}

/// The pages of each project, projects in ascending order.
pub fn pages_by_project<'a>(pages: &Vec<&'a Page>) -> (groups: Vec<(String, Vec<&'a Page>)>)
    ensures
        group_views(groups@) == index_of(referenced_pages(pages@), Grouping::Project),
        is_index(group_views(groups@), referenced_pages(pages@), Grouping::Project),
        ascending(group_keys(group_views(groups@))),
{
    index_by(pages, Grouping::Project)
}

/// The dated pages of each year, years in descending order. An undated page
/// is in no group.
pub fn year_index<'a>(pages: &Vec<&'a Page>) -> (groups: Vec<(String, Vec<&'a Page>)>)
    ensures
        group_views(groups@) == index_of(referenced_pages(pages@), Grouping::Year),
        is_index(group_views(groups@), referenced_pages(pages@), Grouping::Year),
        descending(group_keys(group_views(groups@))),
        all_dated(group_views(groups@)),
{
    let groups = index_by(pages, Grouping::Year);
    proof {
        let built = group_views(groups@);
        let views = referenced_pages(pages@);
        assert forall|i: int, j: int|
            0 <= i < built.len() && 0 <= j < built[i].1.len() implies (#[trigger] built[i].1[j]).config.date
            is Some by {
            lemma_members_have_key(views, Grouping::Year, built[i].0);
            assert(has_key(members(views, Grouping::Year, built[i].0)[j], Grouping::Year, built[i].0));
        }
    }
    groups
}

/// As [`year_index`], of pages handed over.
pub fn to_map_by_date<'a>(pages: Vec<&'a Page>) -> (groups: Vec<(String, Vec<&'a Page>)>)
    ensures
        group_views(groups@) == index_of(referenced_pages(pages@), Grouping::Year),
        is_index(group_views(groups@), referenced_pages(pages@), Grouping::Year),
        descending(group_keys(group_views(groups@))),
        all_dated(group_views(groups@)),
{
    year_index(&pages)
}

/// The pages of a list, by reference and in the same order.
pub fn page_refs<'a>(pages: &'a Vec<Page>) -> (refs: Vec<&'a Page>)
    ensures
        referenced_pages(refs@) == page_views(pages@),
{
    let mut refs: Vec<&'a Page> = Vec::new();
    let mut i: usize = 0;
    while i < pages.len()
        invariant
            i <= pages@.len(),
            refs@.len() == i,
            forall|k: int| 0 <= k < i ==> (#[trigger] refs@[k])@ == pages@[k]@,
        decreases pages@.len() - i,
    {
        refs.push(&pages[i]);
        i += 1;
    }
    assert(referenced_pages(refs@) =~= page_views(pages@));
    refs
}

/// The pages of one kind, in the order of `pages`.
pub open spec fn of_type(pages: Seq<PageView>, kind: PageType) -> Seq<PageView>
    decreases pages.len(),
{
    if pages.len() == 0 {
        Seq::empty()
    } else if page_type_of(pages.last()) == kind {
        of_type(pages.drop_last(), kind).push(pages.last())
    } else {
        of_type(pages.drop_last(), kind)
    }
}

/// The pages of a site by kind.
pub struct PagesByType<'a> {
    pub posts: Vec<&'a Page>,
    pub pages: Vec<&'a Page>,
}

/// Sorts pages into posts and plain pages, each kind in the order of `pages`.
pub fn pages_by_type<'a>(pages: &Vec<&'a Page>) -> (sorted: PagesByType<'a>)
    ensures
        referenced_pages(sorted.posts@) == of_type(referenced_pages(pages@), PageType::POST),
        referenced_pages(sorted.pages@) == of_type(referenced_pages(pages@), PageType::PAGE),
{
    let mut posts: Vec<&'a Page> = Vec::new();
    let mut plain: Vec<&'a Page> = Vec::new();
    let mut i: usize = 0;
    while i < pages.len()
        invariant
            i <= pages@.len(),
            referenced_pages(posts@) == of_type(
                referenced_pages(pages@).take(i as int),
                PageType::POST,
            ),
            referenced_pages(plain@) == of_type(
                referenced_pages(pages@).take(i as int),
                PageType::PAGE,
            ),
        decreases pages@.len() - i,
    {
        proof {
            let done = referenced_pages(pages@).take(i + 1);
            assert(done.drop_last() =~= referenced_pages(pages@).take(i as int));
            assert(done.last() == pages@[i as int]@);
        }
        match page_type(pages[i]) {
            PageType::POST => {
                let ghost before = referenced_pages(posts@);
                posts.push(pages[i]);
                assert(referenced_pages(posts@) =~= before.push(pages@[i as int]@));
            },
            PageType::PAGE => {
                let ghost before = referenced_pages(plain@);
                plain.push(pages[i]);
                assert(referenced_pages(plain@) =~= before.push(pages@[i as int]@));
            },
        }
        i += 1;
    }
    proof {
        assert(referenced_pages(pages@).take(pages@.len() as int) =~= referenced_pages(pages@));
    }
    PagesByType { posts, pages: plain }
}

} // verus!
