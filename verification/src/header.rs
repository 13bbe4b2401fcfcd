//! From the header block of a content file to the page's descriptor.
//!
//! The block is YAML between two fence lines. Its keys are read into a
//! [`RawHeader`], which holds the text of each value: a string as it is, a
//! number or a boolean as text, a key without a value as an absent key. One
//! validation step turns that into a [`PageConfig`], with the default of each
//! key that is absent.

use vstd::prelude::*;
use vstd::string::*;
use serde_yaml::Value;
use crate::date::{parsed_timestamp, Timestamp};
use crate::error::BuildError;
use crate::page::{PageConfig, PageConfigView};
use crate::text::{
    contains_name, remove_prefix, remove_suffix, texts, without_prefix, without_suffix,
};
use crate::yaml::{
    entry, flag, is_null, items, number_text, parse_yaml, text, yaml_document, yaml_entry,
    yaml_flag, yaml_is_null, yaml_items, yaml_number_text, yaml_text,
};

verus! {

pub open spec fn opt_text(s: Option<String>) -> Option<Seq<char>> {
    match s {
        Some(s) => Some(s@),
        None => None,
    }
}

pub open spec fn opt_texts(list: Option<Vec<String>>) -> Option<Seq<Seq<char>>> {
    match list {
        Some(list) => Some(texts(list@)),
        None => None,
    }
}

/// The values of the keys of a header, each as the document holds it;
/// `None` for a key that the header does not have or leaves without a value.
#[derive(Clone, Debug, PartialEq, Eq)]
pub struct RawHeader {
    pub title: Option<String>,
    pub path: Option<String>,
    pub date: Option<String>,
    pub categories: Option<Vec<String>>,
    pub projects: Option<Vec<String>>,
}

pub struct RawHeaderView {
    pub title: Option<Seq<char>>,
    pub path: Option<Seq<char>>,
    pub date: Option<Seq<char>>,
    pub categories: Option<Seq<Seq<char>>>,
    pub projects: Option<Seq<Seq<char>>>,
}

impl View for RawHeader {
    type V = RawHeaderView;

    open spec fn view(&self) -> RawHeaderView {
        RawHeaderView {
            title: opt_text(self.title),
            path: opt_text(self.path),
            date: opt_text(self.date),
            categories: opt_texts(self.categories),
            projects: opt_texts(self.projects),
        }
    }
}

/// The text of a scalar: a string as it is, a number as serde_yaml writes it,
/// a boolean as `true` or `false`. No other value has a text.
pub open spec fn scalar_text(value: Value) -> Option<Seq<char>> {
    if yaml_text(value) is Some {
        yaml_text(value)
    } else if yaml_number_text(value) is Some {
        yaml_number_text(value)
    } else {
        match yaml_flag(value) {
            Some(true) => Some("true"@),
            Some(false) => Some("false"@),
            None => None,
        }
    }
}

/// The text under `key`: absent where the document has no such key or
/// holds null under it, refused where the value is no scalar.
pub open spec fn text_entry(document: Value, key: Seq<char>) -> Result<
    Option<Seq<char>>,
    BuildError,
> {
    match yaml_entry(document, key) {
        None => Ok(None),
        Some(value) => if yaml_is_null(value) {
            Ok(None)
        } else {
            match scalar_text(value) {
                Some(t) => Ok(Some(t)),
                None => Err(BuildError::MalformedHeader),
            }
        },
    }
}

/// Every item is a scalar with a text.
pub open spec fn all_texts(items: Seq<Value>) -> bool {
    forall|i: int| 0 <= i < items.len() ==> scalar_text(#[trigger] items[i]) is Some
}

/// The texts of items that all have one.
pub open spec fn item_texts(items: Seq<Value>) -> Seq<Seq<char>> {
    items.map_values(|item: Value| scalar_text(item)->0)
}

/// The list of texts under `key`: absent where the document has no such
/// key or holds null under it, refused where the value is no sequence of
/// scalars.
pub open spec fn list_entry(document: Value, key: Seq<char>) -> Result<
    Option<Seq<Seq<char>>>,
    BuildError,
> {
    match yaml_entry(document, key) {
        None => Ok(None),
        Some(value) => if yaml_is_null(value) {
            Ok(None)
        } else {
            match yaml_items(value) {
                Some(items) => if all_texts(items) {
                    Ok(Some(item_texts(items)))
                } else {
                    Err(BuildError::MalformedHeader)
                },
                None => Err(BuildError::MalformedHeader),
            }
        },
    }
}

/// The keys of a header as a parsed document holds them. A key that holds
/// null counts as absent. A value of the wrong kind under any of the five
/// keys refuses the whole header.
pub open spec fn raw_header(document: Value) -> Result<RawHeaderView, BuildError> {
    let title = text_entry(document, "title"@);
    let path = text_entry(document, "path"@);
    let date = text_entry(document, "date"@);
    let categories = list_entry(document, "categories"@);
    let projects = list_entry(document, "projects"@);
    if title is Ok && path is Ok && date is Ok && categories is Ok && projects is Ok {
        Ok(
            RawHeaderView {
                title: title->Ok_0,
                path: path->Ok_0,
                date: date->Ok_0,
                categories: categories->Ok_0,
                projects: projects->Ok_0,
            },
        )
    } else {
        Err(BuildError::MalformedHeader)
    }
}

/// The names of a list with every repetition of an earlier name left out.
pub open spec fn distinct(names: Seq<Seq<char>>) -> Seq<Seq<char>>
    decreases names.len(),
{
    if names.len() == 0 {
        Seq::empty()
    } else {
        let kept = distinct(names.drop_last());
        if kept.contains(names.last()) {
            kept
        } else {
            kept.push(names.last())
        }
    }
}

pub open spec fn or_empty<A>(list: Option<Seq<A>>) -> Seq<A> {
    match list {
        Some(list) => list,
        None => Seq::empty(),
    }
}

/// The descriptor that a header stands for.
///
/// A header without a title is refused, and so is one whose date is not a
/// timestamp. An absent `path` is the empty text, an absent `date` is no
/// date, and absent `categories` or `projects` are empty.
pub open spec fn decoded(raw: RawHeaderView) -> Result<PageConfigView, BuildError> {
    if raw.title is None {
        Err(BuildError::MissingTitle)
    } else if raw.date is Some && parsed_timestamp(raw.date->0) is None {
        Err(BuildError::MalformedDate)
    } else {
        Ok(
            PageConfigView {
                title: raw.title->0,
                path: or_empty(raw.path),
                date: match raw.date {
                    Some(d) => parsed_timestamp(d),
                    None => None,
                },
                categories: distinct(or_empty(raw.categories)),
                projects: distinct(or_empty(raw.projects)),
            },
        )
    }
}

/// The descriptor that a parsed header document stands for.
pub open spec fn decoded_document(document: Value) -> Result<PageConfigView, BuildError> {
    match raw_header(document) {
        Ok(raw) => decoded(raw),
        Err(e) => Err(e),
    }
}

/// The descriptor that a header block stands for: the block without its
/// closing and its opening fence line, read as YAML and decoded.
pub open spec fn front_matter_config(block: Seq<char>) -> Result<PageConfigView, BuildError> {
    match yaml_document(without_prefix(without_suffix(block, "---\n"@), "---\n"@)) {
        Some(document) => decoded_document(document),
        None => Err(BuildError::MalformedHeader),
    }
}

/// `distinct` names nothing twice.
pub proof fn lemma_distinct_no_duplicates(names: Seq<Seq<char>>)
    ensures
        distinct(names).no_duplicates(),
        forall|name: Seq<char>| distinct(names).contains(name) <==> names.contains(name),
    decreases names.len(),
{
    if names.len() > 0 {
        let rest = names.drop_last();
        lemma_distinct_no_duplicates(rest);
        let kept = distinct(rest);
        assert forall|name: Seq<char>| distinct(names).contains(name) <==> names.contains(
            name,
        ) by {
            if names.contains(name) {
                let i = choose|i: int| 0 <= i < names.len() && names[i] == name;
                if i < names.len() - 1 {
                    assert(rest[i] == name);
                    assert(rest.contains(name));
                    assert(kept.contains(name));
                    let k = choose|k: int| 0 <= k < kept.len() && kept[k] == name;
                    assert(distinct(names)[k] == name);
                } else {
                    if kept.contains(name) {
                    } else {
                        assert(distinct(names)[kept.len() as int] == name);
                    }
                }
            }
            if distinct(names).contains(name) {
                let k = choose|k: int| 0 <= k < distinct(names).len() && distinct(names)[k] == name;
                if k < kept.len() {
                    assert(kept[k] == name);
                    assert(kept.contains(name));
                    assert(rest.contains(name));
                    let i = choose|i: int| 0 <= i < rest.len() && rest[i] == name;
                    assert(names[i] == name);
                } else {
                    assert(names[names.len() - 1] == name);
                }
            }
        }
    }
}

/// The text of a scalar value.
fn read_scalar(value: &Value) -> (found: Option<String>)
    ensures
        opt_text(found) == scalar_text(*value),
{
    match text(value) {
        Some(t) => Some(t.to_owned()),
        None => match number_text(value) {
            Some(t) => Some(t),
            None => match flag(value) {
                Some(true) => Some("true".to_owned()),
                Some(false) => Some("false".to_owned()),
                None => None,
            },
        },
    }
}

fn read_text(document: &Value, key: &str) -> (found: Result<Option<String>, BuildError>)
    ensures
        found matches Ok(t) ==> text_entry(*document, key@) == Ok::<_, BuildError>(opt_text(t)),
        found matches Err(e) ==> text_entry(*document, key@) == Err::<Option<Seq<char>>, _>(e),
{
    match entry(document, key) {
        None => Ok(None),
        Some(value) => if is_null(value) {
            Ok(None)
        } else {
            match read_scalar(value) {
                Some(t) => Ok(Some(t)),
                None => Err(BuildError::MalformedHeader),
            }
        },
    }
}

fn read_list(document: &Value, key: &str) -> (found: Result<Option<Vec<String>>, BuildError>)
    ensures
        found matches Ok(l) ==> list_entry(*document, key@) == Ok::<_, BuildError>(opt_texts(l)),
        found matches Err(e) ==> list_entry(*document, key@) == Err::<Option<Seq<Seq<char>>>, _>(
            e,
        ),
{
    match entry(document, key) {
        None => Ok(None),
        Some(value) => if is_null(value) {
            Ok(None)
        } else {
            match items(value) {
                None => Err(BuildError::MalformedHeader),
                Some(list) => {
                    let mut names: Vec<String> = Vec::new();
                    let mut i: usize = 0;
                    while i < list.len()
                        invariant
                            yaml_entry(*document, key@) == Some(*value),
                            !yaml_is_null(*value),
                            yaml_items(*value) == Some(list@),
                            i <= list@.len(),
                            names@.len() == i,
                            forall|k: int|
                                0 <= k < i ==> scalar_text(#[trigger] list@[k]) == Some(
                                    names@[k]@,
                                ),
                        decreases list@.len() - i,
                    {
                        match read_scalar(&list[i]) {
                            Some(t) => names.push(t),
                            None => {
                                assert(scalar_text(list@[i as int]) is None);
                                return Err(BuildError::MalformedHeader);
                            },
                        }
                        i += 1;
                    }
                    assert(texts(names@) =~= item_texts(list@));
                    Ok(Some(names))
                },
            }
        },
    }
}

/// Reads the five keys of a header from its parsed document.
pub fn read_header(document: &Value) -> (header: Result<RawHeader, BuildError>)
    ensures
        header matches Ok(raw) ==> raw_header(*document) == Ok::<_, BuildError>(raw@),
        header matches Err(e) ==> raw_header(*document) == Err::<RawHeaderView, _>(e),
{
    let title = read_text(document, "title");
    let path = read_text(document, "path");
    let date = read_text(document, "date");
    let categories = read_list(document, "categories");
    let projects = read_list(document, "projects");
    match (title, path, date, categories, projects) {
        (Ok(title), Ok(path), Ok(date), Ok(categories), Ok(projects)) => Ok(
            RawHeader { title, path, date, categories, projects },
        ),
        _ => Err(BuildError::MalformedHeader),
    }
}

fn distinct_names(names: Vec<String>) -> (kept: Vec<String>)
    ensures
        texts(kept@) == distinct(texts(names@)),
{
    let mut kept: Vec<String> = Vec::new();
    let mut i: usize = 0;
    while i < names.len()
        invariant
            i <= names@.len(),
            texts(kept@) == distinct(texts(names@).take(i as int)),
        decreases names@.len() - i,
    {
        proof {
            let done = texts(names@).take(i + 1);
            assert(done.drop_last() =~= texts(names@).take(i as int));
            assert(done.last() == names@[i as int]@);
        }
        if !contains_name(&kept, &names[i]) {
            let ghost before = texts(kept@);
            kept.push(names[i].clone());
            assert(texts(kept@) =~= before.push(names@[i as int]@));
        }
        i += 1;
    }
    proof {
        assert(texts(names@).take(names@.len() as int) =~= texts(names@));
    }
    kept
}

/// The descriptor that a header stands for, or the reason for which it
/// stands for none.
pub fn decode(raw: RawHeader) -> (config: Result<PageConfig, BuildError>)
    ensures
        config matches Ok(c) ==> decoded(raw@) == Ok::<_, BuildError>(c@) && c@.wf(),
        config matches Err(e) ==> decoded(raw@) == Err::<PageConfigView, _>(e),
{
    let title = match raw.title {
        Some(title) => title,
        None => {
            return Err(BuildError::MissingTitle);
        },
    };
    let date = match raw.date {
        Some(written) => match Timestamp::parse(written.as_str()) {
            Some(t) => Some(t),
            None => {
                return Err(BuildError::MalformedDate);
            },
        },
        None => None,
    };
    let path = match raw.path {
        Some(path) => path,
        None => String::new(),
    };
    let categories = match raw.categories {
        Some(list) => distinct_names(list),
        None => Vec::new(),
    };
    let projects = match raw.projects {
        Some(list) => distinct_names(list),
        None => Vec::new(),
    };
    proof {
        lemma_distinct_no_duplicates(or_empty(raw@.categories));
        lemma_distinct_no_duplicates(or_empty(raw@.projects));
        assert(texts(categories@) =~= distinct(or_empty(raw@.categories)));
        assert(texts(projects@) =~= distinct(or_empty(raw@.projects)));
    }
    Ok(PageConfig { title, path, date, categories, projects })
}

/// Decodes a header block as it stands in a content file, fence lines
/// included.
///
/// The closing fence line and then the opening one are cut off where they are
/// there, the rest is read as one YAML document, and the document is decoded
/// as [`decoded`] says.
pub fn get_parsed_yaml_front_matter(block: &str) -> (config: Result<PageConfig, BuildError>)
    ensures
        config matches Ok(c) ==> front_matter_config(block@) == Ok::<_, BuildError>(c@) && c@.wf(),
        config matches Err(e) ==> front_matter_config(block@) == Err::<PageConfigView, _>(e),
{
    let rest = remove_prefix(remove_suffix(block, "---\n"), "---\n");
    match parse_yaml(rest) {
        Some(document) => match read_header(&document) {
            Ok(raw) => decode(raw),
            Err(e) => Err(e),
        },
        None => Err(BuildError::MalformedHeader),
    }
}

} // verus!
