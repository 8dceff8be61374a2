//! Stored items: named attributes.

use vstd::prelude::*;
use vstd::string::*;

use crate::strmap::StrMap;
use crate::text::owned;

verus! {

/// The value of an attribute. Kinds of value that nothing here reads or writes
/// are all `Other`.
#[derive(Debug)]
pub enum Attr {
    S(String),
    N(String),
    Other,
}

/// The content of an attribute.
pub enum AttrView {
    S(Seq<char>),
    N(Seq<char>),
    Other,
}

impl View for Attr {
    type V = AttrView;

    open spec fn view(&self) -> AttrView {
        match self {
            Attr::S(s) => AttrView::S(s@),
            Attr::N(n) => AttrView::N(n@),
            Attr::Other => AttrView::Other,
        }
    }
}

/// The attributes of an item by name.
pub type Item = StrMap<Attr>;

/// The content of an item.
pub type ItemView = Map<Seq<char>, AttrView>;

/// The values of a map taken by their views.
pub open spec fn viewed<V: View>(m: StrMap<V>) -> Map<Seq<char>, V::V> {
    m@.map_values(|v: V| v@)
}

/// A text attribute.
pub open spec fn text_attr(item: ItemView, key: Seq<char>) -> Option<Seq<char>> {
    if item.dom().contains(key) {
        match item[key] {
            AttrView::S(s) => Some(s),
            _ => None,
        }
    } else {
        None
    }
}

/// A number attribute, as it is written.
pub open spec fn number_attr(item: ItemView, key: Seq<char>) -> Option<Seq<char>> {
    if item.dom().contains(key) {
        match item[key] {
            AttrView::N(n) => Some(n),
            _ => None,
        }
    } else {
        None
    }
}

/// The item with the text attribute set, where there is a text.
pub open spec fn set_text(item: ItemView, key: Seq<char>, value: Option<Seq<char>>) -> ItemView {
    match value {
        Some(s) => item.insert(key, AttrView::S(s)),
        None => item,
    }
}

/// A text attribute.
pub fn get_s(item: &Item, key: &str) -> (r: Option<String>)
    requires
        item.wf(),
    ensures
        r.deep_view() == text_attr(viewed(*item), key@),
{
    match item.get(key) {
        Some(Attr::S(s)) => Some(s.clone()),
        _ => None,
    }
}

/// A number attribute, as it is written.
pub fn get_n(item: &Item, key: &str) -> (r: Option<String>)
    requires
        item.wf(),
    ensures
        r.deep_view() == number_attr(viewed(*item), key@),
{
    match item.get(key) {
        Some(Attr::N(s)) => Some(s.clone()),
        _ => None,
    }
}

/// Inserting shows in the views.
pub proof fn viewed_insert<V: View>(m: StrMap<V>, n: StrMap<V>, key: Seq<char>, value: V)
    requires
        n@ == m@.insert(key, value),
    ensures
        viewed(n) == viewed(m).insert(key, value@),
{
    assert(viewed(n) =~= viewed(m).insert(key, value@));
}

/// Removing shows in the views.
pub proof fn viewed_remove<V: View>(m: StrMap<V>, n: StrMap<V>, key: Seq<char>)
    requires
        n@ == m@.remove(key),
    ensures
        viewed(n) == viewed(m).remove(key),
{
    assert(viewed(n) =~= viewed(m).remove(key));
}

/// An item without attributes.
pub fn new_item() -> (r: Item)
    ensures
        r.wf(),
        viewed(r) == ItemView::empty(),
{
    let r: Item = StrMap::new();
    assert(viewed(r) =~= ItemView::empty());
    r
}

/// Sets a text attribute.
pub fn put_s(item: &mut Item, key: &str, value: &str)
    requires
        old(item).wf(),
    ensures
        final(item).wf(),
        viewed(*final(item)) == viewed(*old(item)).insert(key@, AttrView::S(value@)),
{
    let ghost before = *item;
    let a = Attr::S(owned(value));
    let ghost v = a;
    item.insert(key, a);
    proof {
        viewed_insert(before, *item, key@, v);
    }
}

/// Sets a number attribute.
pub fn put_n(item: &mut Item, key: &str, value: &str)
    requires
        old(item).wf(),
    ensures
        final(item).wf(),
        viewed(*final(item)) == viewed(*old(item)).insert(key@, AttrView::N(value@)),
{
    let ghost before = *item;
    let a = Attr::N(owned(value));
    let ghost v = a;
    item.insert(key, a);
    proof {
        viewed_insert(before, *item, key@, v);
    }
}

/// Sets a text attribute where there is a text.
pub fn put_opt(item: &mut Item, key: &str, value: Option<&str>)
    requires
        old(item).wf(),
    ensures
        final(item).wf(),
        viewed(*final(item)) == set_text(viewed(*old(item)), key@, value.deep_view()),
{
    match value {
        Some(s) => put_s(item, key, s),
        None => {},
    }
}

} // verus!
