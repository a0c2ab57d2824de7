//! The link prefix of the items of a channel.

use crate::feed::{escape, escaped};
use crate::text::{decimal, push_decimal};
use url::Url;
use vstd::prelude::*;

verus! {

/// The text of `address` after `Url::set_path` was called on it with
/// `path`: nothing where the address does not parse as a URL.
pub uninterp spec fn path_set_of(address: Seq<char>, path: Seq<char>) -> Option<Seq<char>>;

/// The text of `address` after `Url::set_fragment` was called on it with
/// `fragment`: nothing where the address does not parse as a URL.
pub uninterp spec fn fragment_set_of(address: Seq<char>, fragment: Option<Seq<char>>) -> Option<
    Seq<char>,
>;

/// The text of `address` after `Url::set_query` was called on it with
/// `query`: nothing where the address does not parse as a URL.
pub uninterp spec fn query_set_of(address: Seq<char>, query: Option<Seq<char>>) -> Option<
    Seq<char>,
>;

/// The path of the root.
pub open spec fn root_path() -> Seq<char> {
    "/"@
}

/// The address without its fragment and without its query, in that order of
/// removal, or nothing where one of the steps finds no URL.
pub open spec fn stripped_of(address: Seq<char>) -> Option<Seq<char>> {
    match fragment_set_of(address, None) {
        Some(bare) => query_set_of(bare, None),
        None => None,
    }
}

/// The root of `address`: the address with its path set to `/`, then
/// without fragment and query; nothing where it is no URL. For an address
/// with an authority that is its scheme and authority, then `/`. For one
/// without (`mailto:`, `data:`), the `url` crate writes the slash of the new
/// path as `%2F` after the scheme.
pub open spec fn root_of(address: Seq<char>) -> Option<Seq<char>> {
    match path_set_of(address, root_path()) {
        Some(moved) => stripped_of(moved),
        None => None,
    }
}

/// The prefix that a channel with the canonical address `canonical` puts
/// before the key of each item: the escaped root of the address, or nothing
/// where there is no address or it is no URL.
pub open spec fn prefix_of(canonical: Option<Seq<char>>) -> Seq<char> {
    match canonical {
        Some(address) => escaped_or_empty(root_of(address)),
        None => Seq::empty(),
    }
}

/// The escaped form of `root`, or the empty text where there is none.
pub open spec fn escaped_or_empty(root: Option<Seq<char>>) -> Seq<char> {
    match root {
        Some(text) => escaped(text),
        None => Seq::empty(),
    }
}

/// Calls `Url::set_path` with `path` on what `Url::parse` makes of
/// `address`, and hands on the text of the result (`Url::as_str`). The text
/// depends on the two arguments alone and is named by [`path_set_of`]; it is
/// `None` exactly when the address does not parse.
#[verifier::external_body]
pub(crate) fn set_path(address: &str, path: &str) -> (r: Option<String>)
    ensures
        r.deep_view() == path_set_of(address@, path@),
{
    let mut url = Url::parse(address).ok()?;
    url.set_path(path);
    Some(String::from(url.as_str()))
}

/// Calls `Url::set_fragment` with `fragment` on what `Url::parse` makes of
/// `address`, and hands on the text of the result (`Url::as_str`). The text
/// depends on the two arguments alone and is named by [`fragment_set_of`];
/// it is `None` exactly when the address does not parse.
#[verifier::external_body]
pub(crate) fn set_fragment(address: &str, fragment: Option<&str>) -> (r: Option<String>)
    ensures
        r.deep_view() == fragment_set_of(address@, fragment.deep_view()),
{
    let mut url = Url::parse(address).ok()?;
    url.set_fragment(fragment);
    Some(String::from(url.as_str()))
}

/// Calls `Url::set_query` with `query` on what `Url::parse` makes of
/// `address`, and hands on the text of the result (`Url::as_str`). The text
/// depends on the two arguments alone and is named by [`query_set_of`]; it
/// is `None` exactly when the address does not parse.
#[verifier::external_body]
pub(crate) fn set_query(address: &str, query: Option<&str>) -> (r: Option<String>)
    ensures
        r.deep_view() == query_set_of(address@, query.deep_view()),
{
    let mut url = Url::parse(address).ok()?;
    url.set_query(query);
    Some(String::from(url.as_str()))
}

/// The root of `address`: its path set to `/`, its fragment removed, then
/// its query.
pub fn root(address: &str) -> (r: Option<String>)
    ensures
        r.deep_view() == root_of(address@),
{
    let moved = match set_path(address, "/") {
        Some(moved) => moved,
        None => {
            return None;
        },
    };
    let bare = match set_fragment(moved.as_str(), None) {
        Some(bare) => bare,
        None => {
            return None;
        },
    };
    set_query(bare.as_str(), None)
}

/// Link prefix for the items of a channel, already escaped.
pub struct Link(String);

impl View for Link {
    type V = Seq<char>;

    closed spec fn view(&self) -> Seq<char> {
        self.0@
    }
}

impl Link {
    /// The prefix for a channel whose canonical address is `canonical`.
    pub fn from_url(canonical: Option<&str>) -> (link: Link)
        ensures
            link@ == prefix_of(canonical.deep_view()),
    {
        match canonical {
            Some(address) => {
                let found = root(address);
                match found {
                    Some(text) => Link::from_root(Some(text.as_str())),
                    None => Link::from_root(None),
                }
            },
            None => Link::from_root(None),
        }
    }

    /// The prefix made of an address root that was computed before: its
    /// escaped form, or the empty prefix where there is none.
    pub fn from_root(root: Option<&str>) -> (link: Link)
        ensures
            link@ == escaped_or_empty(root.deep_view()),
    {
        match root {
            Some(text) => Link(escape(text)),
            None => Link(String::new()),
        }
    }

    /// The link of the item with key `id`: the prefix, then the key in
    /// decimal.
    pub fn link(&self, id: i64) -> (r: String)
        ensures
            r@ == self@ + decimal(id as int),
    {
        let mut out = self.0.clone();
        push_decimal(&mut out, id);
        out
    }
}

} // verus!
