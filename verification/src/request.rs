//! The location of a request, as the client side reads it.
use vstd::prelude::*;
use crate::strmap::{StrMap, insert_entry};
use crate::env::{insert_all, pair_views};
use crate::text::{owned, contains_seq, contains_str};

verus! {

broadcast use vstd::string::group_string_axioms;

/// A name for what `serde_urlencoded::from_str` reads from a query string
/// as a list of key and value pairs, in the order they appear.
pub uninterp spec fn urlencoded_pairs(query: Seq<char>) -> Option<Seq<(Seq<char>, Seq<char>)>>;

/// `serde_urlencoded::from_str::<Vec<(String, String)>>`: the key and value
/// pairs of a query string, decoded, in order; `None` when it cannot be
/// read. The result is named by `urlencoded_pairs`.
#[verifier::external_body]
fn parse_query(query: &str) -> (res: Option<Vec<(String, String)>>)
    ensures
        match res {
            Some(v) => urlencoded_pairs(query@) == Some(pair_views(v@)),
            None => urlencoded_pairs(query@) is None,
        },
{
    serde_urlencoded::from_str::<Vec<(String, String)>>(query).ok()
}

/// The location of a request, as the client side reads it.
#[derive(Debug)]
pub struct Location {
    href: String,
    pathname: String,
    search_str: String,
    search: StrMap<String>,
}

/// A location as plain values.
pub struct LocationSpec {
    pub href: Seq<char>,
    pub pathname: Seq<char>,
    pub search_str: Seq<char>,
    pub search: Seq<(Seq<char>, Seq<char>)>,
}

impl View for Location {
    type V = LocationSpec;

    closed spec fn view(&self) -> LocationSpec {
        LocationSpec {
            href: self.href@,
            pathname: self.pathname@,
            search_str: self.search_str@,
            search: self.search.entries(),
        }
    }
}

/// The search parameters of a query that was read as `pairs`: each key with
/// its last value; none when the query could not be read.
pub open spec fn search_of(pairs: Option<Seq<(Seq<char>, Seq<char>)>>) -> Seq<(Seq<char>, Seq<char>)> {
    match pairs {
        Some(p) => insert_all(p),
        None => Seq::empty(),
    }
}

/// The map of the pairs, each key with its last value.
fn map_of_pairs(pairs: &Vec<(String, String)>) -> (res: StrMap<String>)
    ensures
        res.entries() == insert_all(pair_views(pairs@)),
{
    let mut res: StrMap<String> = StrMap::new();
    let ghost pv = pair_views(pairs@);
    assert(pv.take(0) =~= Seq::<(Seq<char>, Seq<char>)>::empty());
    for i in 0..pairs.len()
        invariant
            pv == pair_views(pairs@),
            res.entries() == insert_all(pv.take(i as int)),
    {
        let k = pairs[i].0.clone();
        let v = pairs[i].1.clone();
        assert(pv[i as int] == (k@, v@));
        assert(pv.take(i + 1).drop_last() =~= pv.take(i as int));
        assert(pv.take(i + 1).last() == pv[i as int]);
        res.insert(k, v);
    }
    assert(pv.take(pv.len() as int) =~= pv);
    res
}

impl Location {
    /// The path of the location.
    pub fn pathname(&self) -> (res: &String)
        ensures
            res@ == self@.pathname,
    {
        &self.pathname
    }

    /// The URI as written.
    pub fn href(&self) -> (res: &String)
        ensures
            res@ == self@.href,
    {
        &self.href
    }

    /// The query string, empty when there is none.
    pub fn search_str(&self) -> (res: &String)
        ensures
            res@ == self@.search_str,
    {
        &self.search_str
    }

    /// The search parameters.
    pub fn search(&self) -> (res: &StrMap<String>)
        ensures
            res.entries() == self@.search,
    {
        &self.search
    }

    /// The location of a URI written `href`, with path `pathname` and query
    /// `query`, whose key and value pairs were read as `pairs`.
    pub fn from_read_parts(
        href: String,
        pathname: String,
        query: Option<String>,
        pairs: Option<Vec<(String, String)>>,
    ) -> (res: Location)
        ensures
            res@.href == href@,
            res@.pathname == pathname@,
            res@.search_str == match query {
                Some(q) => q@,
                None => Seq::empty(),
            },
            res@.search == search_of(match pairs {
                Some(p) => Some(pair_views(p@)),
                None => None,
            }),
    {
        let search = match &pairs {
            Some(p) => map_of_pairs(p),
            None => StrMap::new(),
        };
        let search_str = match query {
            Some(q) => q,
            None => String::new(),
        };
        Location { href, pathname, search_str, search }
    }

    /// The location of a URI written `href`, with path `pathname` and query
    /// `query`: its search parameters are the query's pairs, decoded, each
    /// key with its last value, or none when the query cannot be read.
    pub fn from_parts(href: String, pathname: String, query: Option<String>) -> (res: Location)
        ensures
            res@.href == href@,
            res@.pathname == pathname@,
            res@.search_str == match query {
                Some(q) => q@,
                None => Seq::empty(),
            },
            res@.search == search_of(urlencoded_pairs(res@.search_str)),
    {
        let text = match &query {
            Some(q) => q.clone(),
            None => String::new(),
        };
        let pairs = parse_query(text.as_str());
        Location::from_read_parts(href, pathname, query, pairs)
    }

}

/// Why a request's body is not read as a form.
#[derive(Debug, Clone, Copy, PartialEq, Eq, Structural)]
pub enum FormRejection {
    /// The content type is not `application/x-www-form-urlencoded`.
    ContentType,
    /// The request has no body.
    MissingBody,
}

/// The content type of a URL-encoded form.
pub const FORM_CONTENT_TYPE: &'static str = "application/x-www-form-urlencoded";

/// Whether a request, by its content type (empty when it has none or it is
/// not text) and whether it has a body, can be read as a form: a content
/// type that does not mention URL-encoded forms is refused first, then a
/// missing body.
pub fn check_form_request(content_type: &str, has_body: bool) -> (res: Result<(), FormRejection>)
    ensures
        !contains_seq(content_type@, FORM_CONTENT_TYPE@) ==> res == Err::<(), FormRejection>(FormRejection::ContentType),
        contains_seq(content_type@, FORM_CONTENT_TYPE@) && !has_body ==> res == Err::<(), FormRejection>(FormRejection::MissingBody),
        contains_seq(content_type@, FORM_CONTENT_TYPE@) && has_body ==> res == Ok::<(), FormRejection>(()),
{
    if !contains_str(content_type, FORM_CONTENT_TYPE) {
        return Err(FormRejection::ContentType);
    }
    if !has_body {
        return Err(FormRejection::MissingBody);
    }
    Ok(())
}

} // verus!
