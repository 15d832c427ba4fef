//! The shortener service: validate, draw an alias, file the mapping; and
//! look an alias up again.

use crate::alias::{generate_alias, is_alias};
use crate::store::{get_spec, put_spec, Lookup, PutOutcome, Store};
use crate::validate::{has_scheme, is_absolute_url, is_valid_url};
use vstd::prelude::*;
use vstd::string::StringExecFns;

verus! {

/// Why a request was turned down.
#[derive(Clone, Copy, Debug, PartialEq, Eq, Structural)]
pub enum Error {
    /// The text to shorten is not a well-formed absolute URL.
    InvalidInput,
    /// The alias that was drawn is taken already.
    AliasCollision,
    /// No mapping has the alias.
    NotFound,
    /// The backing storage failed.
    StorageError,
}

/// The one entity: a short code and the URL it stands for.
#[derive(Clone, Debug)]
pub struct Mapping {
    pub short_code: String,
    pub original_url: String,
}

/// What a successful shortening hands back.
#[derive(Clone, Debug)]
pub struct ShortLink {
    /// The alias under which the URL was filed.
    pub alias: String,
    /// The base URL, a slash, and the alias.
    pub short_url: String,
}

/// The text of a short link.
pub open spec fn link_text(base_url: Seq<char>, alias: Seq<char>) -> Seq<char> {
    base_url + seq!['/'] + alias
}

/// The view of a shortening's result: alias and short link, or the error.
pub open spec fn link_view(r: Result<ShortLink, Error>) -> Result<(Seq<char>, Seq<char>), Error> {
    match r {
        Ok(link) => Ok((link.alias@, link.short_url@)),
        Err(e) => Err(e),
    }
}

/// The view of a resolution's result.
pub open spec fn url_view(r: Result<String, Error>) -> Result<Seq<char>, Error> {
    match r {
        Ok(url) => Ok(url@),
        Err(e) => Err(e),
    }
}

/// What the caller of a shortening is told once the store has answered.
pub open spec fn shorten_result_spec(
    base_url: Seq<char>,
    alias: Seq<char>,
    outcome: PutOutcome,
) -> Result<(Seq<char>, Seq<char>), Error> {
    match outcome {
        PutOutcome::Inserted => Ok((alias, link_text(base_url, alias))),
        PutOutcome::AlreadyExists => Err(Error::AliasCollision),
        PutOutcome::StorageError => Err(Error::StorageError),
    }
}

/// Filing a validated URL under a drawn alias: the table afterwards, and
/// what the caller is told.
pub open spec fn claim_spec(
    table: Map<Seq<char>, Seq<char>>,
    base_url: Seq<char>,
    alias: Seq<char>,
    url: Seq<char>,
) -> (Map<Seq<char>, Seq<char>>, Result<(Seq<char>, Seq<char>), Error>) {
    let (after, outcome) = put_spec(table, alias, url);
    (after, shorten_result_spec(base_url, alias, outcome))
}

/// A whole shortening, given the alias that was drawn for it.
pub open spec fn shorten_spec(
    table: Map<Seq<char>, Seq<char>>,
    base_url: Seq<char>,
    url: Seq<char>,
    alias: Seq<char>,
) -> (Map<Seq<char>, Seq<char>>, Result<(Seq<char>, Seq<char>), Error>) {
    if is_absolute_url(url) {
        claim_spec(table, base_url, alias, url)
    } else {
        (table, Err(Error::InvalidInput))
    }
}

/// What resolving an alias against a table gives.
pub open spec fn resolve_spec(table: Map<Seq<char>, Seq<char>>, alias: Seq<char>) -> Result<
    Seq<char>,
    Error,
> {
    match get_spec(table, alias) {
        Some(url) => Ok(url),
        None => Err(Error::NotFound),
    }
}

/// Composes a short link from the base URL and an alias.
pub fn short_link(base_url: &str, alias: &str) -> (text: String)
    ensures
        text@ == link_text(base_url@, alias@),
{
    proof {
        reveal_strlit("/");
    }
    let mut text = base_url.to_owned();
    text.append("/");
    text.append(alias);
    assert("/"@ =~= seq!['/']);
    text
}

/// Validates the text and, if it passes, pairs it with a fresh alias. The
/// mapping is a candidate only: no store has seen it yet.
pub fn draft_mapping(url: &str) -> (r: Result<Mapping, Error>)
    ensures
        match r {
            Ok(m) => is_absolute_url(url@) && is_alias(m.short_code@) && m.original_url@ == url@,
            Err(e) => e == Error::InvalidInput && !is_absolute_url(url@),
        },
        !has_scheme(url@) ==> r is Err,
{
    if !is_valid_url(url) {
        return Err(Error::InvalidInput);
    }
    Ok(Mapping { short_code: generate_alias(), original_url: url.to_owned() })
}

/// Turns the store's answer to an insertion into the caller's result.
pub fn conclude_shorten(base_url: &str, alias: String, outcome: PutOutcome) -> (r: Result<
    ShortLink,
    Error,
>)
    ensures
        link_view(r) == shorten_result_spec(base_url@, alias@, outcome),
{
    match outcome {
        PutOutcome::Inserted => {
            let short_url = short_link(base_url, alias.as_str());
            Ok(ShortLink { alias, short_url })
        },
        PutOutcome::AlreadyExists => Err(Error::AliasCollision),
        PutOutcome::StorageError => Err(Error::StorageError),
    }
}

/// Turns the store's answer to a lookup into the caller's result.
pub fn conclude_resolve(lookup: Lookup) -> (r: Result<String, Error>)
    ensures
        match lookup {
            Lookup::Found(url) => r == Ok::<String, Error>(url),
            Lookup::Missing => r == Err::<String, Error>(Error::NotFound),
            Lookup::StorageError => r == Err::<String, Error>(Error::StorageError),
        },
{
    match lookup {
        Lookup::Found(url) => Ok(url),
        Lookup::Missing => Err(Error::NotFound),
        Lookup::StorageError => Err(Error::StorageError),
    }
}

/// The shortener over an in-memory store.
pub struct Shortener {
    store: Store,
    base_url: String,
}

impl View for Shortener {
    type V = Map<Seq<char>, Seq<char>>;

    closed spec fn view(&self) -> Map<Seq<char>, Seq<char>> {
        self.store@
    }
}

impl Shortener {
    /// The base URL that short links are composed with.
    pub closed spec fn base_url_text(&self) -> Seq<char> {
        self.base_url@
    }

    /// A shortener with no mappings.
    pub fn new(base_url: String) -> (service: Shortener)
        ensures
            service@ == Map::<Seq<char>, Seq<char>>::empty(),
            service.base_url_text() == base_url@,
    {
        Shortener { store: Store::new(), base_url }
    }

    /// The base URL that short links are composed with.
    pub fn base_url(&self) -> (text: &str)
        ensures
            text@ == self.base_url_text(),
    {
        self.base_url.as_str()
    }

    /// The number of mappings held.
    pub fn len(&self) -> (n: usize)
        ensures
            n == self@.len(),
    {
        self.store.len()
    }

    /// Files a candidate mapping: stores it unless its short code is taken,
    /// and says which.
    pub fn claim(&mut self, mapping: Mapping) -> (r: Result<ShortLink, Error>)
        ensures
            final(self).base_url_text() == old(self).base_url_text(),
            (final(self)@, link_view(r)) == claim_spec(
                old(self)@,
                old(self).base_url_text(),
                mapping.short_code@,
                mapping.original_url@,
            ),
    {
        let alias = mapping.short_code.clone();
        let outcome = self.store.put(mapping.short_code, mapping.original_url);
        conclude_shorten(self.base_url.as_str(), alias, outcome)
    }

    /// Shortens a URL: validates it, draws an alias and files the pair. A
    /// collision is reported, not retried.
    pub fn shorten(&mut self, url: &str) -> (r: Result<ShortLink, Error>)
        ensures
            final(self).base_url_text() == old(self).base_url_text(),
            exists|alias: Seq<char>|
                #![trigger is_alias(alias)]
                is_alias(alias) && (final(self)@, link_view(r)) == shorten_spec(
                    old(self)@,
                    old(self).base_url_text(),
                    url@,
                    alias,
                ),
            r matches Ok(link) ==> is_alias(link.alias@) && !old(self)@.contains_key(link.alias@)
                && final(self)@ == old(self)@.insert(link.alias@, url@),
            r is Err ==> final(self)@ == old(self)@,
            (r is Ok || r == Err::<ShortLink, Error>(Error::AliasCollision)) <==> is_absolute_url(
                url@,
            ),
            !has_scheme(url@) ==> r == Err::<ShortLink, Error>(Error::InvalidInput),
    {
        match draft_mapping(url) {
            Ok(mapping) => {
                let ghost alias = mapping.short_code@;
                let r = self.claim(mapping);
                assert(is_alias(alias));
                r
            },
            Err(e) => {
                assert(is_alias(seq!['a', 'a', 'a', 'a', 'a', 'a']));
                Err(e)
            },
        }
    }

    /// Resolves an alias to the URL filed under it.
    pub fn resolve(&self, alias: &str) -> (r: Result<String, Error>)
        ensures
            url_view(r) == resolve_spec(self@, alias@),
    {
        let lookup = match self.store.get(alias) {
            Some(url) => Lookup::Found(url),
            None => Lookup::Missing,
        };
        conclude_resolve(lookup)
    }
}

} // verus!
