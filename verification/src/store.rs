//! The mapping store: a table from short code to long URL that never
//! overwrites and never forgets.

use vstd::hash_map::StringHashMap;
use vstd::prelude::*;

verus! {

/// How an insertion ended.
#[derive(Clone, Copy, Debug, PartialEq, Eq, Structural)]
pub enum PutOutcome {
    /// The mapping was stored.
    Inserted,
    /// The short code was taken already; nothing changed.
    AlreadyExists,
    /// The backing storage failed.
    StorageError,
}

/// How a lookup ended.
#[derive(Clone, Debug)]
pub enum Lookup {
    /// The short code maps to this URL.
    Found(String),
    /// No mapping has this short code.
    Missing,
    /// The backing storage failed.
    StorageError,
}

/// The SQLSTATE with which a relational store reports a breach of a
/// uniqueness constraint.
pub open spec fn unique_violation() -> Seq<char> {
    seq!['2', '3', '5', '0', '5']
}

/// What a failed insertion means, given the SQLSTATE that came with the
/// failure, if any did.
pub open spec fn classify_spec(sqlstate: Option<Seq<char>>) -> PutOutcome {
    if sqlstate == Some(unique_violation()) {
        PutOutcome::AlreadyExists
    } else {
        PutOutcome::StorageError
    }
}

/// Tells the expected failure of an insertion, a short code that is taken,
/// from every other.
pub fn classify_insert_failure(sqlstate: Option<&str>) -> (outcome: PutOutcome)
    ensures
        outcome == classify_spec(
            match sqlstate {
                Some(code) => Some(code@),
                None => None,
            },
        ),
{
    match sqlstate {
        Some(code) => {
            proof {
                reveal_strlit("23505");
            }
            assert("23505"@ =~= unique_violation());
            let given: String = code.to_owned();
            let expected: String = "23505".to_owned();
            if given == expected {
                PutOutcome::AlreadyExists
            } else {
                PutOutcome::StorageError
            }
        },
        None => PutOutcome::StorageError,
    }
}

/// The table after an insert-if-absent, and how the insertion ended.
pub open spec fn put_spec(
    table: Map<Seq<char>, Seq<char>>,
    short_code: Seq<char>,
    original_url: Seq<char>,
) -> (Map<Seq<char>, Seq<char>>, PutOutcome) {
    if table.contains_key(short_code) {
        (table, PutOutcome::AlreadyExists)
    } else {
        (table.insert(short_code, original_url), PutOutcome::Inserted)
    }
}

/// What a lookup finds in a table.
pub open spec fn get_spec(table: Map<Seq<char>, Seq<char>>, short_code: Seq<char>) -> Option<
    Seq<char>,
> {
    if table.contains_key(short_code) {
        Some(table[short_code])
    } else {
        None
    }
}

/// The view of a looked-up URL.
pub open spec fn text_of(found: Option<String>) -> Option<Seq<char>> {
    match found {
        Some(s) => Some(s@),
        None => None,
    }
}

/// An in-memory mapping store. Holding it by `&mut` is the single point
/// through which writers pass, one at a time.
pub struct Store {
    table: StringHashMap<String>,
}

impl View for Store {
    type V = Map<Seq<char>, Seq<char>>;

    closed spec fn view(&self) -> Map<Seq<char>, Seq<char>> {
        self.table@.map_values(|url: String| url@)
    }
}

impl Store {
    /// An empty store.
    pub fn new() -> (store: Store)
        ensures
            store@ == Map::<Seq<char>, Seq<char>>::empty(),
    {
        let store = Store { table: StringHashMap::new() };
        assert(store@ =~= Map::<Seq<char>, Seq<char>>::empty());
        store
    }

    /// Looks a short code up. The store is left as it was.
    pub fn get(&self, short_code: &str) -> (found: Option<String>)
        ensures
            text_of(found) == get_spec(self@, short_code@),
    {
        match self.table.get(short_code) {
            Some(url) => Some(url.clone()),
            None => None,
        }
    }

    /// Whether a short code is taken.
    pub fn contains(&self, short_code: &str) -> (taken: bool)
        ensures
            taken == self@.contains_key(short_code@),
    {
        self.table.contains_key(short_code)
    }

    /// The number of mappings held.
    pub fn len(&self) -> (n: usize)
        ensures
            n == self@.len(),
    {
        proof {
            assert(self@.dom() =~= self.table@.dom());
        }
        self.table.len()
    }

    /// Inserts a mapping unless its short code is taken. A taken short code
    /// keeps the URL it had.
    pub fn put(&mut self, short_code: String, original_url: String) -> (outcome: PutOutcome)
        ensures
            (final(self)@, outcome) == put_spec(old(self)@, short_code@, original_url@),
    {
        if self.table.contains_key(short_code.as_str()) {
            PutOutcome::AlreadyExists
        } else {
            self.table.insert(short_code, original_url);
            assert(self@ =~= old(self)@.insert(short_code@, original_url@));
            PutOutcome::Inserted
        }
    }
}

} // verus!
