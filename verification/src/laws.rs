//! What holds of every run of the service, proved over the functions that
//! the service's contracts are stated with.

use crate::service::{resolve_spec, shorten_spec, Error};
use crate::validate::is_absolute_url;
use vstd::prelude::*;

verus! {

/// The table after a run of shortenings, oldest first. Each call is the URL
/// that was submitted and the alias that was drawn for it.
pub open spec fn after_shortens(
    table: Map<Seq<char>, Seq<char>>,
    base_url: Seq<char>,
    calls: Seq<(Seq<char>, Seq<char>)>,
) -> Map<Seq<char>, Seq<char>>
    decreases calls.len(),
{
    if calls.len() == 0 {
        table
    } else {
        shorten_spec(
            after_shortens(table, base_url, calls.drop_last()),
            base_url,
            calls.last().0,
            calls.last().1,
        ).0
    }
}

/// What call number `i` of a run returned.
pub open spec fn result_at(
    table: Map<Seq<char>, Seq<char>>,
    base_url: Seq<char>,
    calls: Seq<(Seq<char>, Seq<char>)>,
    i: int,
) -> Result<(Seq<char>, Seq<char>), Error> {
    shorten_spec(after_shortens(table, base_url, calls.take(i)), base_url, calls[i].0, calls[i].1).1
}

/// Some call of the run returned this alias.
pub open spec fn issued(
    table: Map<Seq<char>, Seq<char>>,
    base_url: Seq<char>,
    calls: Seq<(Seq<char>, Seq<char>)>,
    alias: Seq<char>,
) -> bool {
    exists|i: int|
        {
            &&& 0 <= i < calls.len()
            &&& (#[trigger] result_at(table, base_url, calls, i)) matches Ok(link)
            &&& link.0 == alias
        }
}

/// The number of calls of a run that succeeded.
pub open spec fn successes(
    table: Map<Seq<char>, Seq<char>>,
    base_url: Seq<char>,
    calls: Seq<(Seq<char>, Seq<char>)>,
) -> nat
    decreases calls.len(),
{
    if calls.len() == 0 {
        0
    } else {
        let earlier: nat = successes(table, base_url, calls.drop_last());
        if result_at(table, base_url, calls, calls.len() - 1) is Ok {
            earlier + 1
        } else {
            earlier
        }
    }
}

/// The number of calls of a run that ended in a collision.
pub open spec fn collisions(
    table: Map<Seq<char>, Seq<char>>,
    base_url: Seq<char>,
    calls: Seq<(Seq<char>, Seq<char>)>,
) -> nat
    decreases calls.len(),
{
    if calls.len() == 0 {
        0
    } else {
        let earlier: nat = collisions(table, base_url, calls.drop_last());
        if result_at(table, base_url, calls, calls.len() - 1) == Err::<
            (Seq<char>, Seq<char>),
            Error,
        >(Error::AliasCollision) {
            earlier + 1
        } else {
            earlier
        }
    }
}

/// The aliases that a run drew for well-formed URLs.
pub open spec fn drawn(calls: Seq<(Seq<char>, Seq<char>)>) -> Set<Seq<char>> {
    Set::new(
        |alias: Seq<char>|
            exists|i: int|
                0 <= i < calls.len() && is_absolute_url(#[trigger] calls[i].0) && calls[i].1
                    == alias,
    )
}

/// Round trip: when a shortening succeeds, resolving the alias it returned
/// gives back the very text that was submitted.
pub proof fn law_round_trip(
    table: Map<Seq<char>, Seq<char>>,
    base_url: Seq<char>,
    url: Seq<char>,
    alias: Seq<char>,
)
    ensures
        shorten_spec(table, base_url, url, alias).1 matches Ok(link) ==> link.0 == alias
            && resolve_spec(shorten_spec(table, base_url, url, alias).0, link.0) == Ok::<
            Seq<char>,
            Error,
        >(url),
{
}

/// A text that is no well-formed absolute URL is turned down as invalid
/// input, whatever alias was drawn, and no mapping is created.
pub proof fn law_malformed_text_creates_nothing(
    table: Map<Seq<char>, Seq<char>>,
    base_url: Seq<char>,
    url: Seq<char>,
    alias: Seq<char>,
)
    requires
        !is_absolute_url(url),
    ensures
        shorten_spec(table, base_url, url, alias) == (
            table,
            Err::<(Seq<char>, Seq<char>), Error>(Error::InvalidInput),
        ),
{
}

/// A shortening that fails, for whatever reason, leaves the table as it
/// was.
pub proof fn law_failure_changes_nothing(
    table: Map<Seq<char>, Seq<char>>,
    base_url: Seq<char>,
    url: Seq<char>,
    alias: Seq<char>,
)
    requires
        shorten_spec(table, base_url, url, alias).1 is Err,
    ensures
        shorten_spec(table, base_url, url, alias).0 == table,
{
}

/// A run's earlier calls see the same tables whether or not the last call
/// is looked at.
proof fn lemma_prefix(
    table: Map<Seq<char>, Seq<char>>,
    base_url: Seq<char>,
    calls: Seq<(Seq<char>, Seq<char>)>,
    i: int,
)
    requires
        0 <= i < calls.len() - 1,
    ensures
        result_at(table, base_url, calls.drop_last(), i) == result_at(table, base_url, calls, i),
{
    assert(calls.drop_last().take(i) =~= calls.take(i));
}

/// A shortening never rewrites or drops a mapping.
proof fn lemma_step_keeps(
    table: Map<Seq<char>, Seq<char>>,
    base_url: Seq<char>,
    url: Seq<char>,
    alias: Seq<char>,
    key: Seq<char>,
)
    requires
        table.contains_key(key),
    ensures
        shorten_spec(table, base_url, url, alias).0.contains_key(key),
        shorten_spec(table, base_url, url, alias).0[key] == table[key],
{
}

/// Mappings are permanent: once a call of a run has returned an alias,
/// that alias resolves to the URL of that call, whatever was shortened
/// afterwards.
pub proof fn law_mapping_is_permanent(
    table: Map<Seq<char>, Seq<char>>,
    base_url: Seq<char>,
    calls: Seq<(Seq<char>, Seq<char>)>,
    i: int,
)
    requires
        0 <= i < calls.len(),
        result_at(table, base_url, calls, i) is Ok,
    ensures
        resolve_spec(after_shortens(table, base_url, calls), calls[i].1) == Ok::<
            Seq<char>,
            Error,
        >(calls[i].0),
    decreases calls.len(),
{
    let last: int = calls.len() - 1;
    let before = after_shortens(table, base_url, calls.drop_last());
    assert(calls.take(last) =~= calls.drop_last());
    if i == last {
    } else {
        lemma_prefix(table, base_url, calls, i);
        law_mapping_is_permanent(table, base_url, calls.drop_last(), i);
        lemma_step_keeps(before, base_url, calls.last().0, calls.last().1, calls[i].1);
    }
}

/// The short codes of a table after a run are those it held before and
/// those that the run issued.
pub proof fn law_keys_are_issued(
    table: Map<Seq<char>, Seq<char>>,
    base_url: Seq<char>,
    calls: Seq<(Seq<char>, Seq<char>)>,
    alias: Seq<char>,
)
    ensures
        after_shortens(table, base_url, calls).contains_key(alias) <==> table.contains_key(alias)
            || issued(table, base_url, calls, alias),
    decreases calls.len(),
{
    if calls.len() == 0 {
    } else {
        let last: int = calls.len() - 1;
        let earlier = calls.drop_last();
        assert(calls.take(last) =~= earlier);
        law_keys_are_issued(table, base_url, earlier, alias);
        if issued(table, base_url, earlier, alias) {
            let i: int = choose|i: int|
                {
                    &&& 0 <= i < earlier.len()
                    &&& (#[trigger] result_at(table, base_url, earlier, i)) matches Ok(link)
                    &&& link.0 == alias
                };
            lemma_prefix(table, base_url, calls, i);
            assert(result_at(table, base_url, calls, i) is Ok);
        }
        if issued(table, base_url, calls, alias) {
            let i: int = choose|i: int|
                {
                    &&& 0 <= i < calls.len()
                    &&& (#[trigger] result_at(table, base_url, calls, i)) matches Ok(link)
                    &&& link.0 == alias
                };
            if i < last {
                lemma_prefix(table, base_url, calls, i);
                assert(result_at(table, base_url, earlier, i) is Ok);
            }
        }
        if after_shortens(table, base_url, calls).contains_key(alias) && !after_shortens(
            table,
            base_url,
            earlier,
        ).contains_key(alias) {
            assert(result_at(table, base_url, calls, last) is Ok);
        }
    }
}

/// What the last call of a run adds to the aliases drawn.
proof fn lemma_drawn_step(calls: Seq<(Seq<char>, Seq<char>)>, alias: Seq<char>)
    requires
        calls.len() > 0,
    ensures
        drawn(calls).contains(alias) <==> drawn(calls.drop_last()).contains(alias) || (
        is_absolute_url(calls.last().0) && calls.last().1 == alias),
{
    let earlier = calls.drop_last();
    let last: int = calls.len() - 1;
    if drawn(calls).contains(alias) {
        let i: int = choose|i: int|
            0 <= i < calls.len() && is_absolute_url(#[trigger] calls[i].0) && calls[i].1 == alias;
        if i < last {
            assert(is_absolute_url(earlier[i].0) && earlier[i].1 == alias);
        }
    }
    if drawn(earlier).contains(alias) {
        let i: int = choose|i: int|
            0 <= i < earlier.len() && is_absolute_url(#[trigger] earlier[i].0) && earlier[i].1
                == alias;
        assert(is_absolute_url(calls[i].0) && calls[i].1 == alias);
    }
    if is_absolute_url(calls.last().0) && calls.last().1 == alias {
        assert(is_absolute_url(calls[last].0) && calls[last].1 == alias);
    }
}

/// The short codes of a table after a run are those it held before and the
/// aliases that the run drew for well-formed URLs.
pub proof fn law_keys_are_drawn(
    table: Map<Seq<char>, Seq<char>>,
    base_url: Seq<char>,
    calls: Seq<(Seq<char>, Seq<char>)>,
    alias: Seq<char>,
)
    ensures
        after_shortens(table, base_url, calls).contains_key(alias) <==> table.contains_key(alias)
            || drawn(calls).contains(alias),
    decreases calls.len(),
{
    if calls.len() == 0 {
    } else {
        law_keys_are_drawn(table, base_url, calls.drop_last(), alias);
        lemma_drawn_step(calls, alias);
    }
}

/// Uniqueness, counted: of a run, as many calls succeed as it drew distinct
/// aliases that the table did not hold before. However many calls draw one
/// free alias, one of them gets it.
pub proof fn law_one_success_per_free_alias(
    table: Map<Seq<char>, Seq<char>>,
    base_url: Seq<char>,
    calls: Seq<(Seq<char>, Seq<char>)>,
)
    ensures
        drawn(calls).difference(table.dom()).finite(),
        successes(table, base_url, calls) == drawn(calls).difference(table.dom()).len(),
    decreases calls.len(),
{
    let free = drawn(calls).difference(table.dom());
    if calls.len() == 0 {
        assert(free =~= Set::<Seq<char>>::empty());
    } else {
        let earlier = calls.drop_last();
        let last: int = calls.len() - 1;
        let alias = calls.last().1;
        let free_earlier = drawn(earlier).difference(table.dom());
        law_one_success_per_free_alias(table, base_url, earlier);
        assert(calls.take(last) =~= earlier);
        law_keys_are_drawn(table, base_url, earlier, alias);
        assert forall|a: Seq<char>|
            drawn(calls).contains(a) <==> drawn(earlier).contains(a) || (is_absolute_url(
                calls.last().0,
            ) && alias == a) by {
            lemma_drawn_step(calls, a);
        }
        if result_at(table, base_url, calls, last) is Ok {
            assert(free =~= free_earlier.insert(alias));
        } else {
            assert(free =~= free_earlier);
        }
    }
}

/// Every call of a run that was given a well-formed URL either succeeds
/// or ends in a collision.
pub proof fn law_success_or_collision(
    table: Map<Seq<char>, Seq<char>>,
    base_url: Seq<char>,
    calls: Seq<(Seq<char>, Seq<char>)>,
)
    requires
        forall|i: int| 0 <= i < calls.len() ==> is_absolute_url(#[trigger] calls[i].0),
    ensures
        successes(table, base_url, calls) + collisions(table, base_url, calls) == calls.len(),
    decreases calls.len(),
{
    if calls.len() > 0 {
        let earlier = calls.drop_last();
        assert forall|i: int| 0 <= i < earlier.len() implies is_absolute_url(
            #[trigger] earlier[i].0,
        ) by {
            assert(earlier[i] == calls[i]);
        }
        law_success_or_collision(table, base_url, earlier);
        assert(is_absolute_url(calls[calls.len() - 1].0));
    }
}

/// Scarcity: when every call of a run is given a well-formed URL and draws
/// its alias from a pool of which the table leaves `m` free, at most `m`
/// calls succeed and the others collide; and where the run draws each
/// free alias of the pool, exactly `m` succeed.
pub proof fn law_scarce_aliases(
    table: Map<Seq<char>, Seq<char>>,
    base_url: Seq<char>,
    calls: Seq<(Seq<char>, Seq<char>)>,
    pool: Set<Seq<char>>,
)
    requires
        pool.difference(table.dom()).finite(),
        forall|i: int|
            0 <= i < calls.len() ==> is_absolute_url(#[trigger] calls[i].0) && pool.contains(
                calls[i].1,
            ),
    ensures
        successes(table, base_url, calls) <= pool.difference(table.dom()).len(),
        collisions(table, base_url, calls) == calls.len() - successes(table, base_url, calls),
        pool.difference(table.dom()).subset_of(drawn(calls)) ==> successes(table, base_url, calls)
            == pool.difference(table.dom()).len(),
{
    let free = pool.difference(table.dom());
    let won = drawn(calls).difference(table.dom());
    law_one_success_per_free_alias(table, base_url, calls);
    law_success_or_collision(table, base_url, calls);
    assert(won.subset_of(free)) by {
        assert forall|a: Seq<char>| won.contains(a) implies free.contains(a) by {
            let i: int = choose|i: int|
                0 <= i < calls.len() && is_absolute_url(#[trigger] calls[i].0) && calls[i].1 == a;
        }
    }
    vstd::set_lib::lemma_len_subset(won, free);
    if free.subset_of(drawn(calls)) {
        assert(won =~= free);
    }
}

/// An alias that no shortening has returned resolves to nothing: on a
/// service that started empty, it is not found.
pub proof fn law_unissued_alias_not_found(
    base_url: Seq<char>,
    calls: Seq<(Seq<char>, Seq<char>)>,
    alias: Seq<char>,
)
    requires
        !issued(Map::empty(), base_url, calls, alias),
    ensures
        resolve_spec(after_shortens(Map::empty(), base_url, calls), alias) == Err::<
            Seq<char>,
            Error,
        >(Error::NotFound),
{
    law_keys_are_issued(Map::empty(), base_url, calls, alias);
}

/// No two successful calls of a run share an alias.
pub proof fn law_issued_aliases_differ(
    table: Map<Seq<char>, Seq<char>>,
    base_url: Seq<char>,
    calls: Seq<(Seq<char>, Seq<char>)>,
    i: int,
    j: int,
)
    requires
        0 <= i < j < calls.len(),
        result_at(table, base_url, calls, i) is Ok,
        result_at(table, base_url, calls, j) is Ok,
    ensures
        calls[i].1 != calls[j].1,
{
    let upto = calls.take(j);
    assert(upto.take(i) =~= calls.take(i));
    assert(result_at(table, base_url, upto, i) is Ok);
    law_mapping_is_permanent(table, base_url, upto, i);
}

} // verus!
