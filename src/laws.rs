//! What holds of merging the services' answers, over every input.
use crate::error::Error;
use crate::games::{aggregated, batch, empty, found, merge_row, merged, or_else, row_error, GameData, Lookups};
use crate::howlongtobeat;
use crate::opencritic;
use crate::steam;
use vstd::prelude::*;

verus! {

/// The first value that a service found, over the aliases in order.
pub open spec fn first_found<T>(col: Seq<Result<T, Error>>) -> Option<T>
    decreases col.len(),
{
    if col.len() == 0 {
        None
    } else if col[0] is Ok {
        found(col[0])
    } else {
        first_found(col.drop_first())
    }
}

pub open spec fn steam_answers(rows: Seq<Lookups>) -> Seq<Result<steam::GameData, Error>> {
    rows.map_values(|r: Lookups| r.0)
}

pub open spec fn opencritic_answers(rows: Seq<Lookups>) -> Seq<Result<opencritic::GameData, Error>> {
    rows.map_values(|r: Lookups| r.1)
}

pub open spec fn howlongtobeat_answers(rows: Seq<Lookups>) -> Seq<Result<howlongtobeat::GameData, Error>> {
    rows.map_values(|r: Lookups| r.2)
}

/// No service failed for any alias (a plain miss is no failure).
pub open spec fn no_hard_errors(rows: Seq<Lookups>) -> bool {
    forall|i: int| 0 <= i < rows.len() ==> (#[trigger] row_error(rows[i])) is None
}

/// Each service answered for every alias that it knows no such game.
pub open spec fn all_missing(rows: Seq<Lookups>) -> bool {
    forall|i: int|
        0 <= i < rows.len() ==> {
            &&& (#[trigger] rows[i]).0 == Err::<steam::GameData, Error>(Error::NotFound)
            &&& rows[i].1 == Err::<opencritic::GameData, Error>(Error::NotFound)
            &&& rows[i].2 == Err::<howlongtobeat::GameData, Error>(Error::NotFound)
        }
}

/// Without failures, each slot ends up with the first value found for it.
pub proof fn lemma_merged_without_errors(acc: GameData, rows: Seq<Lookups>)
    requires
        no_hard_errors(rows),
    ensures
        merged(acc, rows) == Ok::<GameData, Error>(GameData {
            steam: or_else(acc.steam, first_found(steam_answers(rows))),
            opencritic: or_else(acc.opencritic, first_found(opencritic_answers(rows))),
            howlongtobeat: or_else(acc.howlongtobeat, first_found(howlongtobeat_answers(rows))),
            alias: acc.alias,
        }),
    decreases rows.len(),
{
    if rows.len() == 0 || acc.is_full() {
    } else {
        let rest = rows.drop_first();
        assert(row_error(rows[0]) is None);
        assert forall|i: int| 0 <= i < rest.len() implies (#[trigger] row_error(rest[i])) is None by {
            assert(rest[i] == rows[i + 1]);
        }
        lemma_merged_without_errors(merge_row(acc, rows[0]), rest);
        assert(steam_answers(rest) =~= steam_answers(rows).drop_first());
        assert(opencritic_answers(rest) =~= opencritic_answers(rows).drop_first());
        assert(howlongtobeat_answers(rest) =~= howlongtobeat_answers(rows).drop_first());
    }
}

/// Merging a run of aliases is merging its first part, then the rest.
pub proof fn lemma_merged_split(acc: GameData, rows: Seq<Lookups>, n: int)
    requires
        0 <= n <= rows.len(),
    ensures
        merged(acc, rows) == match merged(acc, rows.take(n)) {
            Ok(g) => merged(g, rows.skip(n)),
            Err(e) => Err(e),
        },
    decreases n,
{
    if n == 0 {
        assert(rows.skip(0) =~= rows);
    } else if acc.is_full() {
    } else if row_error(rows[0]) is Some {
    } else {
        lemma_merged_split(merge_row(acc, rows[0]), rows.drop_first(), n - 1);
        assert(rows.take(n).drop_first() =~= rows.drop_first().take(n - 1));
        assert(rows.skip(n) =~= rows.drop_first().skip(n - 1));
    }
}

/// Where every service misses the game under every alias, the group fails
/// with `NotFound`.
pub proof fn lemma_all_missing_fails(alias: String, rows: Seq<Lookups>)
    requires
        all_missing(rows),
    ensures
        aggregated(alias, rows) == Err::<GameData, Error>(Error::NotFound),
{
    assert forall|i: int| 0 <= i < rows.len() implies (#[trigger] row_error(rows[i])) is None by {
        assert(rows[i].0 == Err::<steam::GameData, Error>(Error::NotFound));
    }
    lemma_merged_without_errors(empty(alias), rows);
    lemma_all_missing_nothing_found(rows);
}

proof fn lemma_all_missing_nothing_found(rows: Seq<Lookups>)
    requires
        all_missing(rows),
    ensures
        first_found(steam_answers(rows)) is None,
        first_found(opencritic_answers(rows)) is None,
        first_found(howlongtobeat_answers(rows)) is None,
    decreases rows.len(),
{
    if rows.len() > 0 {
        let rest = rows.drop_first();
        assert forall|i: int| 0 <= i < rest.len() implies #[trigger] rest[i] == rows[i + 1] by {}
        assert(all_missing(rest)) by {
            assert forall|i: int| 0 <= i < rest.len() implies (#[trigger] rest[i]).0 == Err::<steam::GameData, Error>(Error::NotFound) by {
                assert(rest[i] == rows[i + 1]);
            }
        }
        lemma_all_missing_nothing_found(rest);
        assert(rows[0].0 == Err::<steam::GameData, Error>(Error::NotFound));
        assert(steam_answers(rest) =~= steam_answers(rows).drop_first());
        assert(opencritic_answers(rest) =~= opencritic_answers(rows).drop_first());
        assert(howlongtobeat_answers(rest) =~= howlongtobeat_answers(rows).drop_first());
    }
}

/// Where no service fails and some service finds the game under some alias,
/// the group succeeds and that service's slot is filled.
pub proof fn lemma_found_succeeds(alias: String, rows: Seq<Lookups>, i: int)
    requires
        no_hard_errors(rows),
        0 <= i < rows.len(),
        rows[i].0 is Ok || rows[i].1 is Ok || rows[i].2 is Ok,
    ensures
        aggregated(alias, rows) is Ok,
        rows[i].0 is Ok ==> aggregated(alias, rows)->Ok_0.steam is Some,
        rows[i].1 is Ok ==> aggregated(alias, rows)->Ok_0.opencritic is Some,
        rows[i].2 is Ok ==> aggregated(alias, rows)->Ok_0.howlongtobeat is Some,
{
    lemma_merged_without_errors(empty(alias), rows);
    lemma_found_somewhere(steam_answers(rows), i);
    lemma_found_somewhere(opencritic_answers(rows), i);
    lemma_found_somewhere(howlongtobeat_answers(rows), i);
}

proof fn lemma_found_somewhere<T>(col: Seq<Result<T, Error>>, i: int)
    requires
        0 <= i < col.len(),
    ensures
        col[i] is Ok ==> first_found(col) is Some,
    decreases col.len(),
{
    if i > 0 && col[0] is Err {
        lemma_found_somewhere(col.drop_first(), i - 1);
    }
}

proof fn lemma_first_found_at<T>(col: Seq<Result<T, Error>>, i: int)
    requires
        0 <= i < col.len(),
        col[i] is Ok,
        forall|k: int| 0 <= k < i ==> (#[trigger] col[k]) is Err,
    ensures
        first_found(col) == found(col[i]),
    decreases col.len(),
{
    if i > 0 {
        assert(col[0] is Err);
        let rest = col.drop_first();
        assert forall|k: int| 0 <= k < i - 1 implies (#[trigger] rest[k]) is Err by {
            assert(rest[k] == col[k + 1]);
        }
        lemma_first_found_at(rest, i - 1);
    }
}

/// The first alias under which a service finds the game gives that
/// service's slot: a later alias that the service also finds does not
/// replace it. Each service is taken on its own.
pub proof fn lemma_first_match_wins(alias: String, rows: Seq<Lookups>, i: int)
    requires
        no_hard_errors(rows),
        0 <= i < rows.len(),
    ensures
        (rows[i].0 is Ok && forall|k: int| 0 <= k < i ==> (#[trigger] rows[k]).0 is Err) ==> {
            &&& aggregated(alias, rows) is Ok
            &&& aggregated(alias, rows)->Ok_0.steam == found(rows[i].0)
        },
        (rows[i].1 is Ok && forall|k: int| 0 <= k < i ==> (#[trigger] rows[k]).1 is Err) ==> {
            &&& aggregated(alias, rows) is Ok
            &&& aggregated(alias, rows)->Ok_0.opencritic == found(rows[i].1)
        },
        (rows[i].2 is Ok && forall|k: int| 0 <= k < i ==> (#[trigger] rows[k]).2 is Err) ==> {
            &&& aggregated(alias, rows) is Ok
            &&& aggregated(alias, rows)->Ok_0.howlongtobeat == found(rows[i].2)
        },
{
    lemma_merged_without_errors(empty(alias), rows);
    let (a, b, c) = (steam_answers(rows), opencritic_answers(rows), howlongtobeat_answers(rows));
    if rows[i].0 is Ok && forall|k: int| 0 <= k < i ==> (#[trigger] rows[k]).0 is Err {
        assert forall|k: int| 0 <= k < i implies (#[trigger] a[k]) is Err by {
            assert(rows[k].0 is Err);
        }
        lemma_first_found_at(a, i);
    }
    if rows[i].1 is Ok && forall|k: int| 0 <= k < i ==> (#[trigger] rows[k]).1 is Err {
        assert forall|k: int| 0 <= k < i implies (#[trigger] b[k]) is Err by {
            assert(rows[k].1 is Err);
        }
        lemma_first_found_at(b, i);
    }
    if rows[i].2 is Ok && forall|k: int| 0 <= k < i ==> (#[trigger] rows[k]).2 is Err {
        assert forall|k: int| 0 <= k < i implies (#[trigger] c[k]) is Err by {
            assert(rows[k].2 is Err);
        }
        lemma_first_found_at(c, i);
    }
}

/// Two aliases, the first found only by the store, the second only by the
/// critic aggregator: the record holds both, each from its own alias.
pub proof fn lemma_sources_merge_independently(alias: String, rows: Seq<Lookups>)
    requires
        no_hard_errors(rows),
        rows.len() >= 2,
        rows[0].0 is Ok,
        rows[0].1 is Err,
        rows[0].2 is Err,
        rows[1].0 is Err,
        rows[1].1 is Ok,
        rows[1].2 is Err,
    ensures
        aggregated(alias, rows) is Ok,
        aggregated(alias, rows)->Ok_0.steam == found(rows[0].0),
        aggregated(alias, rows)->Ok_0.opencritic == found(rows[1].1),
{
    lemma_first_match_wins(alias, rows, 0);
    lemma_first_match_wins(alias, rows, 1);
}

/// A failure of any service under an alias that is reached fails the whole
/// group, whatever the other services answered. An alias is reached unless
/// the aliases before it already filled every slot.
pub proof fn lemma_hard_error_aborts(alias: String, rows: Seq<Lookups>, i: int)
    requires
        0 <= i < rows.len(),
        row_error(rows[i]) is Some,
        no_hard_errors(rows.take(i)),
        !(first_found(steam_answers(rows.take(i))) is Some
            && first_found(opencritic_answers(rows.take(i))) is Some
            && first_found(howlongtobeat_answers(rows.take(i))) is Some),
    ensures
        aggregated(alias, rows) == Err::<GameData, Error>(row_error(rows[i])->Some_0),
{
    lemma_merged_split(empty(alias), rows, i);
    lemma_merged_without_errors(empty(alias), rows.take(i));
    assert(rows.skip(i)[0] == rows[i]);
}

/// One group that fails fails the whole batch: no record comes out.
pub proof fn lemma_batch_fails(results: Seq<Result<GameData, Error>>, i: int)
    requires
        0 <= i < results.len(),
        results[i] is Err,
    ensures
        batch(results) is Err,
    decreases results.len(),
{
    if i > 0 && results[0] is Ok {
        lemma_batch_fails(results.drop_first(), i - 1);
    }
}

/// The critic aggregator's name is shown where the store has nothing.
pub proof fn lemma_name_falls_back(g: GameData)
    requires
        g.steam is None,
        g.opencritic is Some,
    ensures
        g.display_name() == g.opencritic->Some_0.name@,
{
}

} // verus!
