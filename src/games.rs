use crate::error::Error;
use crate::howlongtobeat;
use crate::names::Names;
use crate::opencritic;
use crate::steam;
use crate::text::{format_option, line_text};
use vstd::prelude::*;

verus! {

/// What the three services answered for one alias.
pub type Lookups = (
    Result<steam::GameData, Error>,
    Result<opencritic::GameData, Error>,
    Result<howlongtobeat::GameData, Error>,
);

/// One game, merged from whatever each service knew of it.
#[derive(Debug)]
pub struct GameData {
    pub steam: Option<steam::GameData>,
    pub opencritic: Option<opencritic::GameData>,
    pub howlongtobeat: Option<howlongtobeat::GameData>,
    /// The first alias of the group, shown when no service gave a name.
    pub alias: String,
}

/// The value of an answer, where the service found the game.
pub open spec fn found<T>(r: Result<T, Error>) -> Option<T> {
    match r {
        Ok(v) => Some(v),
        Err(_) => None,
    }
}

/// The error of an answer that is neither a value nor a plain miss.
pub open spec fn hard_error<T>(r: Result<T, Error>) -> Option<Error> {
    match r {
        Err(e) => if e == Error::NotFound { None } else { Some(e) },
        Ok(_) => None,
    }
}

/// The first error of one alias's answers, in the order of the services.
pub open spec fn row_error(row: Lookups) -> Option<Error> {
    if hard_error(row.0) is Some {
        hard_error(row.0)
    } else if hard_error(row.1) is Some {
        hard_error(row.1)
    } else {
        hard_error(row.2)
    }
}

pub open spec fn or_else<T>(a: Option<T>, b: Option<T>) -> Option<T> {
    if a is Some { a } else { b }
}

/// A slot already filled keeps its value; an empty one takes this alias's.
pub open spec fn merge_row(acc: GameData, row: Lookups) -> GameData {
    GameData {
        steam: or_else(acc.steam, found(row.0)),
        opencritic: or_else(acc.opencritic, found(row.1)),
        howlongtobeat: or_else(acc.howlongtobeat, found(row.2)),
        alias: acc.alias,
    }
}

impl GameData {
    pub open spec fn is_full(&self) -> bool {
        self.steam is Some && self.opencritic is Some && self.howlongtobeat is Some
    }

    pub open spec fn is_any(&self) -> bool {
        self.steam is Some || self.opencritic is Some || self.howlongtobeat is Some
    }

    /// The name shown: the store's, else the critic aggregator's, else the
    /// completion-time service's, else the group's first alias.
    pub open spec fn display_name(&self) -> Seq<char> {
        if self.steam is Some {
            self.steam->Some_0.name@
        } else if self.opencritic is Some {
            self.opencritic->Some_0.name@
        } else if self.howlongtobeat is Some {
            self.howlongtobeat->Some_0.name@
        } else {
            self.alias@
        }
    }
}

/// Walks the answers alias by alias: an error aborts, and once every slot is
/// filled the remaining aliases are not looked at.
pub open spec fn merged(acc: GameData, rows: Seq<Lookups>) -> Result<GameData, Error>
    decreases rows.len(),
{
    if rows.len() == 0 || acc.is_full() {
        Ok(acc)
    } else if row_error(rows[0]) is Some {
        Err(row_error(rows[0])->Some_0)
    } else {
        merged(merge_row(acc, rows[0]), rows.drop_first())
    }
}

pub open spec fn empty(alias: String) -> GameData {
    GameData { steam: None, opencritic: None, howlongtobeat: None, alias }
}

/// The outcome for one group: the merge, which fails where no service found
/// the game.
pub open spec fn aggregated(alias: String, rows: Seq<Lookups>) -> Result<GameData, Error> {
    match merged(empty(alias), rows) {
        Ok(g) => if g.is_any() { Ok(g) } else { Err(Error::NotFound) },
        Err(e) => Err(e),
    }
}

/// The outcome for a batch: every record, or the first failure.
pub open spec fn batch(results: Seq<Result<GameData, Error>>) -> Result<Seq<GameData>, Error>
    decreases results.len(),
{
    if results.len() == 0 {
        Ok(Seq::empty())
    } else {
        match results[0] {
            Err(e) => Err(e),
            Ok(g) => match batch(results.drop_first()) {
                Ok(rest) => Ok(seq![g].add(rest)),
                Err(e) => Err(e),
            },
        }
    }
}

/// Turns a plain miss into an empty value and keeps every other error.
pub fn parse_result<T>(result: Result<T, Error>) -> (r: Result<Option<T>, Error>)
    ensures
        hard_error(result) is Some ==> r == Err::<Option<T>, Error>(hard_error(result)->Some_0),
        hard_error(result) is None ==> r == Ok::<Option<T>, Error>(found(result)),
{
    match result {
        Ok(v) => Ok(Some(v)),
        Err(Error::NotFound) => Ok(None),
        Err(e) => Err(e),
    }
}

/// Splits one alias's answers into what each service found, or the first error.
fn parse_row(row: Lookups) -> (r: Result<
    (Option<steam::GameData>, Option<opencritic::GameData>, Option<howlongtobeat::GameData>),
    Error,
>)
    ensures
        row_error(row) is Some ==> r is Err && r->Err_0 == row_error(row)->Some_0,
        row_error(row) is None ==> r is Ok && r->Ok_0 == (found(row.0), found(row.1), found(row.2)),
{
    let (a, b, c) = row;
    let a = match parse_result(a) {
        Ok(v) => v,
        Err(e) => {
            return Err(e);
        },
    };
    let b = match parse_result(b) {
        Ok(v) => v,
        Err(e) => {
            return Err(e);
        },
    };
    let c = match parse_result(c) {
        Ok(v) => v,
        Err(e) => {
            return Err(e);
        },
    };
    Ok((a, b, c))
}

fn fill<T>(slot: &mut Option<T>, v: Option<T>)
    ensures
        *final(slot) == or_else(*old(slot), v),
{
    if slot.is_none() {
        *slot = v;
    }
}

impl GameData {
    /// Merges the answers of the services for each alias of `names`, in
    /// alias order.
    pub fn from_results(names: Names, results: Vec<Lookups>) -> (r: Result<GameData, Error>)
        ensures
            r == aggregated(names.first_alias(), results@),
    {
        let ghost alias = names.first_alias();
        let mut rows = results;
        let mut acc = GameData { steam: None, opencritic: None, howlongtobeat: None, alias: names.into_first() };
        while rows.len() > 0 && !(acc.steam.is_some() && acc.opencritic.is_some() && acc.howlongtobeat.is_some())
            invariant
                merged(empty(alias), results@) == merged(acc, rows@),
                alias == names.first_alias(),
            decreases rows@.len(),
        {
            let ghost before = rows@;
            let row = rows.remove(0);
            assert(rows@ =~= before.drop_first());
            assert(!acc.is_full() && row == before[0]);
            let (a, b, c) = match parse_row(row) {
                Ok(found) => found,
                Err(e) => {
                    assert(merged(acc, before) == Err::<GameData, Error>(e));
                    return Err(e);
                },
            };
            fill(&mut acc.steam, a);
            fill(&mut acc.opencritic, b);
            fill(&mut acc.howlongtobeat, c);
        }
        if acc.steam.is_some() || acc.opencritic.is_some() || acc.howlongtobeat.is_some() {
            Ok(acc)
        } else {
            Err(Error::NotFound)
        }
    }
}

impl GameData {
    /// The name to show for the game.
    pub fn name(&self) -> (r: String)
        ensures
            r@ == self.display_name(),
    {
        if let Some(steam) = &self.steam {
            steam.name.clone()
        } else if let Some(opencritic) = &self.opencritic {
            opencritic.name.clone()
        } else if let Some(howlongtobeat) = &self.howlongtobeat {
            howlongtobeat.name.clone()
        } else {
            self.alias.clone()
        }
    }

    /// The name, then a line per service with its summary or `Not found`.
    pub open spec fn text_spec(&self) -> Seq<char> {
        let steam = if self.steam is Some { Some(self.steam->Some_0.summary_text()) } else { None };
        let opencritic = if self.opencritic is Some { Some(self.opencritic->Some_0.summary_text()) } else { None };
        let howlongtobeat = if self.howlongtobeat is Some {
            Some(self.howlongtobeat->Some_0.summary_text())
        } else {
            None
        };
        self.display_name() + seq!['\n'] + line_text("Steam"@, steam) + line_text("Opencritic"@, opencritic)
            + line_text("HowLongToBeat"@, howlongtobeat)
    }

    pub fn to_text(&self) -> (r: String)
        ensures
            r@ == self.text_spec(),
    {
        let mut f = self.name();
        f.append("\n");
        proof {
            reveal_strlit("\n");
        }
        let steam = match &self.steam {
            Some(v) => Some(v.summary()),
            None => None,
        };
        format_option(&mut f, "Steam", &steam);
        let opencritic = match &self.opencritic {
            Some(v) => Some(v.summary()),
            None => None,
        };
        format_option(&mut f, "Opencritic", &opencritic);
        let howlongtobeat = match &self.howlongtobeat {
            Some(v) => Some(v.summary()),
            None => None,
        };
        format_option(&mut f, "HowLongToBeat", &howlongtobeat);
        proof {
            assert(f@ =~= self.text_spec());
        }
        f
    }
}

/// Keeps every record of a batch, in order, or fails with the first failure:
/// one group that failed fails the whole batch.
pub fn get_data(results: Vec<Result<GameData, Error>>) -> (r: Result<Vec<GameData>, Error>)
    ensures
        match batch(results@) {
            Ok(gs) => r is Ok && r->Ok_0@ == gs,
            Err(e) => r == Err::<Vec<GameData>, Error>(e),
        },
{
    let mut rest = results;
    let mut out: Vec<GameData> = Vec::new();
    while rest.len() > 0
        invariant
            batch(results@) == match batch(rest@) {
                Ok(tail) => Ok::<Seq<GameData>, Error>(out@.add(tail)),
                Err(e) => Err(e),
            },
        decreases rest@.len(),
    {
        let ghost before = rest@;
        let item = rest.remove(0);
        assert(rest@ =~= before.drop_first());
        match item {
            Ok(g) => {
                let ghost tail = rest@;
                let ghost out0 = out@;
                out.push(g);
                proof {
                    if let Ok(t) = batch(tail) {
                        assert(out0.add(seq![g].add(t)) =~= out@.add(t));
                    }
                }
            },
            Err(e) => {
                return Err(e);
            },
        }
    }
    assert(out@.add(Seq::empty()) =~= out@);
    Ok(out)
}

} // verus!
