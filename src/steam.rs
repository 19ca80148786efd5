use crate::error::Error;
use crate::text::{fixed2_text, lower_of, lowercase, nat_text, trim, trimmed_of, u128_text, u64_text};
use vstd::prelude::*;

verus! {

/// The review summary of a store page.
#[derive(Debug)]
pub struct ReviewData {
    pub description: String,
    pub positive: u64,
    pub negative: u64,
    pub total: u64,
}

/// What the store knows of a game.
#[derive(Debug)]
pub struct GameData {
    pub name: String,
    pub review_data: ReviewData,
    pub metacritic_score: Option<u8>,
}

/// The details of one store entry.
#[derive(Debug)]
pub struct AppDetails {
    /// The store's own flag that the answer is good.
    pub success: bool,
    /// What the entry is: `game`, `dlc`, `music` and so on.
    pub kind: String,
    pub name: String,
    pub metacritic_score: Option<u8>,
}

/// An entry of the store's list of applications.
#[derive(Debug)]
pub struct App {
    pub appid: u64,
    pub name: String,
}

/// The share of positive reviews in hundredths of a percent, rounded to the
/// nearest, halves up; with no reviews, what a division by zero shows.
pub open spec fn share_text(positive: nat, total: nat) -> Seq<char> {
    if total == 0 {
        if positive == 0 { "NaN"@ } else { "inf"@ }
    } else {
        fixed2_text((20000 * positive + total) / (2 * total))
    }
}

impl ReviewData {
    /// Keeps the summary where the store flags its answer as good (`1`).
    pub fn from_response(success: u8, summary: ReviewData) -> (r: Result<ReviewData, Error>)
        ensures
            success == 1 ==> r == Ok::<ReviewData, Error>(summary),
            success != 1 ==> r == Err::<ReviewData, Error>(Error::ApiUnsuccessful),
    {
        if success != 1 {
            return Err(Error::ApiUnsuccessful);
        }
        Ok(summary)
    }

    /// As `Very Positive (93.50% of 2000)`.
    pub open spec fn text_spec(&self) -> Seq<char> {
        self.description@ + " ("@ + share_text(self.positive as nat, self.total as nat) + "% of "@
            + nat_text(self.total as nat) + ")"@
    }

    pub fn text(&self) -> (r: String)
        ensures
            r@ == self.text_spec(),
    {
        let mut f = String::new();
        f.append(self.description.as_str());
        f.append(" (");
        if self.total == 0 {
            if self.positive == 0 {
                f.append("NaN");
            } else {
                f.append("inf");
            }
        } else {
            let p = self.positive as u128;
            let t = self.total as u128;
            assert(20000 * p + t <= 20000 * 0xffff_ffff_ffff_ffffu128 + 0xffff_ffff_ffff_ffffu128) by (nonlinear_arith)
                requires p <= 0xffff_ffff_ffff_ffffu128, t <= 0xffff_ffff_ffff_ffffu128;
            let hundredths = (20000 * p + t) / (2 * t);
            assert(hundredths <= 20000 * p + t) by (nonlinear_arith)
                requires t >= 1, hundredths == (20000 * p + t) / (2 * t);
            let s = fixed2_wide(hundredths);
            f.append(s.as_str());
        }
        f.append("% of ");
        let n = u64_text(self.total);
        f.append(n.as_str());
        f.append(")");
        proof {
            assert(f@ =~= self.text_spec());
        }
        f
    }
}

fn fixed2_wide(n: u128) -> (r: String)
    ensures
        r@ == fixed2_text(n as nat),
{
    let mut r = u128_text(n / 100);
    r.append(".");
    let f = n % 100;
    if f < 10 {
        r.append("0");
    }
    let d = u128_text(f);
    r.append(d.as_str());
    proof {
        reveal_strlit(".");
        reveal_strlit("0");
    }
    r
}

impl GameData {
    /// The review summary, then the Metacritic score on a line of its own
    /// where there is one.
    pub open spec fn summary_text(&self) -> Seq<char> {
        match self.metacritic_score {
            Some(m) => self.review_data.text_spec() + "\nMetacritic: "@ + nat_text(m as nat) + "%"@,
            None => self.review_data.text_spec(),
        }
    }

    pub fn summary(&self) -> (r: String)
        ensures
            r@ == self.summary_text(),
    {
        let mut f = self.review_data.text();
        if let Some(metacritic) = self.metacritic_score {
            f.append("\nMetacritic: ");
            let m = u64_text(metacritic as u64);
            f.append(m.as_str());
            f.append("%");
        }
        f
    }

    /// Decides on one candidate entry from what the store sent for it: a
    /// failed fetch fails the lookup, as does the store's own failure flag; an
    /// entry that is not a game is passed over (`Ok(None)`).
    pub fn from_candidate(details: Result<AppDetails, Error>, reviews: Result<ReviewData, Error>) -> (r: Result<Option<GameData>, Error>)
        ensures
            details is Err ==> r == Err::<Option<GameData>, Error>(details->Err_0),
            details is Ok && reviews is Err ==> r == Err::<Option<GameData>, Error>(reviews->Err_0),
            details is Ok && reviews is Ok ==> {
                let d = details->Ok_0;
                &&& !d.success ==> r == Err::<Option<GameData>, Error>(Error::ApiUnsuccessful)
                &&& d.success && d.kind@ != "game"@ ==> r == Ok::<Option<GameData>, Error>(None)
                &&& d.success && d.kind@ == "game"@ ==> r == Ok::<Option<GameData>, Error>(Some(GameData {
                    name: d.name,
                    review_data: reviews->Ok_0,
                    metacritic_score: d.metacritic_score,
                }))
            },
    {
        let details = match details {
            Ok(d) => d,
            Err(e) => {
                return Err(e);
            },
        };
        let review_data = match reviews {
            Ok(r) => r,
            Err(e) => {
                return Err(e);
            },
        };
        if !details.success {
            return Err(Error::ApiUnsuccessful);
        }
        let game = String::from_str("game");
        if details.kind != game {
            return Ok(None);
        }
        Ok(Some(GameData { name: details.name, review_data, metacritic_score: details.metacritic_score }))
    }
}

/// What to do next in a lookup over candidate entries.
#[derive(Debug)]
pub enum Action {
    /// Fetch the details and reviews of this entry.
    Fetch(u64),
    /// The lookup is over, with this outcome.
    Finish(Result<GameData, Error>),
}

/// A lookup that tries the candidate entries of a name in list order until one
/// is a game.
#[derive(Debug)]
pub struct Candidates {
    ids: Vec<u64>,
    next: usize,
}

impl Candidates {
    #[verifier::type_invariant]
    spec fn within(&self) -> bool {
        self.next <= self.ids@.len()
    }

    pub closed spec fn ids(&self) -> Seq<u64> {
        self.ids@
    }

    /// How many candidates have been handed out for fetching.
    pub closed spec fn tried(&self) -> nat {
        self.next as nat
    }

    pub fn new(ids: Vec<u64>) -> (r: Candidates)
        ensures
            r.ids() == ids@,
            r.tried() == 0,
    {
        Candidates { ids, next: 0 }
    }

    /// Takes the decision on the last candidate fetched (`None` before the
    /// first one) and says what comes next: a failure or a game ends the
    /// lookup; otherwise the next candidate is fetched, and with none left the
    /// name is not found.
    pub fn step(&mut self, decision: Option<Result<Option<GameData>, Error>>) -> (r: Action)
        ensures
            final(self).ids() == old(self).ids(),
            match decision {
                Some(Err(e)) => r == Action::Finish(Err(e)) && final(self).tried() == old(self).tried(),
                Some(Ok(Some(g))) => r == Action::Finish(Ok(g)) && final(self).tried() == old(self).tried(),
                _ => if old(self).tried() < old(self).ids().len() {
                    &&& r == Action::Fetch(old(self).ids()[old(self).tried() as int])
                    &&& final(self).tried() == old(self).tried() + 1
                } else {
                    &&& r == Action::Finish(Err(Error::NotFound))
                    &&& final(self).tried() == old(self).tried()
                },
            },
    {
        proof {
            use_type_invariant(&*self);
        }
        match decision {
            Some(Err(e)) => Action::Finish(Err(e)),
            Some(Ok(Some(g))) => Action::Finish(Ok(g)),
            _ => {
                if self.next < self.ids.len() {
                    let id = self.ids[self.next];
                    self.next = self.next + 1;
                    Action::Fetch(id)
                } else {
                    Action::Finish(Err(Error::NotFound))
                }
            },
        }
    }
}

/// The key under which the store's list files an application name.
pub open spec fn app_key(name: Seq<char>) -> Seq<char> {
    lower_of(trimmed_of(name))
}

/// The ids filed under a key, in the order of the list.
pub open spec fn ids_of(entries: Seq<(Seq<char>, u64)>, key: Seq<char>) -> Seq<u64>
    decreases entries.len(),
{
    if entries.len() == 0 {
        Seq::empty()
    } else {
        let rest = ids_of(entries.drop_last(), key);
        if entries.last().0 == key { rest.push(entries.last().1) } else { rest }
    }
}

/// The store's list of applications, filed by trimmed lower-case name. Built
/// once and read by every lookup.
#[derive(Debug)]
pub struct AppTable {
    entries: Vec<(String, u64)>,
}

impl AppTable {
    pub closed spec fn entries(&self) -> Seq<(Seq<char>, u64)> {
        self.entries@.map_values(|e: (String, u64)| (e.0@, e.1))
    }

    pub fn new(apps: Vec<App>) -> (r: AppTable)
        ensures
            r.entries() == apps@.map_values(|a: App| (app_key(a.name@), a.appid)),
    {
        let mut entries: Vec<(String, u64)> = Vec::new();
        let mut i: usize = 0;
        while i < apps.len()
            invariant
                i <= apps@.len(),
                entries@.map_values(|e: (String, u64)| (e.0@, e.1))
                    =~= apps@.take(i as int).map_values(|a: App| (app_key(a.name@), a.appid)),
            decreases apps@.len() - i,
        {
            let key = lowercase(trim(apps[i].name.as_str()));
            let ghost old_entries = entries@;
            entries.push((key, apps[i].appid));
            proof {
                let f = |e: (String, u64)| (e.0@, e.1);
                let g = |a: App| (app_key(a.name@), a.appid);
                assert(entries@.map_values(f) =~= old_entries.map_values(f).push(f(entries@[i as int])));
                assert(apps@.take(i + 1).map_values(g) =~= apps@.take(i as int).map_values(g).push(g(apps@[i as int])));
            }
            i = i + 1;
        }
        assert(apps@.take(i as int) =~= apps@);
        AppTable { entries }
    }

    /// The ids of the applications filed under `name`, in list order.
    pub fn ids(&self, name: &str) -> (r: Vec<u64>)
        ensures
            r@ == ids_of(self.entries(), name@),
    {
        let key = String::from_str(name);
        let mut r: Vec<u64> = Vec::new();
        let mut i: usize = 0;
        while i < self.entries.len()
            invariant
                i <= self.entries@.len(),
                key@ == name@,
                r@ == ids_of(self.entries().take(i as int), name@),
            decreases self.entries@.len() - i,
        {
            assert(self.entries().take(i + 1).drop_last() =~= self.entries().take(i as int));
            if self.entries[i].0 == key {
                r.push(self.entries[i].1);
            }
            i = i + 1;
        }
        assert(self.entries().take(i as int) =~= self.entries());
        r
    }
}

} // verus!
