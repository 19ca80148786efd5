use crate::error::Error;
use crate::text::{fixed2_text, format_num, i64_text, int_text, separator, with_field};
use vstd::prelude::*;

verus! {

/// What the critic aggregator knows of a game. Scores are in hundredths.
#[derive(Debug)]
pub struct GameData {
    pub name: String,
    pub tier: String,
    pub percentile: Option<i8>,
    pub percent_recommended: Option<u64>,
    pub top_critic_score: Option<u64>,
    pub average_score: Option<u64>,
}

/// A search hit of the critic aggregator.
#[derive(Debug)]
pub struct SearchResult {
    pub id: u64,
    pub name: String,
    /// Whether the hit is at distance zero from the query.
    pub exact: bool,
}

/// The scores of a game as the service sends them: a negative number means
/// that the service has no such score. Scores are in hundredths.
#[derive(Debug)]
pub struct GameResponse {
    pub tier: String,
    pub percentile: i8,
    pub percent_recommended: i64,
    pub top_critic_score: i64,
    pub average_score: i64,
}

/// A score that the service sent, where it is not negative.
pub open spec fn known(num: i64) -> Option<u64> {
    if num >= 0 { Some(num as u64) } else { None }
}

/// Keeps a number of the service's, unless it is negative (no such score).
pub fn parse_response_num(num: i64) -> (r: Option<u64>)
    ensures
        r == known(num),
{
    if num >= 0 {
        Some(num as u64)
    } else {
        None
    }
}

/// Picks the first search hit that matches the query exactly; the others are
/// other games.
pub fn pick_exact(hits: Vec<SearchResult>) -> (r: Option<SearchResult>)
    ensures
        r is None <==> forall|i: int| 0 <= i < hits@.len() ==> !#[trigger] hits@[i].exact,
        r is Some ==> exists|i: int|
            0 <= i < hits@.len() && hits@[i] == r->Some_0 && hits@[i].exact
                && forall|k: int| 0 <= k < i ==> !#[trigger] hits@[k].exact,
{
    let mut rest = hits;
    let ghost n: int = 0;
    while rest.len() > 0
        invariant
            0 <= n <= hits@.len(),
            rest@ == hits@.skip(n),
            forall|k: int| 0 <= k < n ==> !#[trigger] hits@[k].exact,
        decreases rest@.len(),
    {
        let ghost before = rest@;
        let hit = rest.remove(0);
        assert(hit == hits@[n]);
        if hit.exact {
            return Some(hit);
        }
        assert(rest@ =~= hits@.skip(n + 1));
        proof {
            n = n + 1;
        }
    }
    None
}

impl GameData {
    /// The record for a hit and the scores fetched for it; negative scores are
    /// left out.
    pub fn from_response(hit: SearchResult, response: GameResponse) -> (r: GameData)
        ensures
            r.name == hit.name,
            r.tier == response.tier,
            r.percentile == (if response.percentile >= 0 { Some(response.percentile) } else { None::<i8> }),
            r.percent_recommended == known(response.percent_recommended),
            r.top_critic_score == known(response.top_critic_score),
            r.average_score == known(response.average_score),
    {
        let percentile = if response.percentile >= 0 { Some(response.percentile) } else { None };
        GameData {
            name: hit.name,
            tier: response.tier,
            percentile,
            percent_recommended: parse_response_num(response.percent_recommended),
            top_critic_score: parse_response_num(response.top_critic_score),
            average_score: parse_response_num(response.average_score),
        }
    }
}

pub open spec fn num_field(desc: Seq<char>, n: Option<u64>) -> Option<Seq<char>> {
    match n {
        Some(n) => Some(fixed2_text(n as nat) + desc),
        None => None,
    }
}

impl GameData {
    /// The tier, then the known scores separated by commas, in parentheses
    /// after a tier; with neither, `None found`.
    pub open spec fn summary_text(&self) -> Seq<char> {
        let head = if self.tier@.len() == 0 { Seq::empty() } else { self.tier@ + " ("@ };
        let p = match self.percentile {
            Some(p) => Some("top "@ + int_text(100 - p) + "%"@),
            None => None,
        };
        let a = with_field((head, true), p);
        let b = with_field(a, num_field(" top critic average"@, self.top_critic_score));
        let c = with_field(b, num_field("% recommend"@, self.percent_recommended));
        let d = with_field(c, num_field(" average score"@, self.average_score));
        if self.tier@.len() == 0 {
            if d.1 { d.0 + "None found"@ } else { d.0 }
        } else {
            d.0 + ")"@
        }
    }

    pub fn summary(&self) -> (r: String)
        ensures
            r@ == self.summary_text(),
    {
        let ghost head = if self.tier@.len() == 0 { Seq::empty() } else { self.tier@ + " ("@ };
        let ghost p = match self.percentile {
            Some(p) => Some("top "@ + int_text(100 - p) + "%"@),
            None => None,
        };
        let mut f = String::new();
        let tier_empty = self.tier.as_str().unicode_len() == 0;
        if !tier_empty {
            f.append(self.tier.as_str());
            f.append(" (");
        }
        assert(f@ =~= head);
        let mut first = true;
        if let Some(percentile) = self.percentile {
            f.append("top ");
            let t = i64_text(100 - percentile as i64);
            f.append(t.as_str());
            f.append("%");
            first = false;
        }
        let ghost a = with_field((head, true), p);
        assert(f@ =~= a.0 && first == a.1) by {
            if self.percentile is Some {
                assert(separator(true) =~= Seq::<char>::empty());
            }
        }
        format_num(&mut f, " top critic average", &self.top_critic_score, &mut first);
        let ghost b = with_field(a, num_field(" top critic average"@, self.top_critic_score));
        assert(f@ =~= b.0 && first == b.1);
        format_num(&mut f, "% recommend", &self.percent_recommended, &mut first);
        let ghost c = with_field(b, num_field("% recommend"@, self.percent_recommended));
        assert(f@ =~= c.0 && first == c.1);
        format_num(&mut f, " average score", &self.average_score, &mut first);
        let ghost d = with_field(c, num_field(" average score"@, self.average_score));
        assert(f@ =~= d.0 && first == d.1);
        if tier_empty {
            if first {
                f.append("None found");
            }
        } else {
            f.append(")");
        }
        proof {
            assert(f@ =~= self.summary_text());
        }
        f
    }
}

} // verus!
