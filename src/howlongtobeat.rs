use crate::error::Error;
use crate::text::{format_time, lower_of, lowercase, short_text, with_field};
use vstd::prelude::*;

verus! {

/// How long a game takes to complete, in hundredths of an hour.
#[derive(Debug)]
pub struct GameData {
    pub name: String,
    pub main_story: Option<u64>,
    pub main_plus_extra: Option<u64>,
    pub completionist: Option<u64>,
}

pub open spec fn time_field(name: Seq<char>, t: Option<u64>) -> Option<Seq<char>> {
    match t {
        Some(t) => Some(name + " - "@ + short_text(t as nat) + " hours"@),
        None => None,
    }
}

impl GameData {
    /// The known times, separated by commas, or `None found`.
    pub open spec fn summary_text(&self) -> Seq<char> {
        let a = with_field((Seq::empty(), true), time_field("Main Story"@, self.main_story));
        let b = with_field(a, time_field("Main + Extra"@, self.main_plus_extra));
        let c = with_field(b, time_field("Completionist"@, self.completionist));
        if c.1 { c.0 + "None found"@ } else { c.0 }
    }

    pub fn summary(&self) -> (r: String)
        ensures
            r@ == self.summary_text(),
    {
        let mut f = String::new();
        let mut first = true;
        proof {
            reveal_strlit(" - ");
            reveal_strlit(" hours");
        }
        format_time(&mut f, "Main Story", &self.main_story, &mut first);
        format_time(&mut f, "Main + Extra", &self.main_plus_extra, &mut first);
        format_time(&mut f, "Completionist", &self.completionist, &mut first);
        if first {
            f.append("None found");
        }
        proof {
            let a = with_field((Seq::empty(), true), time_field("Main Story"@, self.main_story));
            let b = with_field(a, time_field("Main + Extra"@, self.main_plus_extra));
            let c = with_field(b, time_field("Completionist"@, self.completionist));
            assert(f@ =~= self.summary_text());
        }
        f
    }
}

/// A hit of the search page: the title of its heading link, where it has one,
/// and the texts of its detail cells, in page order.
#[derive(Debug)]
pub struct Entry {
    pub title: Option<String>,
    pub tidbits: Vec<String>,
}

pub open spec fn entry_view(e: Entry) -> (Option<Seq<char>>, Seq<Seq<char>>) {
    (
        match e.title {
            Some(t) => Some(t@),
            None => None,
        },
        e.tidbits@.map_values(|t: String| t@),
    )
}

/// The hits that the search page lists, as scraper reads them from the page.
pub uninterp spec fn listed_entries(html: Seq<char>) -> Seq<(Option<Seq<char>>, Seq<Seq<char>>)>;

/// Relies on a chain of scraper calls: `Html::parse_fragment` on the page,
/// `Selector::parse` of three fixed selectors, `select` and `inner_html`. For
/// each `li` of the page it gives the inner HTML of the first `h3 a` in it,
/// where there is one, and that of each `div.search_list_tidbit` in it, in
/// page order. With scraper's `deterministic` feature an element's attributes
/// keep their source order, so the serialized HTML depends on the page alone.
#[verifier::external_body]
fn parse_entries(html: &str) -> (r: Vec<Entry>)
    ensures
        r@.map_values(|e: Entry| entry_view(e)) == listed_entries(html@),
{
    let fragment = scraper::Html::parse_fragment(html);
    let li = scraper::Selector::parse("li").unwrap();
    let h3 = scraper::Selector::parse("h3 a").unwrap();
    let time = scraper::Selector::parse("div.search_list_tidbit").unwrap();
    fragment.select(&li).map(|e| Entry {
        title: e.select(&h3).next().map(|a| a.inner_html()),
        tidbits: e.select(&time).map(|d| d.inner_html()).collect(),
    }).collect()
}

/// The texts of the hit that matched: its title and its three times, as the
/// page writes them.
#[derive(Debug)]
pub struct Match {
    pub name: String,
    pub main_story: String,
    pub main_plus_extra: String,
    pub completionist: String,
}

/// A hit whose title, in lower case, is the query.
pub open spec fn is_hit(e: (Option<Seq<char>>, Seq<Seq<char>>), name: Seq<char>) -> bool {
    e.0 is Some && lower_of(e.0->Some_0) == name
}

/// The position of the first hit for the query, if any.
pub open spec fn first_hit(es: Seq<(Option<Seq<char>>, Seq<Seq<char>>)>, name: Seq<char>) -> Option<int> {
    if exists|i: int| 0 <= i < es.len() && is_hit(es[i], name) {
        Some(choose|i: int| 0 <= i < es.len() && is_hit(es[i], name)
            && forall|k: int| 0 <= k < i ==> !is_hit(#[trigger] es[k], name))
    } else {
        None
    }
}

/// What the search gives for the query: the first hit, whose detail cells
/// hold a label and a time in turn (`Main Story`, its time, `Main + Extra`,
/// ...); a hit without all six cells is a malformed page.
pub open spec fn picked(es: Seq<(Option<Seq<char>>, Seq<Seq<char>>)>, name: Seq<char>) -> Result<
    (Seq<char>, Seq<char>, Seq<char>, Seq<char>),
    Error,
> {
    match first_hit(es, name) {
        None => Err(Error::NotFound),
        Some(i) => if es[i].1.len() < 6 {
            Err(Error::Deserialization)
        } else {
            Ok((es[i].0->Some_0, es[i].1[1], es[i].1[3], es[i].1[5]))
        },
    }
}

pub open spec fn match_view(m: Match) -> (Seq<char>, Seq<char>, Seq<char>, Seq<char>) {
    (m.name@, m.main_story@, m.main_plus_extra@, m.completionist@)
}

/// Picks the hit for the query among the hits of a search page.
pub fn pick_entry(entries: Vec<Entry>, name: &str) -> (r: Result<Match, Error>)
    ensures
        match picked(entries@.map_values(|e: Entry| entry_view(e)), name@) {
            Ok(m) => r is Ok && match_view(r->Ok_0) == m,
            Err(e) => r == Err::<Match, Error>(e),
        },
{
    let ghost es = entries@.map_values(|e: Entry| entry_view(e));
    let mut rest = entries;
    let ghost n: int = 0;
    while rest.len() > 0
        invariant
            0 <= n <= es.len(),
            es == entries@.map_values(|e: Entry| entry_view(e)),
            es.len() == n + rest@.len(),
            forall|k: int| 0 <= k < rest@.len() ==> entry_view(#[trigger] rest@[k]) == es[n + k],
            forall|k: int| 0 <= k < n ==> !is_hit(#[trigger] es[k], name@),
        decreases rest@.len(),
    {
        let ghost before = rest@;
        let mut e = rest.remove(0);
        assert(entry_view(e) == es[n]);
        assert forall|k: int| 0 <= k < rest@.len() implies entry_view(#[trigger] rest@[k]) == es[n + 1 + k] by {
            assert(rest@[k] == before[k + 1]);
        }
        let hit = match &e.title {
            Some(t) => {
                let l = lowercase(t.as_str());
                let q = String::from_str(name);
                l == q
            },
            None => false,
        };
        if hit {
            assert(is_hit(es[n], name@));
            assert(first_hit(es, name@) == Some(n)) by {
                let j = choose|i: int| 0 <= i < es.len() && is_hit(es[i], name@)
                    && forall|k: int| 0 <= k < i ==> !is_hit(#[trigger] es[k], name@);
                assert(0 <= j < es.len() && is_hit(es[j], name@));
                if j < n {
                    assert(!is_hit(es[j], name@));
                }
                if j > n {
                    assert(!is_hit(es[n], name@));
                }
            }
            if e.tidbits.len() < 6 {
                return Err(Error::Deserialization);
            }
            let completionist = e.tidbits.remove(5);
            let main_plus_extra = e.tidbits.remove(3);
            let main_story = e.tidbits.remove(1);
            let title = match e.title {
                Some(t) => t,
                None => String::new(),
            };
            return Ok(Match { name: title, main_story, main_plus_extra, completionist });
        }
        proof {
            n = n + 1;
        }
    }
    Err(Error::NotFound)
}

/// Finds the query among the hits of a search page.
pub fn find_entry(html: &str, name: &str) -> (r: Result<Match, Error>)
    ensures
        match picked(listed_entries(html@), name@) {
            Ok(m) => r is Ok && match_view(r->Ok_0) == m,
            Err(e) => r == Err::<Match, Error>(e),
        },
{
    let entries = parse_entries(html);
    pick_entry(entries, name)
}

/// The text with each `Â½` (a one-half sign read as Latin-1) written as `.5`.
pub open spec fn halves_fixed(s: Seq<char>) -> Seq<char>
    decreases s.len(),
{
    if s.len() < 2 {
        s
    } else if s[0] == 'Â' && s[1] == '½' {
        seq!['.', '5'] + halves_fixed(s.skip(2))
    } else {
        seq![s[0]] + halves_fixed(s.drop_first())
    }
}

/// The text up to its first space.
pub open spec fn first_word(s: Seq<char>) -> Seq<char>
    decreases s.len(),
{
    if s.len() == 0 || s[0] == ' ' {
        Seq::empty()
    } else {
        seq![s[0]] + first_word(s.drop_first())
    }
}

/// The number of hours in a time cell such as `12Â½ Hours`: `12.5`.
pub fn time_token(text: &str) -> (r: String)
    ensures
        r@ == first_word(halves_fixed(text@)),
{
    let n = text.unicode_len();
    let mut out = String::new();
    let mut i: usize = 0;
    assert(text@.skip(0) =~= text@);
    assert(out@ + first_word(halves_fixed(text@)) =~= first_word(halves_fixed(text@)));
    while i < n
        invariant
            n == text@.len(),
            i <= n,
            first_word(halves_fixed(text@)) == out@ + first_word(halves_fixed(text@.skip(i as int))),
        decreases n - i,
    {
        let ghost rest = text@.skip(i as int);
        let c = text.get_char(i);
        assert(rest[0] == c);
        if c == ' ' {
            proof {
                if rest.len() >= 2 {
                    assert(halves_fixed(rest) == seq![rest[0]] + halves_fixed(rest.drop_first()));
                }
                assert(halves_fixed(rest)[0] == ' ');
            }
            assert(out@ + Seq::<char>::empty() =~= out@);
            return out;
        }
        if c == 'Â' && i + 1 < n && text.get_char(i + 1) == '½' {
            out.append(".5");
            proof {
                reveal_strlit(".5");
                assert(rest[1] == '½');
                assert(rest.skip(2) =~= text@.skip(i + 2));
                let h = halves_fixed(rest);
                assert(h == seq!['.', '5'] + halves_fixed(rest.skip(2)));
                assert(h.drop_first() =~= seq!['5'] + halves_fixed(rest.skip(2)));
                assert(h.drop_first().drop_first() =~= halves_fixed(rest.skip(2)));
                assert(first_word(h) == seq!['.'] + first_word(h.drop_first()));
                assert(first_word(h.drop_first()) == seq!['5'] + first_word(h.drop_first().drop_first()));
            }
            i = i + 2;
        } else {
            out.append(text.substring_char(i, i + 1));
            proof {
                assert(text@.subrange(i as int, i + 1) =~= seq![c]);
                assert(rest.drop_first() =~= text@.skip(i + 1));
                let h = halves_fixed(rest);
                if rest.len() >= 2 {
                    assert(h == seq![c] + halves_fixed(rest.drop_first()));
                } else {
                    assert(rest.drop_first().len() == 0);
                    assert(h == seq![c] + halves_fixed(rest.drop_first()));
                }
                assert(h.drop_first() =~= halves_fixed(rest.drop_first()));
                assert(first_word(h) == seq![c] + first_word(h.drop_first()));
            }
            i = i + 1;
        }
    }
    proof {
        assert(text@.skip(i as int).len() == 0);
    }
    assert(out@ + Seq::<char>::empty() =~= out@);
    out
}

} // verus!
