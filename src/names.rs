use crate::error::Error;
use crate::text::{lower_of, lowercase};
use vstd::prelude::*;

verus! {

/// The pieces of a text between the `|` that separate them; a text with no
/// `|` is one piece.
pub open spec fn bar_pieces(s: Seq<char>) -> Seq<Seq<char>>
    decreases s.len(),
{
    if s.len() == 0 {
        seq![Seq::empty()]
    } else {
        let p = bar_pieces(s.drop_last());
        if s.last() == '|' {
            p.push(Seq::empty())
        } else {
            p.update(p.len() - 1, p.last().push(s.last()))
        }
    }
}

pub proof fn lemma_bar_pieces_non_empty(s: Seq<char>)
    ensures
        bar_pieces(s).len() >= 1,
    decreases s.len(),
{
    if s.len() > 0 {
        lemma_bar_pieces_non_empty(s.drop_last());
    }
}

/// The aliases under which one game is looked up, in the order they are tried.
#[derive(Debug)]
pub struct Names(Vec<String>);

impl Names {
    #[verifier::type_invariant]
    spec fn non_empty(&self) -> bool {
        self.0@.len() > 0
    }

    pub closed spec fn aliases(&self) -> Seq<Seq<char>> {
        self.0@.map_values(|a: String| a@)
    }

    /// The first alias, which stands for the group where nothing else names it.
    pub closed spec fn first_alias(&self) -> String {
        self.0@[0]
    }

    /// The first alias is the first of the aliases.
    pub proof fn lemma_first_alias(&self)
        ensures
            self.aliases().len() > 0 ==> self.first_alias()@ == self.aliases()[0],
    {
    }

    pub fn into_first(self) -> (r: String)
        ensures
            r == self.first_alias(),
    {
        proof {
            use_type_invariant(&self);
        }
        let mut v = self.0;
        v.remove(0)
    }

    pub fn len(&self) -> (r: usize)
        ensures
            r == self.aliases().len(),
    {
        self.0.len()
    }

    /// The alias at `i`.
    pub fn alias(&self, i: usize) -> (r: &String)
        requires
            i < self.aliases().len(),
        ensures
            r@ == self.aliases()[i as int],
    {
        &self.0[i]
    }

    /// Reads a group written as aliases separated by `|`, each in lower case.
    pub fn from_str(s: &str) -> (r: Result<Names, Error>)
        ensures
            r is Ok,
            r->Ok_0.aliases() == bar_pieces(s@).map_values(|p: Seq<char>| lower_of(p)),
            r->Ok_0.aliases().len() >= 1,
    {
        proof {
            lemma_bar_pieces_non_empty(s@);
        }
        let n = s.unicode_len();
        let mut pieces: Vec<String> = Vec::new();
        let mut cur = String::new();
        let mut i: usize = 0;
        while i < n
            invariant
                n == s@.len(),
                i <= n,
                pieces@.map_values(|a: String| a@).push(cur@) == bar_pieces(s@.take(i as int)),
            decreases n - i,
        {
            let c = s.get_char(i);
            let ghost prefix = s@.take(i as int);
            let ghost old_pieces = pieces@;
            let ghost old_cur = cur@;
            proof {
                lemma_bar_pieces_non_empty(prefix);
                assert(s@.take(i + 1).drop_last() =~= prefix);
                assert(s@.take(i + 1).last() == c);
            }
            if c == '|' {
                let done = cur;
                pieces.push(done);
                cur = String::new();
                assert(pieces@.map_values(|a: String| a@).push(cur@)
                    =~= old_pieces.map_values(|a: String| a@).push(old_cur).push(Seq::empty()));
            } else {
                cur.append(s.substring_char(i, i + 1));
                assert(s@.subrange(i as int, i + 1) =~= seq![c]);
                assert(cur@ =~= old_cur.push(c));
                assert(pieces@.map_values(|a: String| a@).push(cur@)
                    =~= old_pieces.map_values(|a: String| a@).push(old_cur).update(old_pieces.len() as int, old_cur.push(c)));
            }
            i = i + 1;
        }
        assert(s@.take(n as int) =~= s@);
        pieces.push(cur);
        let ghost raw = pieces@.map_values(|a: String| a@);
        let mut lowered: Vec<String> = Vec::new();
        let mut k: usize = 0;
        while k < pieces.len()
            invariant
                k <= pieces@.len(),
                raw == pieces@.map_values(|a: String| a@),
                lowered@.map_values(|a: String| a@) =~= raw.take(k as int).map_values(|p: Seq<char>| lower_of(p)),
            decreases pieces@.len() - k,
        {
            let l = lowercase(pieces[k].as_str());
            let ghost old_lowered = lowered@;
            lowered.push(l);
            proof {
                assert(lowered@.map_values(|a: String| a@) =~= old_lowered.map_values(|a: String| a@).push(l@));
                assert(raw.take(k + 1).map_values(|p: Seq<char>| lower_of(p))
                    =~= raw.take(k as int).map_values(|p: Seq<char>| lower_of(p)).push(lower_of(raw[k as int])));
            }
            k = k + 1;
        }
        assert(raw.take(k as int) =~= raw);
        Ok(Names(lowered))
    }
}

} // verus!
