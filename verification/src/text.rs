//! The full-text matching model: query and document strings are split into
//! space-separated tokens, and a query matches a document when every query
//! token occurs among the document's tokens.

use vstd::prelude::*;

verus! {

/// The index of the first space in `s`, or `s.len()` if there is none.
pub open spec fn first_space(s: Seq<char>) -> int
    decreases s.len(),
{
    if s.len() == 0 {
        0
    } else if s[0] == ' ' {
        0
    } else {
        1 + first_space(s.drop_first())
    }
}

pub proof fn lemma_first_space_bounds(s: Seq<char>)
    ensures
        0 <= first_space(s) <= s.len(),
        forall|j: int| 0 <= j < first_space(s) ==> s[j] != ' ',
        first_space(s) < s.len() ==> s[first_space(s)] == ' ',
    decreases s.len(),
{
    if s.len() > 0 && s[0] != ' ' {
        lemma_first_space_bounds(s.drop_first());
        assert(forall|j: int|
            1 <= j < first_space(s) ==> s[j] == s.drop_first()[j - 1] && s.drop_first()[j - 1]
                != ' ');
    }
}

/// `first_space` is determined by any witness of its characterization.
pub proof fn lemma_first_space_is(s: Seq<char>, k: int)
    requires
        0 <= k <= s.len(),
        forall|j: int| 0 <= j < k ==> s[j] != ' ',
        k < s.len() ==> s[k] == ' ',
    ensures
        first_space(s) == k,
    decreases s.len(),
{
    if s.len() > 0 && s[0] != ' ' {
        assert(forall|j: int|
            0 <= j < k - 1 ==> s.drop_first()[j] == s[j + 1] && s[j + 1] != ' ');
        lemma_first_space_is(s.drop_first(), k - 1);
    }
}

/// The space-separated tokens of `s`, in order: the maximal nonempty runs
/// of non-space characters.
pub open spec fn tokens_of(s: Seq<char>) -> Seq<Seq<char>>
    decreases s.len(),
    via tokens_of_decreases
{
    if s.len() == 0 {
        Seq::empty()
    } else if s[0] == ' ' {
        tokens_of(s.drop_first())
    } else {
        seq![s.take(first_space(s))] + tokens_of(s.skip(first_space(s)))
    }
}

#[via_fn]
proof fn tokens_of_decreases(s: Seq<char>) {
    if s.len() > 0 && s[0] != ' ' {
        lemma_first_space_bounds(s);
    }
}

/// Token `t` occurs in the token sequence `doc`.
pub open spec fn contains_token(doc: Seq<Seq<char>>, t: Seq<char>) -> bool {
    exists|j: int| 0 <= j < doc.len() && doc[j] == t
}

/// Every token of `query` occurs in `doc`.
pub open spec fn tokens_subset(query: Seq<Seq<char>>, doc: Seq<Seq<char>>) -> bool {
    forall|i: int| 0 <= i < query.len() ==> contains_token(doc, #[trigger] query[i])
}

/// The character sequences of a sequence of strings.
pub open spec fn views_of(strings: Seq<String>) -> Seq<Seq<char>> {
    strings.map_values(|s: String| s@)
}

/// Splits `s` into its space-separated tokens.
pub fn tokenize(s: &str) -> (r: Vec<String>)
    ensures
        views_of(r@) == tokens_of(s@),
{
    let n = s.unicode_len();
    let mut out: Vec<String> = Vec::new();
    let mut i: usize = 0;
    proof {
        assert(s@.skip(0) =~= s@);
        assert(views_of(out@) =~= Seq::<Seq<char>>::empty());
        assert(views_of(out@) + tokens_of(s@) =~= tokens_of(s@));
    }
    while i < n
        invariant
            0 <= i <= n,
            n == s@.len(),
            tokens_of(s@) == views_of(out@) + tokens_of(s@.skip(i as int)),
        decreases n - i,
    {
        if s.get_char(i) == ' ' {
            proof {
                assert(s@.skip(i as int)[0] == s@[i as int]);
                assert(s@.skip(i as int).drop_first() =~= s@.skip(i as int + 1));
            }
            i += 1;
        } else {
            let mut j: usize = i + 1;
            while j < n
                invariant
                    i < j <= n,
                    n == s@.len(),
                    forall|m: int| i <= m < j ==> s@[m] != ' ',
                ensures
                    i < j <= n,
                    forall|m: int| i <= m < j ==> s@[m] != ' ',
                    j == n || s@[j as int] == ' ',
                decreases n - j,
            {
                if s.get_char(j) == ' ' {
                    break ;
                }
                j += 1;
            }
            let token = s.substring_char(i, j).to_owned();
            proof {
                let rest = s@.skip(i as int);
                assert(forall|m: int| 0 <= m < j - i ==> rest[m] == s@[m + i] && s@[m + i] != ' ');
                assert(j < n ==> rest[j - i] == s@[j as int] && s@[j as int] == ' ');
                lemma_first_space_is(rest, j - i);
                assert(rest.take(j - i) =~= s@.subrange(i as int, j as int));
                assert(rest.skip(j - i) =~= s@.skip(j as int));
                assert(tokens_of(rest) == seq![rest.take(j - i)] + tokens_of(rest.skip(j - i)));
            }
            out.push(token);
            proof {
                assert(views_of(out@) =~= views_of(out@.drop_last()) + seq![token@]);
                assert(tokens_of(s@) =~= views_of(out@) + tokens_of(s@.skip(j as int)));
            }
            i = j;
        }
    }
    proof {
        assert(s@.skip(n as int) =~= Seq::<char>::empty());
        assert(tokens_of(s@) =~= views_of(out@));
    }
    out
}

/// Whether token `t` occurs in the token list `doc`.
pub fn token_occurs(doc: &Vec<String>, t: &String) -> (r: bool)
    ensures
        r == contains_token(views_of(doc@), t@),
{
    let n = doc.len();
    let mut j: usize = 0;
    while j < n
        invariant
            0 <= j <= n,
            n == doc@.len(),
            forall|m: int| 0 <= m < j ==> views_of(doc@)[m] != t@,
        decreases n - j,
    {
        if doc[j] == *t {
            proof {
                assert(views_of(doc@)[j as int] == t@);
            }
            return true;
        }
        j += 1;
    }
    false
}

/// Whether every token of `query` occurs in the token list `doc`.
pub fn tokens_all_occur(query: &Vec<String>, doc: &Vec<String>) -> (r: bool)
    ensures
        r == tokens_subset(views_of(query@), views_of(doc@)),
{
    let n = query.len();
    let mut i: usize = 0;
    while i < n
        invariant
            0 <= i <= n,
            n == query@.len(),
            forall|m: int| 0 <= m < i ==> contains_token(views_of(doc@), views_of(query@)[m]),
        decreases n - i,
    {
        if !token_occurs(doc, &query[i]) {
            proof {
                assert(views_of(query@)[i as int] == query@[i as int]@);
            }
            return false;
        }
        i += 1;
    }
    true
}

/// A full-text query parsed once into its reusable token form.
pub struct ParsedQuery {
    pub tokens: Vec<String>,
}

impl ParsedQuery {
    /// The tokens this query requires, as character sequences.
    pub open spec fn spec_tokens(self) -> Seq<Seq<char>> {
        views_of(self.tokens@)
    }

    /// Parses a query string into its token form.
    pub fn parse(text: &str) -> (r: ParsedQuery)
        ensures
            r.spec_tokens() == tokens_of(text@),
    {
        ParsedQuery { tokens: tokenize(text) }
    }

    /// Whether the indexed document with token list `doc` satisfies this
    /// query: every query token occurs in the document.
    pub fn check_match(&self, doc: &Vec<String>) -> (r: bool)
        ensures
            r == tokens_subset(self.spec_tokens(), views_of(doc@)),
    {
        tokens_all_occur(&self.tokens, doc)
    }
}

} // verus!
