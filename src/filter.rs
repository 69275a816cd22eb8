//! Filters: comma-separated clauses, each a regular expression that a subject
//! must match (positive clause) or must not match (negative clause, `!pat`).
//! A clause `\!pat` is positive and its pattern keeps the leading `!`.
use regex::Regex;
use vstd::prelude::*;

verus! {

#[verifier::external_type_specification]
#[verifier::external_body]
pub struct ExRegex(Regex);

#[verifier::external_type_specification]
#[verifier::external_body]
pub struct ExRegexError(regex::Error);

/// Whether `regex::Regex::new` accepts `pattern`.
pub uninterp spec fn regex_valid(pattern: Seq<char>) -> bool;

/// What `regex::Regex::is_match` returns on `subject` for the regex that
/// `regex::Regex::new` built from `pattern`.
pub uninterp spec fn regex_is_match(pattern: Seq<char>, subject: Seq<char>) -> bool;

/// The text of a filter split at every `,`; a text without a comma is one
/// piece, and the empty text is one empty piece.
pub open spec fn split_commas(s: Seq<char>) -> Seq<Seq<char>>
    decreases s.len(),
{
    if s.len() == 0 {
        seq![Seq::<char>::empty()]
    } else {
        let init = split_commas(s.drop_last());
        if s.last() == ',' {
            init.push(Seq::<char>::empty())
        } else {
            init.update(init.len() - 1, init.last().push(s.last()))
        }
    }
}

/// One clause text read as (pattern, polarity): `true` requires a match.
pub open spec fn clause_of(c: Seq<char>) -> (Seq<char>, bool) {
    if c.len() > 0 && c[0] == '!' {
        (c.drop_first(), false)
    } else if c.len() > 1 && c[0] == '\\' && c[1] == '!' {
        (c.drop_first(), true)
    } else {
        (c, true)
    }
}

/// The clauses that a filter text stands for, in order.
pub open spec fn clauses_of(s: Seq<char>) -> Seq<(Seq<char>, bool)> {
    split_commas(s).map_values(|c: Seq<char>| clause_of(c))
}

/// A subject satisfies a list of clauses when each clause's pattern matches it
/// exactly when the clause is positive.
pub open spec fn clauses_match(f: Seq<(Seq<char>, bool)>, subject: Seq<char>) -> bool {
    forall|i: int| 0 <= i < f.len() ==> regex_is_match(#[trigger] f[i].0, subject) == f[i].1
}

/// Whether every clause's pattern is a valid regular expression.
pub open spec fn all_valid(f: Seq<(Seq<char>, bool)>) -> bool {
    forall|i: int| 0 <= i < f.len() ==> regex_valid(#[trigger] f[i].0)
}

/// Splitting always gives at least one piece.
pub proof fn lemma_split_commas_len(s: Seq<char>)
    ensures
        split_commas(s).len() >= 1,
    decreases s.len(),
{
    if s.len() > 0 {
        lemma_split_commas_len(s.drop_last());
    }
}

/// A text without a comma is a single clause.
pub proof fn lemma_split_no_comma(s: Seq<char>)
    requires
        forall|i: int| 0 <= i < s.len() ==> s[i] != ',',
    ensures
        split_commas(s) == seq![s],
    decreases s.len(),
{
    if s.len() > 0 {
        let t = s.drop_last();
        assert forall|i: int| 0 <= i < t.len() implies t[i] != ',' by {
            assert(t[i] == s[i]);
        }
        lemma_split_no_comma(t);
        assert(s.last() == s[s.len() - 1]);
        assert(s.last() != ',');
        assert(seq![t].last() == t);
        assert(t.push(s.last()) =~= s);
        assert(seq![t].update(0, t.push(s.last())) =~= seq![s]);
        assert(split_commas(s) == seq![t].update(seq![t].len() - 1, seq![t].last().push(s.last())));
    } else {
        assert(s =~= Seq::<char>::empty());
    }
}

/// One clause of a filter, tagged by polarity.
#[derive(Clone, Debug, PartialEq, Eq)]
pub enum Clause {
    /// The pattern must match.
    Positive(String),
    /// The pattern must not match.
    Negative(String),
}

impl Clause {
    /// The clause's pattern.
    pub open spec fn spec_pattern(&self) -> Seq<char> {
        match self {
            Clause::Positive(p) => p@,
            Clause::Negative(p) => p@,
        }
    }

    /// Whether the clause requires a match.
    pub open spec fn spec_positive(&self) -> bool {
        self is Positive
    }

    /// The clause as (pattern, polarity).
    pub open spec fn view_pair(&self) -> (Seq<char>, bool) {
        (self.spec_pattern(), self.spec_positive())
    }

    /// Reads one clause text: a leading `!` makes it negative and is dropped;
    /// a leading `\!` keeps it positive and drops the backslash.
    pub fn parse(text: &str) -> (r: Clause)
        ensures
            r.view_pair() == clause_of(text@),
    {
        let n = text.unicode_len();
        if n > 0 && text.get_char(0) == '!' {
            Clause::Negative(text.substring_char(1, n).to_owned())
        } else if n > 1 && text.get_char(0) == '\\' && text.get_char(1) == '!' {
            Clause::Positive(text.substring_char(1, n).to_owned())
        } else {
            Clause::Positive(text.to_owned())
        }
    }

    /// The clause's pattern.
    pub fn pattern(&self) -> (r: &String)
        ensures
            r@ == self.spec_pattern(),
    {
        match self {
            Clause::Positive(p) => p,
            Clause::Negative(p) => p,
        }
    }

    /// Whether the clause requires a match.
    pub fn is_positive(&self) -> (r: bool)
        ensures
            r == self.spec_positive(),
    {
        match self {
            Clause::Positive(_) => true,
            Clause::Negative(_) => false,
        }
    }
}

/// Splits a filter text at every `,`.
pub fn split_clauses(s: &str) -> (r: Vec<String>)
    ensures
        r@.map_values(|p: String| p@) == split_commas(s@),
{
    let n = s.unicode_len();
    let mut pieces: Vec<String> = Vec::new();
    let mut start: usize = 0;
    let mut i: usize = 0;
    assert(s@.take(0) =~= Seq::<char>::empty());
    assert(s@.subrange(0, 0) =~= Seq::<char>::empty());
    assert(pieces@.map_values(|p: String| p@).push(s@.subrange(0, 0)) =~= seq![Seq::<char>::empty()]);
    while i < n
        invariant
            n == s@.len(),
            start <= i <= n,
            pieces@.map_values(|p: String| p@).push(s@.subrange(start as int, i as int))
                == split_commas(s@.take(i as int)),
        decreases n - i,
    {
        let c = s.get_char(i);
        let ghost before = pieces@.map_values(|p: String| p@);
        proof {
            assert(s@.take(i + 1).drop_last() =~= s@.take(i as int));
            assert(s@.take(i + 1).last() == c);
            lemma_split_commas_len(s@.take(i as int));
        }
        if c == ',' {
            let ghost old_start = start;
            let piece = s.substring_char(start, i).to_owned();
            pieces.push(piece);
            start = i + 1;
            proof {
                assert(pieces@.map_values(|p: String| p@) =~= before.push(
                    s@.subrange(old_start as int, i as int),
                ));
            }
        }
        i = i + 1;
        proof {
            if c != ',' {
                assert(s@.subrange(start as int, i as int) =~= s@.subrange(
                    start as int,
                    (i - 1) as int,
                ).push(c));
                assert(before.push(s@.subrange(start as int, i as int)) =~= before.push(
                    s@.subrange(start as int, (i - 1) as int),
                ).update(before.len() as int, s@.subrange(start as int, (i - 1) as int).push(c)));
            } else {
                assert(s@.subrange(start as int, i as int) =~= Seq::<char>::empty());
            }
        }
    }
    assert(s@.take(n as int) =~= s@);
    let last = s.substring_char(start, n).to_owned();
    pieces.push(last);
    assert(pieces@.map_values(|p: String| p@) =~= split_commas(s@));
    pieces
}

/// A compiled clause: the clause and the regex built from its pattern. Only
/// `compile_rule` makes one.
#[derive(Debug)]
struct Rule {
    clause: Clause,
    regex: Regex,
}

/// Relies on `regex::Regex::new`: it accepts a pattern or not depending on the
/// pattern's text alone. The rule pairs the clause with the regex built from
/// its pattern.
#[verifier::external_body]
fn compile_rule(clause: Clause) -> (r: Result<Rule, regex::Error>)
    ensures
        r is Ok <==> regex_valid(clause.spec_pattern()),
        r matches Ok(rule) ==> rule.clause == clause,
{
    Regex::new(clause.pattern()).map(|regex| Rule { clause, regex })
}

/// Relies on `regex::Regex::is_match`, on the regex that `compile_rule` built
/// from the rule's pattern.
#[verifier::external_body]
fn rule_regex_matches(rule: &Rule, subject: &str) -> (r: bool)
    ensures
        r == regex_is_match(rule.clause.spec_pattern(), subject@),
{
    rule.regex.is_match(subject)
}

/// Why a filter text was refused.
#[derive(Clone, Debug, PartialEq, Eq)]
pub enum FilterError {
    /// The pattern of this clause is not a valid regular expression.
    InvalidPattern(String),
}

/// A compiled filter: all of its clauses must hold.
#[derive(Debug)]
pub struct Filter {
    rules: Vec<Rule>,
}

impl View for Filter {
    type V = Seq<(Seq<char>, bool)>;

    closed spec fn view(&self) -> Seq<(Seq<char>, bool)> {
        self.rules@.map_values(|r: Rule| r.clause.view_pair())
    }
}

impl Filter {
    /// Compiles a filter text. It fails on the first clause whose pattern is
    /// not a valid regular expression, naming that pattern.
    pub fn parse(s: &str) -> (r: Result<Filter, FilterError>)
        ensures
            r is Ok <==> all_valid(clauses_of(s@)),
            r matches Ok(f) ==> f@ == clauses_of(s@),
            r matches Err(FilterError::InvalidPattern(p)) ==> exists|k: int|
                0 <= k < clauses_of(s@).len() && !regex_valid(#[trigger] clauses_of(s@)[k].0)
                    && p@ == clauses_of(s@)[k].0 && forall|j: int|
                    0 <= j < k ==> regex_valid(#[trigger] clauses_of(s@)[j].0),
    {
        let texts = split_clauses(s);
        let ghost cs = clauses_of(s@);
        let mut rules: Vec<Rule> = Vec::new();
        let mut i: usize = 0;
        while i < texts.len()
            invariant
                i <= texts@.len(),
                texts@.map_values(|p: String| p@) == split_commas(s@),
                cs == clauses_of(s@),
                cs.len() == texts@.len(),
                rules@.map_values(|r: Rule| r.clause.view_pair()) == cs.take(i as int),
                forall|j: int| 0 <= j < i ==> regex_valid(#[trigger] cs[j].0),
            decreases texts.len() - i,
        {
            let clause = Clause::parse(texts[i].as_str());
            proof {
                assert(texts@.map_values(|p: String| p@)[i as int] == texts@[i as int]@);
                assert(cs[i as int] == clause_of(texts@[i as int]@));
            }
            let p = clause.pattern().clone();
            let ghost pair = clause.view_pair();
            match compile_rule(clause) {
                Ok(rule) => {
                    let ghost prev = rules@;
                    rules.push(rule);
                    proof {
                        assert(rules@.map_values(|r: Rule| r.clause.view_pair()) =~= prev.map_values(
                            |r: Rule| r.clause.view_pair(),
                        ).push(pair));
                        assert(cs.take(i + 1) =~= cs.take(i as int).push(cs[i as int]));
                    }
                },
                Err(_) => {
                    assert(!regex_valid(cs[i as int].0));
                    assert(!all_valid(cs));
                    return Err(FilterError::InvalidPattern(p));
                },
            }
            i = i + 1;
        }
        assert(cs.take(i as int) =~= cs);
        Ok(Filter { rules })
    }

    /// Whether `subject` satisfies every clause; the first clause that fails
    /// ends the evaluation.
    pub fn is_match(&self, s: &str) -> (r: bool)
        ensures
            r == clauses_match(self@, s@),
    {
        let mut i: usize = 0;
        while i < self.rules.len()
            invariant
                i <= self.rules@.len(),
                self@ == self.rules@.map_values(|r: Rule| r.clause.view_pair()),
                forall|j: int|
                    0 <= j < i ==> regex_is_match(#[trigger] self@[j].0, s@) == self@[j].1,
            decreases self.rules.len() - i,
        {
            let rule = &self.rules[i];
            let m = rule_regex_matches(rule, s);
            if m != rule.clause.is_positive() {
                assert(self@[i as int] == rule.clause.view_pair());
                assert(regex_is_match(self@[i as int].0, s@) != self@[i as int].1);
                return false;
            }
            i = i + 1;
        }
        true
    }
}

/// An empty filter (no clauses) matches every subject.
pub proof fn lemma_empty_filter_matches_all(f: Seq<(Seq<char>, bool)>, subject: Seq<char>)
    requires
        f.len() == 0,
    ensures
        clauses_match(f, subject),
{
}

/// A clause `!p` (with no comma in `p`) holds of a subject exactly when `p`
/// does not match it; a clause `\!p` holds exactly when the pattern `!p`,
/// with its literal leading `!`, matches it.
pub proof fn lemma_clause_polarity(p: Seq<char>, subject: Seq<char>)
    requires
        forall|i: int| 0 <= i < p.len() ==> p[i] != ',',
    ensures
        clauses_of(seq!['!'] + p) == seq![(p, false)],
        clauses_match(clauses_of(seq!['!'] + p), subject) <==> !regex_is_match(p, subject),
        clauses_of(seq!['\\', '!'] + p) == seq![(seq!['!'] + p, true)],
        clauses_match(clauses_of(seq!['\\', '!'] + p), subject) <==> regex_is_match(
            seq!['!'] + p,
            subject,
        ),
{
    let neg = seq!['!'] + p;
    let esc = seq!['\\', '!'] + p;
    assert forall|i: int| 0 <= i < neg.len() implies neg[i] != ',' by {
        if i > 0 {
            assert(neg[i] == p[i - 1]);
        }
    }
    assert forall|i: int| 0 <= i < esc.len() implies esc[i] != ',' by {
        if i > 1 {
            assert(esc[i] == p[i - 2]);
        }
    }
    lemma_split_no_comma(neg);
    lemma_split_no_comma(esc);
    assert(neg.drop_first() =~= p);
    assert(esc.drop_first() =~= seq!['!'] + p);
    assert(clauses_of(neg) =~= seq![(p, false)]);
    assert(clauses_of(esc) =~= seq![(seq!['!'] + p, true)]);
    let fa = clauses_of(neg);
    let fb = clauses_of(esc);
    if clauses_match(fa, subject) {
        assert(fa[0].0 == p);
    }
    if clauses_match(fb, subject) {
        assert(fb[0].0 == seq!['!'] + p);
    }
}

} // verus!
