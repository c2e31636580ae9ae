//! The filter grammar: comparisons (`identifier comparator literal`) joined
//! by a case-insensitive `AND`.

use crate::parser::common::lemma_spec_identifier_props;
use crate::parser::common::lemma_spec_literal_props;
use crate::parser::common::identifier;
use crate::parser::common::literal;
use crate::parser::common::matches_at;
use crate::parser::common::matches_lit_at;
use crate::parser::common::matches_nocase_at;
use crate::parser::common::matches_nocase_lit;
use crate::parser::common::scan_space;
use crate::parser::common::scan_space_exec;
use crate::parser::common::lemma_scan_space_bounds;
use crate::parser::common::spec_identifier;
use crate::parser::common::spec_literal;
use crate::parser::common::Identifier;
use crate::parser::common::IdentifierView;
use crate::parser::common::Literal;
use crate::parser::common::LiteralView;
use vstd::prelude::*;
use vstd::string::StrSliceExecFns;

verus! {

/// A comparison operator of the query language.
#[derive(Debug, Clone, Copy, PartialEq, Eq, Structural)]
pub enum Comparator {
    Equal,
    NotEqual,
    GreaterThan,
    GreaterThanOrEqual,
    LessThan,
    LessThanOrEqual,
    Like,
    ILike,
}

/// The only logical connective of the grammar.
#[derive(Debug, Clone, Copy, PartialEq, Eq, Structural)]
pub enum LogicalOperator {
    And,
}

/// One comparison: `left operator right`.
#[derive(Debug, PartialEq)]
pub struct Comparison {
    pub operator: Comparator,
    pub left: Identifier,
    pub right: Literal,
}

/// The ghost image of a [`Comparison`].
pub struct ComparisonView {
    pub operator: Comparator,
    pub left: IdentifierView,
    pub right: LiteralView,
}

impl View for Comparison {
    type V = ComparisonView;

    open spec fn view(&self) -> ComparisonView {
        ComparisonView { operator: self.operator, left: self.left@, right: self.right@ }
    }
}

impl DeepView for Comparison {
    type V = ComparisonView;

    open spec fn deep_view(&self) -> ComparisonView {
        self.view()
    }
}

impl Clone for Comparison {
    fn clone(&self) -> (r: Self)
        ensures
            r == *self,
    {
        Comparison { operator: self.operator, left: self.left.clone(), right: self.right.clone() }
    }
}

/// A comparator token, with optional whitespace on both sides.  The
/// two-character symbols are tried before their one-character prefixes, and
/// `LIKE` / `ILIKE` match in any case.
pub open spec fn spec_comparator(s: Seq<char>, i: int) -> Option<(int, Comparator)>
    recommends
        0 <= i <= s.len(),
{
    let a = scan_space(s, i);
    let m: Option<(int, Comparator)> = if matches_at(s, a, seq!['!', '=']) {
        Some((a + 2, Comparator::NotEqual))
    } else if matches_at(s, a, seq!['<', '=']) {
        Some((a + 2, Comparator::LessThanOrEqual))
    } else if matches_at(s, a, seq!['>', '=']) {
        Some((a + 2, Comparator::GreaterThanOrEqual))
    } else if matches_at(s, a, seq!['<']) {
        Some((a + 1, Comparator::LessThan))
    } else if matches_at(s, a, seq!['>']) {
        Some((a + 1, Comparator::GreaterThan))
    } else if matches_at(s, a, seq!['=']) {
        Some((a + 1, Comparator::Equal))
    } else if matches_nocase_at(s, a, seq!['l', 'i', 'k', 'e']) {
        Some((a + 4, Comparator::Like))
    } else if matches_nocase_at(s, a, seq!['i', 'l', 'i', 'k', 'e']) {
        Some((a + 5, Comparator::ILike))
    } else {
        None
    };
    match m {
        Some(p) => Some((scan_space(s, p.0), p.1)),
        None => None,
    }
}

/// An `AND` connective in any case, with optional whitespace on both sides.
pub open spec fn spec_logical_operator(s: Seq<char>, i: int) -> Option<int>
    recommends
        0 <= i <= s.len(),
{
    let a = scan_space(s, i);
    if matches_nocase_at(s, a, seq!['a', 'n', 'd']) {
        Some(scan_space(s, a + 3))
    } else {
        None
    }
}

/// One comparison: an identifier, a comparator and a literal.
pub open spec fn spec_comparison(s: Seq<char>, i: int) -> Option<(int, ComparisonView)>
    recommends
        0 <= i <= s.len(),
{
    match spec_identifier(s, i) {
        None => None,
        Some((j, id)) => match spec_comparator(s, j) {
            None => None,
            Some((k, op)) => match spec_literal(s, k) {
                None => None,
                Some((m, lit)) => Some(
                    (m, ComparisonView { operator: op, left: id, right: lit }),
                ),
            },
        },
    }
}

/// A successful comparator parse stays inside the input and consumes at
/// least one character.
pub proof fn lemma_spec_comparator_props(s: Seq<char>, i: int)
    requires
        0 <= i <= s.len(),
    ensures
        match spec_comparator(s, i) {
            Some(p) => i < p.0 <= s.len(),
            None => true,
        },
{
    lemma_scan_space_bounds(s, i);
    let a = scan_space(s, i);
    if spec_comparator(s, i) is Some {
        if matches_at(s, a, seq!['!', '=']) || matches_at(s, a, seq!['<', '=']) || matches_at(
            s,
            a,
            seq!['>', '='],
        ) {
            lemma_scan_space_bounds(s, a + 2);
        } else if matches_at(s, a, seq!['<']) || matches_at(s, a, seq!['>']) || matches_at(
            s,
            a,
            seq!['='],
        ) {
            lemma_scan_space_bounds(s, a + 1);
        } else if matches_nocase_at(s, a, seq!['l', 'i', 'k', 'e']) {
            lemma_scan_space_bounds(s, a + 4);
        } else {
            lemma_scan_space_bounds(s, a + 5);
        }
    }
}

/// A successful `AND` parse stays inside the input and consumes at least one
/// character.
pub proof fn lemma_spec_logical_props(s: Seq<char>, i: int)
    requires
        0 <= i <= s.len(),
    ensures
        match spec_logical_operator(s, i) {
            Some(j) => i < j <= s.len(),
            None => true,
        },
{
    lemma_scan_space_bounds(s, i);
    let a = scan_space(s, i);
    if spec_logical_operator(s, i) is Some {
        lemma_scan_space_bounds(s, a + 3);
    }
}

/// A successful comparison parse stays inside the input and consumes at
/// least one character.
pub proof fn lemma_spec_comparison_props(s: Seq<char>, i: int)
    requires
        0 <= i <= s.len(),
    ensures
        match spec_comparison(s, i) {
            Some(p) => i < p.0 <= s.len(),
            None => true,
        },
{
    lemma_spec_identifier_props(s, i);
    match spec_identifier(s, i) {
        None => {},
        Some((j, _id)) => {
            lemma_spec_comparator_props(s, j);
            match spec_comparator(s, j) {
                None => {},
                Some((k, _op)) => {
                    lemma_spec_literal_props(s, k);
                },
            }
        },
    }
}

/// The comparisons after the first one: a possibly empty repetition of
/// `AND comparison`.  Returns the position after the last comparison taken
/// and the comparisons themselves; a trailing `AND` not followed by a
/// comparison is left unconsumed.
pub open spec fn spec_filter_tail(s: Seq<char>, i: int) -> (int, Seq<ComparisonView>)
    decreases s.len() - i,
    when 0 <= i <= s.len()
    via spec_filter_tail_dec
{
    match spec_logical_operator(s, i) {
        None => (i, Seq::<ComparisonView>::empty()),
        Some(j) => match spec_comparison(s, j) {
            None => (i, Seq::<ComparisonView>::empty()),
            Some((k, c)) => {
                let t = spec_filter_tail(s, k);
                (t.0, seq![c] + t.1)
            },
        },
    }
}

#[via_fn]
proof fn spec_filter_tail_dec(s: Seq<char>, i: int) {
    lemma_spec_logical_props(s, i);
    match spec_logical_operator(s, i) {
        None => {},
        Some(j) => {
            lemma_spec_comparison_props(s, j);
        },
    }
}

/// A whole filter: zero or more comparisons joined by `AND`.  Parsing never
/// fails; an input that starts with no comparison yields the empty list and
/// consumes nothing.
pub open spec fn spec_parse_filter(s: Seq<char>, i: int) -> (int, Seq<ComparisonView>)
    recommends
        0 <= i <= s.len(),
{
    match spec_comparison(s, i) {
        None => (i, Seq::<ComparisonView>::empty()),
        Some((j, c)) => {
            let t = spec_filter_tail(s, j);
            (t.0, seq![c] + t.1)
        },
    }
}

/// The tail parse stays inside the input.
pub proof fn lemma_spec_filter_tail_props(s: Seq<char>, i: int)
    requires
        0 <= i <= s.len(),
    ensures
        i <= spec_filter_tail(s, i).0 <= s.len(),
    decreases s.len() - i,
{
    lemma_spec_logical_props(s, i);
    match spec_logical_operator(s, i) {
        None => {},
        Some(j) => {
            lemma_spec_comparison_props(s, j);
            match spec_comparison(s, j) {
                None => {},
                Some((k, _c)) => {
                    lemma_spec_filter_tail_props(s, k);
                },
            }
        },
    }
}

/// The filter parse stays inside the input.
pub proof fn lemma_spec_parse_filter_props(s: Seq<char>, i: int)
    requires
        0 <= i <= s.len(),
    ensures
        i <= spec_parse_filter(s, i).0 <= s.len(),
{
    lemma_spec_comparison_props(s, i);
    match spec_comparison(s, i) {
        None => {},
        Some((j, _c)) => {
            lemma_spec_filter_tail_props(s, j);
        },
    }
}

// ---------------------------------------------------------------------------
// Executable parsers.
// ---------------------------------------------------------------------------

/// A comparator token with optional surrounding whitespace.
pub fn comparator(s: &str, i: usize) -> (r: Option<(usize, Comparator)>)
    requires
        i as int <= s@.len(),
    ensures
        match r {
            Some(p) => spec_comparator(s@, i as int) == Some((p.0 as int, p.1)),
            None => spec_comparator(s@, i as int) is None,
        },
{
    proof {
        reveal_strlit("!=");
        reveal_strlit("<=");
        reveal_strlit(">=");
        reveal_strlit("<");
        reveal_strlit(">");
        reveal_strlit("=");
        reveal_strlit("like");
        reveal_strlit("ilike");
        assert("!="@ =~= seq!['!', '=']);
        assert("<="@ =~= seq!['<', '=']);
        assert(">="@ =~= seq!['>', '=']);
        assert("<"@ =~= seq!['<']);
        assert(">"@ =~= seq!['>']);
        assert("="@ =~= seq!['=']);
        assert("like"@ =~= seq!['l', 'i', 'k', 'e']);
        assert("ilike"@ =~= seq!['i', 'l', 'i', 'k', 'e']);
    }
    let n: usize = s.unicode_len();
    let a = scan_space_exec(s, i);
    let m: Option<(usize, Comparator)> = if matches_lit_at(s, a, "!=") {
        Some((a + 2, Comparator::NotEqual))
    } else if matches_lit_at(s, a, "<=") {
        Some((a + 2, Comparator::LessThanOrEqual))
    } else if matches_lit_at(s, a, ">=") {
        Some((a + 2, Comparator::GreaterThanOrEqual))
    } else if matches_lit_at(s, a, "<") {
        Some((a + 1, Comparator::LessThan))
    } else if matches_lit_at(s, a, ">") {
        Some((a + 1, Comparator::GreaterThan))
    } else if matches_lit_at(s, a, "=") {
        Some((a + 1, Comparator::Equal))
    } else if matches_nocase_lit(s, a, "like") {
        Some((a + 4, Comparator::Like))
    } else if matches_nocase_lit(s, a, "ilike") {
        Some((a + 5, Comparator::ILike))
    } else {
        None
    };
    match m {
        Some(p) => {
            let b = scan_space_exec(s, p.0);
            Some((b, p.1))
        },
        None => None,
    }
}

/// An `AND` connective in any case, with optional surrounding whitespace.
pub fn logical_operator(s: &str, i: usize) -> (r: Option<(usize, LogicalOperator)>)
    requires
        i as int <= s@.len(),
    ensures
        match r {
            Some(p) => spec_logical_operator(s@, i as int) == Some(p.0 as int) && p.1
                == LogicalOperator::And,
            None => spec_logical_operator(s@, i as int) is None,
        },
{
    proof {
        reveal_strlit("and");
        assert("and"@ =~= seq!['a', 'n', 'd']);
    }
    let n: usize = s.unicode_len();
    let a = scan_space_exec(s, i);
    if matches_nocase_lit(s, a, "and") {
        let b = scan_space_exec(s, a + 3);
        Some((b, LogicalOperator::And))
    } else {
        None
    }
}

/// One comparison: an identifier, a comparator and a literal.
pub fn comparison_op(s: &str, i: usize) -> (r: Option<(usize, Comparison)>)
    requires
        i as int <= s@.len(),
    ensures
        match r {
            Some(p) => spec_comparison(s@, i as int) == Some((p.0 as int, p.1@)),
            None => spec_comparison(s@, i as int) is None,
        },
{
    proof {
        lemma_spec_identifier_props(s@, i as int);
    }
    match identifier(s, i) {
        None => None,
        Some((j, id)) => {
            proof {
                lemma_spec_comparator_props(s@, j as int);
            }
            match comparator(s, j) {
                None => None,
                Some((k, op)) => {
                    match literal(s, k) {
                        None => None,
                        Some((m, lit)) => Some(
                            (m, Comparison { operator: op, left: id, right: lit }),
                        ),
                    }
                },
            }
        },
    }
}

/// A whole filter: zero or more comparisons joined by `AND`.  Returns the
/// position after the consumed prefix and the comparisons; parsing itself
/// never fails, and the caller decides what residual input means.
pub fn parse_filter(s: &str, i: usize) -> (r: (usize, Vec<Comparison>))
    requires
        i as int <= s@.len(),
    ensures
        r.0 as int == spec_parse_filter(s@, i as int).0,
        r.1.deep_view() == spec_parse_filter(s@, i as int).1,
{
    let n: usize = s.unicode_len();
    let mut comps: Vec<Comparison> = Vec::new();
    proof {
        lemma_spec_comparison_props(s@, i as int);
    }
    match comparison_op(s, i) {
        None => {
            proof {
                assert(comps.deep_view() =~= spec_parse_filter(s@, i as int).1);
            }
            (i, comps)
        },
        Some((j, c)) => {
            comps.push(c);
            let mut pos: usize = j;
            let mut done: bool = false;
            while !done
                invariant
                    i <= pos && pos as int <= s@.len(),
                    n == s@.len(),
                    spec_parse_filter(s@, i as int).0 == spec_filter_tail(s@, pos as int).0,
                    spec_parse_filter(s@, i as int).1 == comps.deep_view() + spec_filter_tail(
                        s@,
                        pos as int,
                    ).1,
                    done ==> spec_filter_tail(s@, pos as int).0 == pos as int
                        && spec_filter_tail(s@, pos as int).1 == Seq::<ComparisonView>::empty(),
                decreases n - pos + (if done {
                    0int
                } else {
                    1int
                }),
            {
                proof {
                    lemma_spec_logical_props(s@, pos as int);
                }
                match logical_operator(s, pos) {
                    None => {
                        done = true;
                    },
                    Some((m, _and)) => {
                        proof {
                            lemma_spec_comparison_props(s@, m as int);
                        }
                        match comparison_op(s, m) {
                            None => {
                                done = true;
                            },
                            Some((k, c2)) => {
                                let ghost old_dv = comps.deep_view();
                                comps.push(c2);
                                proof {
                                    assert(comps.deep_view() =~= old_dv + seq![c2@]);
                                    assert(old_dv + (seq![c2@] + spec_filter_tail(
                                        s@,
                                        k as int,
                                    ).1) =~= (old_dv + seq![c2@]) + spec_filter_tail(
                                        s@,
                                        k as int,
                                    ).1);
                                }
                                pos = k;
                            },
                        }
                    },
                }
            }
            proof {
                assert(comps.deep_view() + Seq::<ComparisonView>::empty() =~= comps.deep_view());
            }
            (pos, comps)
        },
    }
}

} // verus!
