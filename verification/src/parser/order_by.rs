//! The order-by grammar: one identifier optionally followed by whitespace
//! and an `ASC` / `DESC` keyword in any case; the direction defaults to
//! ascending.

use crate::parser::common::identifier;
use crate::parser::common::lemma_scan_space_bounds;
use crate::parser::common::lemma_spec_identifier_props;
use crate::parser::common::matches_nocase_at;
use crate::parser::common::matches_nocase_lit;
use crate::parser::common::scan_space;
use crate::parser::common::scan_space_exec;
use crate::parser::common::spec_identifier;
use crate::parser::common::Identifier;
use crate::parser::common::IdentifierView;
use vstd::prelude::*;
use vstd::string::StrSliceExecFns;

verus! {

/// The direction of an order-by clause.
#[derive(Debug, Clone, Copy, PartialEq, Eq, Structural)]
pub enum OrderByDirection {
    Ascending,
    Descending,
}

/// One order-by clause: an identifier and a direction.
#[derive(Debug, PartialEq)]
pub struct OrderBy {
    pub identifier: Identifier,
    pub ascending: OrderByDirection,
}

/// The ghost image of an [`OrderBy`].
pub struct OrderByView {
    pub identifier: IdentifierView,
    pub ascending: OrderByDirection,
}

impl View for OrderBy {
    type V = OrderByView;

    open spec fn view(&self) -> OrderByView {
        OrderByView { identifier: self.identifier@, ascending: self.ascending }
    }
}

impl DeepView for OrderBy {
    type V = OrderByView;

    open spec fn deep_view(&self) -> OrderByView {
        self.view()
    }
}

impl Clone for OrderBy {
    fn clone(&self) -> (r: Self)
        ensures
            r == *self,
    {
        OrderBy { identifier: self.identifier.clone(), ascending: self.ascending }
    }
}

/// A direction keyword, `asc` tried before `desc`, in any case.
pub open spec fn spec_order_by_direction(s: Seq<char>, i: int) -> Option<(int, OrderByDirection)>
    recommends
        0 <= i <= s.len(),
{
    if matches_nocase_at(s, i, seq!['a', 's', 'c']) {
        Some((i + 3, OrderByDirection::Ascending))
    } else if matches_nocase_at(s, i, seq!['d', 'e', 's', 'c']) {
        Some((i + 4, OrderByDirection::Descending))
    } else {
        None
    }
}

/// One order-by clause: an identifier, optional whitespace, and an optional
/// direction keyword.
pub open spec fn spec_parse_order_by(s: Seq<char>, i: int) -> Option<(int, OrderByView)>
    recommends
        0 <= i <= s.len(),
{
    match spec_identifier(s, i) {
        None => None,
        Some((j, id)) => {
            let a = scan_space(s, j);
            match spec_order_by_direction(s, a) {
                Some((b, d)) => Some((b, OrderByView { identifier: id, ascending: d })),
                None => Some((a, OrderByView { identifier: id, ascending: OrderByDirection::Ascending })),
            }
        },
    }
}

/// A successful order-by parse stays inside the input.
pub proof fn lemma_spec_parse_order_by_props(s: Seq<char>, i: int)
    requires
        0 <= i <= s.len(),
    ensures
        match spec_parse_order_by(s, i) {
            Some(p) => i < p.0 <= s.len(),
            None => true,
        },
{
    lemma_spec_identifier_props(s, i);
    match spec_identifier(s, i) {
        None => {},
        Some((j, _id)) => {
            lemma_scan_space_bounds(s, j);
        },
    }
}

/// A direction keyword in any case.
pub fn order_by_direction(s: &str, i: usize) -> (r: Option<(usize, OrderByDirection)>)
    requires
        i as int <= s@.len(),
    ensures
        match r {
            Some(p) => spec_order_by_direction(s@, i as int) == Some((p.0 as int, p.1)),
            None => spec_order_by_direction(s@, i as int) is None,
        },
{
    proof {
        reveal_strlit("asc");
        reveal_strlit("desc");
        assert("asc"@ =~= seq!['a', 's', 'c']);
        assert("desc"@ =~= seq!['d', 'e', 's', 'c']);
    }
    let n: usize = s.unicode_len();
    if matches_nocase_lit(s, i, "asc") {
        Some((i + 3, OrderByDirection::Ascending))
    } else if matches_nocase_lit(s, i, "desc") {
        Some((i + 4, OrderByDirection::Descending))
    } else {
        None
    }
}

/// One order-by clause.
pub fn parse_order_by(s: &str, i: usize) -> (r: Option<(usize, OrderBy)>)
    requires
        i as int <= s@.len(),
    ensures
        match r {
            Some(p) => spec_parse_order_by(s@, i as int) == Some((p.0 as int, p.1@)),
            None => spec_parse_order_by(s@, i as int) is None,
        },
{
    proof {
        lemma_spec_identifier_props(s@, i as int);
    }
    match identifier(s, i) {
        None => None,
        Some((j, id)) => {
            let a = scan_space_exec(s, j);
            match order_by_direction(s, a) {
                Some((b, d)) => Some((b, OrderBy { identifier: id, ascending: d })),
                None => Some((a, OrderBy { identifier: id, ascending: OrderByDirection::Ascending })),
            }
        },
    }
}

} // verus!
