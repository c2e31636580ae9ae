//! The search engine: validating a parsed filter and ordering list against
//! the experiment-search endpoint and lowering them to one parameterised SQL
//! statement.
//!
//! Attribute predicates land in the `WHERE` clause; tag predicates become a
//! grouped sub-query over the tag table whose `HAVING` count enforces
//! AND-of-keys semantics; the ordering list is completed with an
//! `experiment_id` tie-breaker and rendered last.  String literals have their
//! single quotes doubled; numeric literals are re-serialised from their
//! parsed values.

use crate::error::ErrorView;
use crate::error::MlflowError;
use crate::parser::common::scan_dquote_body;
use crate::parser::common::Entity;
use crate::parser::common::Identifier;
use crate::parser::common::IdentifierView;
use crate::parser::common::Literal;
use crate::parser::common::LiteralView;
use crate::parser::filter::spec_parse_filter;
use crate::parser::filter::parse_filter;
use crate::parser::filter::lemma_spec_parse_filter_props;
use crate::parser::filter::Comparator;
use crate::parser::filter::Comparison;
use crate::parser::filter::ComparisonView;
use crate::parser::order_by::spec_parse_order_by;
use crate::parser::order_by::parse_order_by;
use crate::parser::order_by::lemma_spec_parse_order_by_props;
use crate::parser::order_by::OrderBy;
use crate::parser::order_by::OrderByDirection;
use crate::parser::order_by::OrderByView;
use crate::text::dec_digits;
use crate::text::dec_int;
use crate::text::escape_single_quotes;
use crate::text::escape_sq;
use crate::text::i64_to_string;
use crate::text::join_strings;
use crate::text::spec_join;
use crate::text::spec_trim;
use crate::text::trim_str;
use crate::text::u64_to_string;
use vstd::prelude::*;
use vstd::string::StrSliceExecFns;
use vstd::string::StringExecFns;

verus! {

// ---------------------------------------------------------------------------
// Rendering: from parsed values to SQL text.
// ---------------------------------------------------------------------------

/// The SQL symbol of a comparator, as written into the query.
pub open spec fn cmp_symbol(op: Comparator) -> Seq<char> {
    match op {
        Comparator::Equal => "="@,
        Comparator::NotEqual => "!="@,
        Comparator::GreaterThan => ">"@,
        Comparator::GreaterThanOrEqual => ">="@,
        Comparator::LessThan => "<"@,
        Comparator::LessThanOrEqual => "<="@,
        Comparator::Like => "LIKE"@,
        Comparator::ILike => "ILIKE"@,
    }
}

/// The SQL keyword of an ordering direction.
pub open spec fn dir_symbol(d: OrderByDirection) -> Seq<char> {
    match d {
        OrderByDirection::Ascending => "ASC"@,
        OrderByDirection::Descending => "DESC"@,
    }
}

/// The SQL text of a literal: strings are single-quoted with their quotes
/// doubled, integers and floats are re-serialised from their parsed values.
pub open spec fn lit_sql(l: LiteralView) -> Seq<char> {
    match l {
        LiteralView::StringLit(s) => seq!['\''] + escape_sq(s) + seq!['\''],
        LiteralView::IntLit(v) => dec_int(v as int),
        LiteralView::FloatLit(t) => t,
    }
}

/// One attribute predicate: `key op literal`.
pub open spec fn attr_condition(c: ComparisonView) -> Seq<char> {
    c.left.key + " "@ + cmp_symbol(c.operator) + " "@ + lit_sql(c.right)
}

/// One tag predicate on the tag value: `value op literal`.
pub open spec fn tag_condition(c: ComparisonView) -> Seq<char> {
    "value "@ + cmp_symbol(c.operator) + " "@ + lit_sql(c.right)
}

/// The comparisons whose identifier is qualified with `attribute`, in order.
pub open spec fn attr_comps(cs: Seq<ComparisonView>) -> Seq<ComparisonView>
    decreases cs.len(),
{
    if cs.len() == 0 {
        Seq::<ComparisonView>::empty()
    } else {
        attr_comps(cs.drop_last()) + (if cs.last().left.entity == Entity::Attribute {
            seq![cs.last()]
        } else {
            Seq::<ComparisonView>::empty()
        })
    }
}

/// The comparisons whose identifier is qualified with `tag`, in order.
pub open spec fn tag_comps(cs: Seq<ComparisonView>) -> Seq<ComparisonView>
    decreases cs.len(),
{
    if cs.len() == 0 {
        Seq::<ComparisonView>::empty()
    } else {
        tag_comps(cs.drop_last()) + (if cs.last().left.entity == Entity::Tag {
            seq![cs.last()]
        } else {
            Seq::<ComparisonView>::empty()
        })
    }
}

/// The attribute clause of the query: `1 = 1` when there is no attribute
/// predicate, else the predicates joined with `AND`.
pub open spec fn attr_filter(cs: Seq<ComparisonView>) -> Seq<char> {
    if cs.len() == 0 {
        "1 = 1"@
    } else {
        spec_join(cs.map_values(|c: ComparisonView| attr_condition(c)), " AND "@)
    }
}

/// The distinct tag keys of `cs` in order of first appearance.
pub open spec fn distinct_keys(cs: Seq<ComparisonView>) -> Seq<Seq<char>>
    decreases cs.len(),
{
    if cs.len() == 0 {
        Seq::<Seq<char>>::empty()
    } else {
        let rest = distinct_keys(cs.drop_last());
        if rest.contains(cs.last().left.key) {
            rest
        } else {
            rest.push(cs.last().left.key)
        }
    }
}

/// The value conditions of every comparison of `cs` whose key is `k`, each
/// prefixed with ` AND `, in order.
pub open spec fn key_conds(cs: Seq<ComparisonView>, k: Seq<char>) -> Seq<char>
    decreases cs.len(),
{
    if cs.len() == 0 {
        Seq::<char>::empty()
    } else {
        key_conds(cs.drop_last(), k) + (if cs.last().left.key == k {
            " AND "@ + tag_condition(cs.last())
        } else {
            Seq::<char>::empty()
        })
    }
}

/// The parenthesised disjunct of one tag key: the key match and every value
/// condition of that key.
pub open spec fn key_disjunct(cs: Seq<ComparisonView>, k: Seq<char>) -> Seq<char> {
    "(key = '"@ + k + "'"@ + key_conds(cs, k) + ")"@
}

/// The grouped sub-query over the tag table: one disjunct per distinct key,
/// and a `HAVING` count that admits an experiment only when every distinct
/// key matched.
pub open spec fn tag_subquery(cs: Seq<ComparisonView>) -> Seq<char> {
    "SELECT experiment_id FROM experiment_tags WHERE "@ + spec_join(
        distinct_keys(cs).map_values(|k: Seq<char>| key_disjunct(cs, k)),
        " OR "@,
    ) + " GROUP BY experiment_id HAVING COUNT(*) >= "@ + dec_digits(distinct_keys(cs).len())
}

/// One rendered ordering clause: `key ASC|DESC`.
pub open spec fn order_by_item(ob: OrderByView) -> Seq<char> {
    ob.identifier.key + " "@ + dir_symbol(ob.ascending)
}

/// The rendered ordering list.
pub open spec fn order_by_clause(obs: Seq<OrderByView>) -> Seq<char> {
    spec_join(obs.map_values(|ob: OrderByView| order_by_item(ob)), ", "@)
}

/// The whole search query.  Without tag predicates it reads straight off the
/// experiments table; with them it joins the grouped tag sub-query first.
/// The row limit is always the bound parameter `$1`.
pub open spec fn search_experiments_sql(cs: Seq<ComparisonView>, obs: Seq<OrderByView>) -> Seq<
    char,
> {
    let tags = tag_comps(cs);
    let attrs = attr_comps(cs);
    if tags.len() == 0 {
        "SELECT experiments.* FROM experiments WHERE "@ + attr_filter(attrs) + " ORDER BY "@
            + order_by_clause(obs) + " LIMIT $1"@
    } else {
        "SELECT experiments.* FROM experiments INNER JOIN ("@ + tag_subquery(tags)
            + ") ft ON ft.experiment_id = experiments.experiment_id WHERE "@ + attr_filter(attrs)
            + " ORDER BY "@ + order_by_clause(obs) + " LIMIT $1"@
    }
}

/// The SQL symbol of a comparator.
fn render_comparator(op: &Comparator) -> (r: &'static str)
    ensures
        r@ == cmp_symbol(*op),
{
    match op {
        Comparator::Equal => "=",
        Comparator::NotEqual => "!=",
        Comparator::GreaterThan => ">",
        Comparator::GreaterThanOrEqual => ">=",
        Comparator::LessThan => "<",
        Comparator::LessThanOrEqual => "<=",
        Comparator::Like => "LIKE",
        Comparator::ILike => "ILIKE",
    }
}

/// The SQL keyword of an ordering direction.
fn render_direction(d: &OrderByDirection) -> (r: &'static str)
    ensures
        r@ == dir_symbol(*d),
{
    match d {
        OrderByDirection::Ascending => "ASC",
        OrderByDirection::Descending => "DESC",
    }
}

/// The SQL text of a literal.
fn render_literal(l: &Literal) -> (r: String)
    ensures
        r@ == lit_sql(l@),
{
    match l {
        Literal::String(s) => {
            proof {
                reveal_strlit("'");
            }
            let mut out = String::new();
            out.append("'");
            out.append(escape_single_quotes(s.as_str()).as_str());
            out.append("'");
            proof {
                assert(out@ =~= lit_sql(l@));
            }
            out
        },
        Literal::Integer(v) => i64_to_string(*v),
        Literal::Float(t) => t.clone(),
    }
}

/// One attribute predicate: `key op literal`.
fn render_attr_condition(c: &Comparison) -> (r: String)
    ensures
        r@ == attr_condition(c@),
{
    proof {
        reveal_strlit(" ");
    }
    let mut out = String::new();
    out.append(c.left.key.as_str());
    out.append(" ");
    out.append(render_comparator(&c.operator));
    out.append(" ");
    out.append(render_literal(&c.right).as_str());
    proof {
        assert(out@ =~= attr_condition(c@));
    }
    out
}

/// One tag predicate on the tag value: `value op literal`.
fn render_tag_condition(c: &Comparison) -> (r: String)
    ensures
        r@ == tag_condition(c@),
{
    proof {
        reveal_strlit(" ");
        reveal_strlit("value ");
    }
    let mut out = String::new();
    out.append("value ");
    out.append(render_comparator(&c.operator));
    out.append(" ");
    out.append(render_literal(&c.right).as_str());
    proof {
        assert(out@ =~= tag_condition(c@));
    }
    out
}

/// One rendered ordering clause: `key ASC|DESC`.
fn render_order_by_item(ob: &OrderBy) -> (r: String)
    ensures
        r@ == order_by_item(ob@),
{
    proof {
        reveal_strlit(" ");
    }
    let mut out = String::new();
    out.append(ob.identifier.key.as_str());
    out.append(" ");
    out.append(render_direction(&ob.ascending));
    proof {
        assert(out@ =~= order_by_item(ob@));
    }
    out
}

/// The rendered ordering list.
fn render_order_by_clause(obs: &Vec<OrderBy>) -> (r: String)
    ensures
        r@ == order_by_clause(obs.deep_view()),
{
    let mut items: Vec<String> = Vec::new();
    let mut i: usize = 0;
    while i < obs.len()
        invariant
            0 <= i <= obs.len(),
            items.len() == i,
            forall |q: int| 0 <= q < i ==> items.deep_view()[q] == order_by_item(
                #[trigger] obs.deep_view()[q],
            ),
        decreases obs.len() - i,
    {
        items.push(render_order_by_item(&obs[i]));
        i = i + 1;
    }
    proof {
        assert(items.deep_view() =~= obs.deep_view().map_values(
            |ob: OrderByView| order_by_item(ob),
        ));
    }
    join_strings(&items, ", ")
}

/// Whether `s` may be spliced into the query as an identifier key: exactly
/// the keys that the parser's name production can yield.  A bare or
/// backtick-quoted name is any non-empty text without backticks; a
/// double-quoted name is any body that the double-quote scanner consumes
/// whole.
pub open spec fn valid_key(s: Seq<char>) -> bool {
    (s.len() > 0 && forall |k: int| 0 <= k < s.len() ==> #[trigger] s[k] != '`')
        || scan_dquote_body(s, 0) == s.len()
}

/// Whether `s` may be spliced into the query as an identifier key.
pub fn is_valid_key(s: &str) -> (r: bool)
    ensures
        r == valid_key(s@),
{
    let n: usize = s.unicode_len();
    let j = crate::parser::common::scan_until_exec(s, 0, '`');
    proof {
        crate::parser::common::lemma_scan_until_bounds(s@, 0, '`');
    }
    if n > 0 && j == n {
        true
    } else {
        let d = crate::parser::common::scan_dquote_body_exec(s, 0);
        d == n
    }
}

/// Whether a vector of strings holds `x`.
fn vec_contains_string(v: &Vec<String>, x: &String) -> (r: bool)
    ensures
        r == v.deep_view().contains(x@),
{
    let mut q: usize = 0;
    let mut found: bool = false;
    while q < v.len()
        invariant
            0 <= q <= v.len(),
            found <==> exists |z: int| 0 <= z < q && v.deep_view()[z] == x@,
        decreases v.len() - q,
    {
        let eq = v[q] == *x;
        proof {
            assert(v.deep_view()[q as int] == v@[q as int]@);
        }
        if eq {
            found = true;
        }
        q = q + 1;
    }
    proof {
        if v.deep_view().contains(x@) {
            let z = choose |z: int| 0 <= z < v.deep_view().len() && v.deep_view()[z] == x@;
            assert(found);
        }
    }
    found
}

/// The grouped sub-query over the tag table.
fn render_tag_subquery(tags: &Vec<Comparison>) -> (r: String)
    ensures
        r@ == tag_subquery(tags.deep_view()),
{
    let ghost all = tags.deep_view();
    // The distinct keys, in order of first appearance.
    let mut keys: Vec<String> = Vec::new();
    let mut i: usize = 0;
    proof {
        assert(all.subrange(0, 0) =~= Seq::<ComparisonView>::empty());
    }
    while i < tags.len()
        invariant
            0 <= i <= tags.len(),
            all == tags.deep_view(),
            all.len() == tags.len(),
            keys.deep_view() == distinct_keys(all.subrange(0, i as int)),
        decreases tags.len() - i,
    {
        let found = vec_contains_string(&keys, &tags[i].left.key);
        let ghost old_keys = keys.deep_view();
        if !found {
            keys.push(tags[i].left.key.clone());
        }
        proof {
            let prefix = all.subrange(0, i as int);
            let next = all.subrange(0, i + 1 as int);
            assert(next.drop_last() =~= prefix);
            assert(next.last() == all[i as int]);
            if !found {
                assert(keys.deep_view() =~= old_keys.push(all[i as int].left.key));
            }
        }
        i = i + 1;
    }
    proof {
        assert(all.subrange(0, all.len() as int) =~= all);
    }
    // One disjunct per distinct key.
    let mut disjuncts: Vec<String> = Vec::new();
    let mut j: usize = 0;
    while j < keys.len()
        invariant
            0 <= j <= keys.len(),
            all == tags.deep_view(),
            all.len() == tags.len(),
            keys.deep_view() == distinct_keys(all),
            disjuncts.len() == j,
            forall |z: int| 0 <= z < j ==> disjuncts.deep_view()[z] == key_disjunct(
                all,
                #[trigger] keys.deep_view()[z],
            ),
        decreases keys.len() - j,
    {
        let ghost k = keys.deep_view()[j as int];
        let mut body = String::new();
        body.append("(key = '");
        body.append(keys[j].as_str());
        body.append("'");
        proof {
            assert(all.subrange(0, 0) =~= Seq::<ComparisonView>::empty());
            assert(body@ =~= "(key = '"@ + k + "'"@ + key_conds(all.subrange(0, 0), k));
        }
        let mut i2: usize = 0;
        while i2 < tags.len()
            invariant
                0 <= i2 <= tags.len(),
                all == tags.deep_view(),
                all.len() == tags.len(),
                j < keys.len(),
                keys.deep_view().len() == keys.len(),
                k == keys.deep_view()[j as int],
                body@ == "(key = '"@ + k + "'"@ + key_conds(all.subrange(0, i2 as int), k),
            decreases tags.len() - i2,
        {
            let ghost old_body = body@;
            if tags[i2].left.key == keys[j] {
                body.append(" AND ");
                body.append(render_tag_condition(&tags[i2]).as_str());
            }
            proof {
                let prefix = all.subrange(0, i2 as int);
                let next = all.subrange(0, i2 + 1 as int);
                assert(next.drop_last() =~= prefix);
                assert(next.last() == all[i2 as int]);
                if all[i2 as int].left.key == k {
                    assert(body@ =~= old_body + (" AND "@ + tag_condition(all[i2 as int])));
                    assert(body@ =~= "(key = '"@ + k + "'"@ + key_conds(next, k));
                } else {
                    assert(key_conds(next, k) == key_conds(prefix, k));
                }
            }
            i2 = i2 + 1;
        }
        body.append(")");
        proof {
            assert(all.subrange(0, all.len() as int) =~= all);
            assert(body@ =~= key_disjunct(all, k));
        }
        disjuncts.push(body);
        j = j + 1;
    }
    proof {
        assert(disjuncts.deep_view() =~= distinct_keys(all).map_values(
            |k2: Seq<char>| key_disjunct(all, k2),
        ));
    }
    let mut out = String::new();
    out.append("SELECT experiment_id FROM experiment_tags WHERE ");
    out.append(join_strings(&disjuncts, " OR ").as_str());
    out.append(" GROUP BY experiment_id HAVING COUNT(*) >= ");
    let klen: usize = keys.len();
    out.append(u64_to_string(klen as u64).as_str());
    proof {
        assert(keys.deep_view().len() == keys.len());
        assert(out@ =~= tag_subquery(all));
    }
    out
}

/// The whole search query for a validated filter and ordering list.
pub fn build_search_experiments_query(comps: &Vec<Comparison>, order_by_clauses: &Vec<OrderBy>) -> (r:
    String)
    ensures
        r@ == search_experiments_sql(comps.deep_view(), order_by_clauses.deep_view()),
{
    let ghost all = comps.deep_view();
    let mut attrs: Vec<Comparison> = Vec::new();
    let mut tags: Vec<Comparison> = Vec::new();
    let mut i: usize = 0;
    proof {
        assert(all.subrange(0, 0) =~= Seq::<ComparisonView>::empty());
    }
    while i < comps.len()
        invariant
            0 <= i <= comps.len(),
            all == comps.deep_view(),
            all.len() == comps.len(),
            attrs.deep_view() == attr_comps(all.subrange(0, i as int)),
            tags.deep_view() == tag_comps(all.subrange(0, i as int)),
        decreases comps.len() - i,
    {
        let ghost old_attrs = attrs.deep_view();
        let ghost old_tags = tags.deep_view();
        match comps[i].left.entity {
            Entity::Attribute => {
                attrs.push(comps[i].clone());
            },
            Entity::Tag => {
                tags.push(comps[i].clone());
            },
            _ => {},
        }
        proof {
            let prefix = all.subrange(0, i as int);
            let next = all.subrange(0, i + 1 as int);
            assert(next.drop_last() =~= prefix);
            assert(next.last() == all[i as int]);
            if all[i as int].left.entity == Entity::Attribute {
                assert(attrs.deep_view() =~= old_attrs.push(all[i as int]));
                assert(attrs.deep_view() =~= attr_comps(next));
            } else {
                assert(attr_comps(next) == attr_comps(prefix) + Seq::<ComparisonView>::empty());
                assert(attr_comps(next) =~= attr_comps(prefix));
            }
            if all[i as int].left.entity == Entity::Tag {
                assert(tags.deep_view() =~= old_tags.push(all[i as int]));
                assert(tags.deep_view() =~= tag_comps(next));
            } else {
                assert(tag_comps(next) == tag_comps(prefix) + Seq::<ComparisonView>::empty());
                assert(tag_comps(next) =~= tag_comps(prefix));
            }
        }
        i = i + 1;
    }
    proof {
        assert(all.subrange(0, all.len() as int) =~= all);
    }
    let mut out = String::new();
    if tags.len() == 0 {
        out.append("SELECT experiments.* FROM experiments WHERE ");
        out.append(render_attr_filter(&attrs).as_str());
        out.append(" ORDER BY ");
        out.append(render_order_by_clause(order_by_clauses).as_str());
        out.append(" LIMIT $1");
        proof {
            assert(tag_comps(all).len() == 0);
            assert(out@ =~= search_experiments_sql(all, order_by_clauses.deep_view()));
        }
    } else {
        out.append("SELECT experiments.* FROM experiments INNER JOIN (");
        out.append(render_tag_subquery(&tags).as_str());
        out.append(") ft ON ft.experiment_id = experiments.experiment_id WHERE ");
        out.append(render_attr_filter(&attrs).as_str());
        out.append(" ORDER BY ");
        out.append(render_order_by_clause(order_by_clauses).as_str());
        out.append(" LIMIT $1");
        proof {
            assert(out@ =~= search_experiments_sql(all, order_by_clauses.deep_view()));
        }
    }
    out
}

// ---------------------------------------------------------------------------
// Validation and the search pipeline.
// ---------------------------------------------------------------------------

/// Whether a comparison may stand in an experiment-search filter: only
/// `attribute` and `tag` predicates are allowed there.
pub open spec fn entity_ok(c: ComparisonView) -> bool {
    c.left.entity == Entity::Attribute || c.left.entity == Entity::Tag
}

/// Whether every comparison of `cs` may stand in an experiment-search
/// filter.
pub open spec fn all_entities_ok(cs: Seq<ComparisonView>) -> bool {
    forall |k: int| 0 <= k < cs.len() ==> entity_ok(#[trigger] cs[k])
}

/// The message reported for a filter predicate on a disallowed entity.
pub open spec fn msg_filter_entities() -> Seq<char> {
    "Experiment search only supports filtering by attribute or tag"@
}

/// The message reported for an ordering clause on a disallowed entity.
pub open spec fn msg_order_entities() -> Seq<char> {
    "Experiment search only supports ordering by attribute"@
}

/// The parsed and validated ordering clauses from position `i` on: each item
/// is trimmed, parsed whole, and must order by an attribute; the first
/// failure is the result.
pub open spec fn spec_order_by_list(items: Seq<Seq<char>>, i: int) -> Result<
    Seq<OrderByView>,
    ErrorView,
>
    decreases items.len() - i,
    when 0 <= i <= items.len()
{
    if i >= items.len() {
        Ok(Seq::<OrderByView>::empty())
    } else {
        let t = spec_trim(items[i]);
        match spec_parse_order_by(t, 0) {
            None => Err(ErrorView::InvalidParameter("Invalid order by clause: "@ + t)),
            Some((j, ob)) => if j < t.len() {
                Err(
                    ErrorView::InvalidParameter(
                        "Invalid order by clause: "@ + t.subrange(j, t.len() as int),
                    ),
                )
            } else if ob.identifier.entity != Entity::Attribute {
                Err(ErrorView::InvalidParameter(msg_order_entities()))
            } else {
                match spec_order_by_list(items, i + 1) {
                    Ok(rest) => Ok(seq![ob] + rest),
                    Err(e) => Err(e),
                }
            },
        }
    }
}

/// The first comparison key from position `i` on that the builder must
/// reject.
pub open spec fn first_invalid_comp_key(cs: Seq<ComparisonView>, i: int) -> Option<Seq<char>>
    decreases cs.len() - i,
    when 0 <= i <= cs.len()
{
    if i >= cs.len() {
        None
    } else if !valid_key(cs[i].left.key) {
        Some(cs[i].left.key)
    } else {
        first_invalid_comp_key(cs, i + 1)
    }
}

/// The first ordering key from position `i` on that the builder must reject.
pub open spec fn first_invalid_ob_key(obs: Seq<OrderByView>, i: int) -> Option<Seq<char>>
    decreases obs.len() - i,
    when 0 <= i <= obs.len()
{
    if i >= obs.len() {
        None
    } else if !valid_key(obs[i].identifier.key) {
        Some(obs[i].identifier.key)
    } else {
        first_invalid_ob_key(obs, i + 1)
    }
}

/// The first identifier key, among the comparisons and then the ordering
/// clauses, that the builder must reject.
pub open spec fn first_invalid_key(cs: Seq<ComparisonView>, obs: Seq<OrderByView>) -> Option<
    Seq<char>,
> {
    match first_invalid_comp_key(cs, 0) {
        Some(k) => Some(k),
        None => first_invalid_ob_key(obs, 0),
    }
}

/// The key of the implicit ordering tie-breaker.
pub open spec fn experiment_id_key() -> Seq<char> {
    "experiment_id"@
}

/// The implicit ordering tie-breaker: `experiment_id ASC`.
pub open spec fn experiment_id_asc() -> OrderByView {
    OrderByView {
        identifier: IdentifierView { entity: Entity::Attribute, key: experiment_id_key() },
        ascending: OrderByDirection::Ascending,
    }
}

/// Whether some clause of `obs` orders by `experiment_id`.
pub open spec fn has_experiment_id(obs: Seq<OrderByView>) -> bool {
    exists |k: int| 0 <= k < obs.len() && (#[trigger] obs[k]).identifier.key == experiment_id_key()
}

/// `obs` with the tie-breaker appended unless some clause already orders by
/// `experiment_id`.
pub open spec fn with_tie_breaker(obs: Seq<OrderByView>) -> Seq<OrderByView> {
    if has_experiment_id(obs) {
        obs
    } else {
        obs.push(experiment_id_asc())
    }
}

/// The whole search pipeline on one experiment-search request: trim and
/// parse the filter, demand that all input is consumed, validate the
/// entities, parse and validate each ordering clause, reject keys outside
/// the name production, append the tie-breaker, and render the query.
pub open spec fn spec_search_experiments_query(
    filter: Option<Seq<char>>,
    order_by: Option<Seq<Seq<char>>>,
) -> Result<Seq<char>, ErrorView> {
    let f = spec_trim(
        match filter {
            Some(x) => x,
            None => Seq::<char>::empty(),
        },
    );
    let pr = spec_parse_filter(f, 0);
    if pr.0 < f.len() {
        Err(ErrorView::InvalidParameter("Invalid filter: "@ + f.subrange(pr.0, f.len() as int)))
    } else if !all_entities_ok(pr.1) {
        Err(ErrorView::InvalidParameter(msg_filter_entities()))
    } else {
        match spec_order_by_list(
            match order_by {
                Some(o) => o,
                None => Seq::<Seq<char>>::empty(),
            },
            0,
        ) {
            Err(e) => Err(e),
            Ok(obs) => match first_invalid_key(pr.1, obs) {
                Some(k) => Err(ErrorView::InvalidParameter("Invalid identifier key: "@ + k)),
                None => Ok(search_experiments_sql(pr.1, with_tie_breaker(obs))),
            },
        }
    }
}

/// Rejects a filter with a predicate on anything but an attribute or a tag.
pub fn validate_filter_comparisons(comps: &Vec<Comparison>) -> (r: Result<(), MlflowError>)
    ensures
        r is Ok <==> all_entities_ok(comps.deep_view()),
        r matches Err(e) ==> e@ == ErrorView::InvalidParameter(msg_filter_entities()),
{
    let mut i: usize = 0;
    while i < comps.len()
        invariant
            0 <= i <= comps.len(),
            comps.deep_view().len() == comps.len(),
            forall |k: int| 0 <= k < i ==> entity_ok(#[trigger] comps.deep_view()[k]),
        decreases comps.len() - i,
    {
        proof {
            assert(comps.deep_view()[i as int] == comps@[i as int]@);
        }
        match comps[i].left.entity {
            Entity::Attribute => {},
            Entity::Tag => {},
            _ => {
                let mut m = String::new();
                m.append("Experiment search only supports filtering by attribute or tag");
                proof {
                    assert(m@ =~= msg_filter_entities());
                }
                return Err(MlflowError::InvalidParameter(m));
            },
        }
        i = i + 1;
    }
    Ok(())
}

/// Trims, parses and validates each ordering clause for experiment search.
pub fn parse_order_by_list(items: &Vec<String>) -> (r: Result<Vec<OrderBy>, MlflowError>)
    ensures
        ({
            let sv = spec_order_by_list(items.deep_view(), 0);
            match r {
                Ok(obs) => sv == Ok::<Seq<OrderByView>, ErrorView>(obs.deep_view()),
                Err(e) => sv == Err::<Seq<OrderByView>, ErrorView>(e@),
            }
        }),
{
    let ghost dv = items.deep_view();
    let mut acc: Vec<OrderBy> = Vec::new();
    let mut i: usize = 0;
    proof {
        assert(dv.len() == items.len());
    }
    while i < items.len()
        invariant
            0 <= i <= items.len(),
            dv == items.deep_view(),
            dv.len() == items.len(),
            spec_order_by_list(dv, 0) == (match spec_order_by_list(dv, i as int) {
                Ok(rest) => Ok::<Seq<OrderByView>, ErrorView>(acc.deep_view() + rest),
                Err(e) => Err::<Seq<OrderByView>, ErrorView>(e),
            }),
        decreases items.len() - i,
    {
        proof {
            assert(dv[i as int] == items@[i as int]@);
        }
        let t = trim_str(items[i].as_str());
        let n_t: usize = t.unicode_len();
        proof {
            lemma_spec_parse_order_by_props(t@, 0);
        }
        match parse_order_by(t, 0) {
            None => {
                let mut m = String::new();
                m.append("Invalid order by clause: ");
                m.append(t);
                proof {
                    assert(m@ =~= "Invalid order by clause: "@ + spec_trim(dv[i as int]));
                }
                return Err(MlflowError::InvalidParameter(m));
            },
            Some((j, ob)) => {
                if j < n_t {
                    let mut m = String::new();
                    m.append("Invalid order by clause: ");
                    m.append(t.substring_char(j, n_t));
                    proof {
                        assert(m@ =~= "Invalid order by clause: "@ + spec_trim(
                            dv[i as int],
                        ).subrange(j as int, spec_trim(dv[i as int]).len() as int));
                    }
                    return Err(MlflowError::InvalidParameter(m));
                }
                match ob.identifier.entity {
                    Entity::Attribute => {},
                    _ => {
                        let mut m = String::new();
                        m.append("Experiment search only supports ordering by attribute");
                        proof {
                            assert(m@ =~= msg_order_entities());
                        }
                        return Err(MlflowError::InvalidParameter(m));
                    },
                }
                let ghost old_acc = acc.deep_view();
                let ghost obv = ob@;
                acc.push(ob);
                proof {
                    assert(acc.deep_view() =~= old_acc + seq![obv]);
                    match spec_order_by_list(dv, i + 1 as int) {
                        Ok(rest) => {
                            assert(old_acc + (seq![obv] + rest) =~= (old_acc + seq![obv]) + rest);
                        },
                        Err(_) => {},
                    }
                }
            },
        }
        i = i + 1;
    }
    proof {
        assert(acc.deep_view() + Seq::<OrderByView>::empty() =~= acc.deep_view());
    }
    Ok(acc)
}

/// Rejects any comparison or ordering key outside the name production.
pub fn check_identifier_keys(comps: &Vec<Comparison>, obs: &Vec<OrderBy>) -> (r: Result<
    (),
    MlflowError,
>)
    ensures
        ({
            let fi = first_invalid_key(comps.deep_view(), obs.deep_view());
            match r {
                Ok(_) => fi is None,
                Err(e) => fi is Some && e@ == ErrorView::InvalidParameter(
                    "Invalid identifier key: "@ + fi->Some_0,
                ),
            }
        }),
{
    let ghost cdv = comps.deep_view();
    let ghost odv = obs.deep_view();
    let mut i: usize = 0;
    while i < comps.len()
        invariant
            0 <= i <= comps.len(),
            cdv == comps.deep_view(),
            cdv.len() == comps.len(),
            first_invalid_comp_key(cdv, 0) == first_invalid_comp_key(cdv, i as int),
        decreases comps.len() - i,
    {
        proof {
            assert(cdv[i as int] == comps@[i as int]@);
        }
        if !is_valid_key(comps[i].left.key.as_str()) {
            let mut m = String::new();
            m.append("Invalid identifier key: ");
            m.append(comps[i].left.key.as_str());
            proof {
                assert(first_invalid_comp_key(cdv, i as int) == Some(cdv[i as int].left.key));
                assert(m@ =~= "Invalid identifier key: "@ + cdv[i as int].left.key);
            }
            return Err(MlflowError::InvalidParameter(m));
        }
        i = i + 1;
    }
    let mut j: usize = 0;
    while j < obs.len()
        invariant
            0 <= j <= obs.len(),
            cdv == comps.deep_view(),
            odv == obs.deep_view(),
            odv.len() == obs.len(),
            first_invalid_comp_key(cdv, 0) is None,
            first_invalid_ob_key(odv, 0) == first_invalid_ob_key(odv, j as int),
        decreases obs.len() - j,
    {
        proof {
            assert(odv[j as int] == obs@[j as int]@);
        }
        if !is_valid_key(obs[j].identifier.key.as_str()) {
            let mut m = String::new();
            m.append("Invalid identifier key: ");
            m.append(obs[j].identifier.key.as_str());
            proof {
                assert(first_invalid_ob_key(odv, j as int) == Some(odv[j as int].identifier.key));
                assert(m@ =~= "Invalid identifier key: "@ + odv[j as int].identifier.key);
            }
            return Err(MlflowError::InvalidParameter(m));
        }
        j = j + 1;
    }
    Ok(())
}

/// Appends the `experiment_id ASC` tie-breaker unless some clause already
/// orders by `experiment_id`.
pub fn add_order_by_tie_breaker(obs: Vec<OrderBy>) -> (r: Vec<OrderBy>)
    ensures
        r.deep_view() == with_tie_breaker(obs.deep_view()),
{
    let ghost dv = obs.deep_view();
    let needle = String::from_str("experiment_id");
    let mut present: bool = false;
    let mut i: usize = 0;
    while i < obs.len()
        invariant
            0 <= i <= obs.len(),
            dv == obs.deep_view(),
            dv.len() == obs.len(),
            needle@ == experiment_id_key(),
            present <==> exists |k: int|
                0 <= k < i && (#[trigger] dv[k]).identifier.key == experiment_id_key(),
        decreases obs.len() - i,
    {
        let eq = obs[i].identifier.key == needle;
        proof {
            assert(dv[i as int] == obs@[i as int]@);
        }
        if eq {
            present = true;
        }
        i = i + 1;
    }
    if present {
        obs
    } else {
        let mut out = obs;
        out.push(
            OrderBy {
                identifier: Identifier {
                    entity: Entity::Attribute,
                    key: String::from_str("experiment_id"),
                },
                ascending: OrderByDirection::Ascending,
            },
        );
        proof {
            assert(out.deep_view() =~= dv.push(experiment_id_asc()));
        }
        out
    }
}

/// Answers an experiment-search request's filter and ordering with the SQL
/// statement to run, or the error owed to the request.  Success is owed
/// exactly when the trimmed filter parses with nothing left over, every
/// predicate is on an attribute or a tag, every ordering clause parses whole
/// and orders by an attribute, and every identifier key stays inside the
/// name production.  The returned statement binds its row limit as `$1`.
pub fn search_experiments_query(filter_string: Option<&str>, order_by: Option<&Vec<String>>) -> (r:
    Result<String, MlflowError>)
    ensures
        ({
            let sv = spec_search_experiments_query(
                match filter_string {
                    Some(s) => Some(s@),
                    None => None,
                },
                match order_by {
                    Some(v) => Some(v.deep_view()),
                    None => None,
                },
            );
            match r {
                Ok(q) => sv == Ok::<Seq<char>, ErrorView>(q@),
                Err(e) => sv == Err::<Seq<char>, ErrorView>(e@),
            }
        }),
{
    proof {
        reveal_strlit("");
    }
    let f: &str = match filter_string {
        Some(s) => s,
        None => "",
    };
    proof {
        if filter_string is None {
            assert(f@ =~= Seq::<char>::empty());
        }
    }
    let ft = trim_str(f);
    let n: usize = ft.unicode_len();
    let pf = parse_filter(ft, 0);
    let rest = pf.0;
    let comps = pf.1;
    proof {
        lemma_spec_parse_filter_props(ft@, 0);
    }
    if rest < n {
        let mut m = String::new();
        m.append("Invalid filter: ");
        m.append(ft.substring_char(rest, n));
        return Err(MlflowError::InvalidParameter(m));
    }
    match validate_filter_comparisons(&comps) {
        Err(e) => {
            proof {
                assert(comps.deep_view() == spec_parse_filter(ft@, 0).1);
            }
            return Err(e);
        },
        Ok(_) => {},
    }
    let empty_items: Vec<String> = Vec::new();
    let items: &Vec<String> = match order_by {
        Some(v) => v,
        None => &empty_items,
    };
    proof {
        if order_by is None {
            assert(items.deep_view() =~= Seq::<Seq<char>>::empty());
        }
    }
    let obs = match parse_order_by_list(items) {
        Err(e) => {
            return Err(e);
        },
        Ok(v) => v,
    };
    match check_identifier_keys(&comps, &obs) {
        Err(e) => {
            return Err(e);
        },
        Ok(_) => {},
    }
    let obs2 = add_order_by_tie_breaker(obs);
    Ok(build_search_experiments_query(&comps, &obs2))
}

/// The attribute clause: `1 = 1` when `attrs` is empty, else the rendered
/// predicates joined with `AND`.
fn render_attr_filter(attrs: &Vec<Comparison>) -> (r: String)
    ensures
        r@ == attr_filter(attrs.deep_view()),
{
    if attrs.len() == 0 {
        let mut out = String::new();
        out.append("1 = 1");
        proof {
            assert(out@ =~= "1 = 1"@);
        }
        out
    } else {
        let mut items: Vec<String> = Vec::new();
        let mut i: usize = 0;
        while i < attrs.len()
            invariant
                0 <= i <= attrs.len(),
                items.len() == i,
                forall |q: int| 0 <= q < i ==> items.deep_view()[q] == attr_condition(
                    #[trigger] attrs.deep_view()[q],
                ),
            decreases attrs.len() - i,
        {
            items.push(render_attr_condition(&attrs[i]));
            i = i + 1;
        }
        proof {
            assert(items.deep_view() =~= attrs.deep_view().map_values(
                |c: ComparisonView| attr_condition(c),
            ));
        }
        join_strings(&items, " AND ")
    }
}

} // verus!
