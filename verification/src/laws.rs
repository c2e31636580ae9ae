//! The laws of the parser and of the query builder, stated and proved over
//! the same specification functions that the executable functions are
//! verified against.

use crate::error::ErrorView;
use crate::parser::common::is_word_char;
use crate::parser::common::lemma_scan_digits_eq;
use crate::parser::common::lemma_scan_space_eq;
use crate::parser::common::lemma_scan_until_eq;
use crate::parser::common::lemma_scan_word_eq;
use crate::parser::common::matches_at;
use crate::parser::common::qual_attribute;
use crate::parser::common::qual_metric;
use crate::parser::common::qual_param;
use crate::parser::common::qual_tag;
use crate::parser::common::spec_identifier;
use crate::parser::common::spec_name;
use crate::parser::common::Entity;
use crate::parser::common::IdentifierView;
use crate::parser::common::LiteralView;
use crate::parser::filter::spec_parse_filter;
use crate::parser::filter::Comparator;
use crate::parser::filter::ComparisonView;
use crate::parser::order_by::OrderByView;
use crate::query::attr_comps;
use crate::query::attr_filter;
use crate::query::distinct_keys;
use crate::query::experiment_id_asc;
use crate::query::experiment_id_key;
use crate::query::has_experiment_id;
use crate::query::key_disjunct;
use crate::query::order_by_clause;
use crate::query::order_by_item;
use crate::query::search_experiments_sql;
use crate::query::spec_search_experiments_query;
use crate::query::tag_comps;
use crate::query::tag_subquery;
use crate::query::with_tie_breaker;
use crate::text::dec_digits;
use crate::text::spec_join;
use crate::text::spec_trim;
use vstd::prelude::*;

verus! {

/// Parsing the empty filter yields no comparisons and consumes nothing, so
/// an empty filter string is never an error.
pub proof fn lemma_empty_filter_parses_to_nothing()
    ensures
        spec_parse_filter(Seq::<char>::empty(), 0) == (0int, Seq::<ComparisonView>::empty()),
{
    let s = Seq::<char>::empty();
    assert(spec_name(s, 0) is None);
    assert(spec_identifier(s, 0) is None);
}

/// `t` cannot stand at `a` in `s` when its first character differs there.
proof fn lemma_not_match_first(s: Seq<char>, a: int, t: Seq<char>)
    requires
        0 <= a,
        t.len() > 0,
        a + t.len() <= s.len() ==> s[a] != t[0],
    ensures
        !matches_at(s, a, t),
{
    if matches_at(s, a, t) {
        assert(s.subrange(a, a + t.len())[0] == t[0]);
    }
}

/// A name made of word characters that reaches the end of the input parses
/// as a bare name.
proof fn lemma_name_at_end(s: Seq<char>, j: int, n: Seq<char>)
    requires
        0 <= j,
        s.len() == j + n.len(),
        n.len() > 0,
        s.subrange(j, s.len() as int) == n,
        forall |k: int| 0 <= k < n.len() ==> is_word_char(#[trigger] n[k]),
    ensures
        spec_name(s, j) == Some((s.len() as int, n)),
{
    assert forall |k: int| j <= k < s.len() implies is_word_char(#[trigger] s[k]) by {
        assert(s.subrange(j, s.len() as int)[k - j] == s[k]);
        assert(is_word_char(n[k - j]));
    }
    assert(is_word_char(s[j]));
    lemma_scan_word_eq(s, j, s.len() as int);
    assert(s.subrange(j, s.len() as int) =~= n);
}

/// No qualifier prefix can match an input made of a word-character name
/// followed by ` = 'v'`: each prefix ends in a dot, and a dot occurs neither
/// inside the name nor in the six-character suffix.
proof fn lemma_no_qualifier_match(s: Seq<char>, n: Seq<char>, q: Seq<char>)
    requires
        s == n + seq![' ', '=', ' ', '\'', 'v', '\''],
        forall |k: int| 0 <= k < n.len() ==> is_word_char(#[trigger] n[k]),
        q.len() > 0,
        q[q.len() - 1] == '.',
    ensures
        !matches_at(s, 0, q),
{
    if matches_at(s, 0, q) {
        let p = q.len() - 1;
        assert(s.subrange(0, q.len() as int)[p] == q[p]);
        assert(s[p] == '.');
        if p < n.len() {
            assert(s[p] == n[p]);
            assert(is_word_char(n[p]));
            assert(!is_word_char('.'));
        } else {
            let d = p - n.len();
            assert(0 <= d < 6);
            if d == 0 {
                assert(s[p] == ' ');
            } else if d == 1 {
                assert(s[p] == '=');
            } else if d == 2 {
                assert(s[p] == ' ');
            } else if d == 3 {
                assert(s[p] == '\'');
            } else if d == 4 {
                assert(s[p] == 'v');
            } else {
                assert(s[p] == '\'');
            }
        }
    }
}

/// For every bare name `n` of the identifier grammar, the filter `n = 'v'`
/// parses whole into exactly one comparison: qualifier `attribute`, key `n`,
/// operator `=`, and the string literal `v`.
pub proof fn lemma_bare_name_equality(n: Seq<char>)
    requires
        n.len() > 0,
        forall |k: int| 0 <= k < n.len() ==> is_word_char(#[trigger] n[k]),
    ensures
        ({
            let s = n + seq![' ', '=', ' ', '\'', 'v', '\''];
            spec_parse_filter(s, 0) == (s.len() as int, seq![
                ComparisonView {
                    operator: Comparator::Equal,
                    left: IdentifierView { entity: Entity::Attribute, key: n },
                    right: LiteralView::StringLit(seq!['v']),
                },
            ])
        }),
{
    let tail = seq![' ', '=', ' ', '\'', 'v', '\''];
    let s = n + tail;
    let ln = n.len() as int;
    assert(s.len() == ln + 6);
    assert(s[ln] == ' ' && s[ln + 1] == '=' && s[ln + 2] == ' ' && s[ln + 3] == '\'' && s[ln + 4]
        == 'v' && s[ln + 5] == '\'');
    assert(qual_attribute()[9] == '.');
    assert(qual_param()[5] == '.');
    assert(qual_metric()[6] == '.');
    assert(qual_tag()[3] == '.');
    lemma_no_qualifier_match(s, n, qual_attribute());
    lemma_no_qualifier_match(s, n, qual_param());
    lemma_no_qualifier_match(s, n, qual_metric());
    lemma_no_qualifier_match(s, n, qual_tag());
    // The bare name runs to the first space.
    assert forall |k: int| 0 <= k < ln implies is_word_char(#[trigger] s[k]) by {
        assert(s[k] == n[k]);
    }
    assert(!is_word_char(' '));
    lemma_scan_word_eq(s, 0, ln);
    assert(s.subrange(0, ln) =~= n);
    assert(spec_identifier(s, 0) == Some((ln, IdentifierView { entity: Entity::Attribute, key: n })));
    // The comparator is `=` with one space on each side.
    lemma_scan_space_eq(s, ln, ln + 1);
    lemma_not_match_first(s, ln + 1, seq!['!', '=']);
    lemma_not_match_first(s, ln + 1, seq!['<', '=']);
    lemma_not_match_first(s, ln + 1, seq!['>', '=']);
    lemma_not_match_first(s, ln + 1, seq!['<']);
    lemma_not_match_first(s, ln + 1, seq!['>']);
    assert(matches_at(s, ln + 1, seq!['='])) by {
        assert(s.subrange(ln + 1, ln + 2) =~= seq!['=']);
    }
    lemma_scan_space_eq(s, ln + 2, ln + 3);
    assert(crate::parser::filter::spec_comparator(s, ln) == Some((ln + 3, Comparator::Equal)));
    // The literal is the string `'v'`: it is no float and no integer.
    lemma_scan_digits_eq(s, ln + 3, ln + 3);
    lemma_scan_until_eq(s, ln + 4, ln + 5, '\'');
    assert(s.subrange(ln + 4, ln + 5) =~= seq!['v']);
    assert(crate::parser::common::spec_literal(s, ln + 3) == Some(
        (ln + 6, LiteralView::StringLit(seq!['v'])),
    ));
    // Nothing follows the comparison.
    lemma_scan_space_eq(s, ln + 6, ln + 6);
    assert(crate::parser::filter::spec_logical_operator(s, ln + 6) is None);
    assert(crate::parser::filter::spec_filter_tail(s, ln + 6) == (ln + 6, Seq::<
        ComparisonView,
    >::empty()));
    let cv = ComparisonView {
        operator: Comparator::Equal,
        left: IdentifierView { entity: Entity::Attribute, key: n },
        right: LiteralView::StringLit(seq!['v']),
    };
    assert(seq![cv] + Seq::<ComparisonView>::empty() =~= seq![cv]);
}

/// The qualifier prefix written before a name.
pub open spec fn qualifier_prefix(e: Entity) -> Seq<char> {
    match e {
        Entity::Attribute => qual_attribute(),
        Entity::Tag => qual_tag(),
        Entity::Param => qual_param(),
        Entity::Metric => qual_metric(),
    }
}

/// Each qualifier prefix sets the identifier's entity accordingly: for every
/// bare name `n` and every qualifier, parsing `qualifier.n` yields an
/// identifier with that entity and key `n`.
pub proof fn lemma_qualifier_selects_entity(entity: Entity, n: Seq<char>)
    requires
        n.len() > 0,
        forall |k: int| 0 <= k < n.len() ==> is_word_char(#[trigger] n[k]),
    ensures
        ({
            let s = qualifier_prefix(entity) + n;
            spec_identifier(s, 0) == Some(
                (s.len() as int, IdentifierView { entity, key: n }),
            )
        }),
{
    let p = qualifier_prefix(entity);
    let s = p + n;
    assert(s.subrange(0, p.len() as int) =~= p);
    assert(s.subrange(p.len() as int, s.len() as int) =~= n);
    match entity {
        Entity::Attribute => {
            assert(matches_at(s, 0, qual_attribute()));
            lemma_name_at_end(s, 10, n);
        },
        Entity::Param => {
            assert(s[0] == 'p');
            lemma_not_match_first(s, 0, qual_attribute());
            assert(matches_at(s, 0, qual_param()));
            lemma_name_at_end(s, 6, n);
        },
        Entity::Metric => {
            assert(s[0] == 'm');
            lemma_not_match_first(s, 0, qual_attribute());
            lemma_not_match_first(s, 0, qual_param());
            assert(matches_at(s, 0, qual_metric()));
            lemma_name_at_end(s, 7, n);
        },
        Entity::Tag => {
            assert(s[0] == 't');
            lemma_not_match_first(s, 0, qual_attribute());
            lemma_not_match_first(s, 0, qual_param());
            lemma_not_match_first(s, 0, qual_metric());
            assert(matches_at(s, 0, qual_tag()));
            lemma_name_at_end(s, 4, n);
        },
    }
}

/// A word character is an ordinary symbol: it is no trim whitespace and no
/// backtick.
proof fn lemma_word_char_is_plain(c: char)
    requires
        is_word_char(c),
    ensures
        !crate::text::is_white_space(c),
        c != '`',
{
}

/// The whole pipeline on `n = 'v'`, for every bare name `n`: the request
/// succeeds, and the statement it produces filters the experiments table by
/// `n = 'v'` and orders by the `experiment_id` tie-breaker alone.
pub proof fn lemma_bare_name_query(n: Seq<char>)
    requires
        n.len() > 0,
        forall |k: int| 0 <= k < n.len() ==> is_word_char(#[trigger] n[k]),
    ensures
        ({
            let s = n + seq![' ', '=', ' ', '\'', 'v', '\''];
            spec_search_experiments_query(Some(s), None) == Ok::<Seq<char>, ErrorView>(
                "SELECT experiments.* FROM experiments WHERE "@ + n
                    + " = 'v' ORDER BY experiment_id ASC LIMIT $1"@,
            )
        }),
{
    let tail = seq![' ', '=', ' ', '\'', 'v', '\''];
    let s = n + tail;
    let ln = n.len() as int;
    // The input carries no surrounding whitespace, so trimming keeps it.
    assert(s[0] == n[0]);
    lemma_word_char_is_plain(n[0]);
    assert(crate::text::trim_start_idx(s, 0) == 0);
    assert(s[s.len() - 1] == '\'');
    assert(crate::text::trim_end_idx(s, s.len() as int) == s.len());
    assert(spec_trim(s) =~= s);
    // It parses whole into the single expected comparison.
    lemma_bare_name_equality(n);
    let cv = ComparisonView {
        operator: Comparator::Equal,
        left: IdentifierView { entity: Entity::Attribute, key: n },
        right: LiteralView::StringLit(seq!['v']),
    };
    let cs = seq![cv];
    assert(spec_parse_filter(spec_trim(s), 0) == (s.len() as int, cs));
    // The one predicate is an attribute predicate with a lawful key.
    assert(crate::query::all_entities_ok(cs)) by {
        assert forall |k: int| 0 <= k < cs.len() implies crate::query::entity_ok(
            #[trigger] cs[k],
        ) by {
            assert(cs[k] == cv);
        }
    }
    assert(crate::query::spec_order_by_list(Seq::<Seq<char>>::empty(), 0) == Ok::<
        Seq<OrderByView>,
        ErrorView,
    >(Seq::<OrderByView>::empty()));
    assert(crate::query::valid_key(n)) by {
        assert forall |k: int| 0 <= k < n.len() implies #[trigger] n[k] != '`' by {
            lemma_word_char_is_plain(n[k]);
        }
    }
    assert(crate::query::first_invalid_comp_key(cs, 0) is None) by {
        assert(cs[0].left.key == n);
        assert(crate::query::first_invalid_comp_key(cs, 1) is None);
    }
    assert(crate::query::first_invalid_ob_key(Seq::<OrderByView>::empty(), 0) is None);
    // The empty ordering list gains the tie-breaker.
    assert(!has_experiment_id(Seq::<OrderByView>::empty()));
    let obs = seq![experiment_id_asc()];
    assert(with_tie_breaker(Seq::<OrderByView>::empty()) =~= obs);
    // The query has no tag sub-query and exactly the one attribute clause.
    assert(seq![cv].drop_last() =~= Seq::<ComparisonView>::empty());
    assert(tag_comps(Seq::<ComparisonView>::empty()) == Seq::<ComparisonView>::empty());
    assert(attr_comps(Seq::<ComparisonView>::empty()) == Seq::<ComparisonView>::empty());
    assert(tag_comps(cs) =~= Seq::<ComparisonView>::empty());
    assert(attr_comps(cs) =~= cs);
    let f = |c: ComparisonView| crate::query::attr_condition(c);
    assert(cs.map_values(f).len() == 1);
    assert(cs.map_values(f)[0] == f(cv));
    assert(spec_join(cs.map_values(f), " AND "@) == f(cv));
    crate::text::lemma_escape_sq_single('v');
    reveal_strlit(" ");
    reveal_strlit("=");
    reveal_strlit(" = 'v' ORDER BY experiment_id ASC LIMIT $1");
    reveal_strlit("experiment_id");
    reveal_strlit("ASC");
    reveal_strlit("experiment_id ASC");
    reveal_strlit(" ORDER BY ");
    reveal_strlit(" LIMIT $1");
    assert(order_by_item(experiment_id_asc()) =~= "experiment_id ASC"@);
    let g = |ob: OrderByView| order_by_item(ob);
    assert(obs.map_values(g).len() == 1);
    assert(obs.map_values(g)[0] == g(experiment_id_asc()));
    assert(order_by_clause(obs) == g(experiment_id_asc()));
    assert(search_experiments_sql(cs, obs) =~= "SELECT experiments.* FROM experiments WHERE "@ + n
        + " = 'v' ORDER BY experiment_id ASC LIMIT $1"@);
}

/// Any residual input after the parsed comparisons makes the whole search
/// request an invalid parameter, carrying the residue in its message.
pub proof fn lemma_trailing_input_fails(filter: Seq<char>)
    requires
        spec_parse_filter(spec_trim(filter), 0).0 < spec_trim(filter).len(),
    ensures
        spec_search_experiments_query(Some(filter), None) == Err::<Seq<char>, ErrorView>(
            ErrorView::InvalidParameter(
                "Invalid filter: "@ + spec_trim(filter).subrange(
                    spec_parse_filter(spec_trim(filter), 0).0,
                    spec_trim(filter).len() as int,
                ),
            ),
        ),
{
}

/// A filter with only attribute predicates generates the plain query over
/// the experiments table: no join and no tag sub-query, so the statement
/// itself makes no reference to the tag table.
pub proof fn lemma_attribute_only_no_tag_join(cs: Seq<ComparisonView>, obs: Seq<OrderByView>)
    requires
        tag_comps(cs).len() == 0,
    ensures
        search_experiments_sql(cs, obs) == "SELECT experiments.* FROM experiments WHERE "@
            + attr_filter(attr_comps(cs)) + " ORDER BY "@ + order_by_clause(obs) + " LIMIT $1"@,
{
}

/// A filter with exactly two tag predicates on distinct keys groups them
/// into two disjuncts, and the sub-query's `HAVING COUNT(*) >= 2` clause
/// holds literally.
pub proof fn lemma_two_distinct_tag_keys(cs: Seq<ComparisonView>)
    requires
        cs.len() == 2,
        cs[0].left.key != cs[1].left.key,
    ensures
        distinct_keys(cs) == seq![cs[0].left.key, cs[1].left.key],
        tag_subquery(cs) == "SELECT experiment_id FROM experiment_tags WHERE "@ + spec_join(
            distinct_keys(cs).map_values(|k: Seq<char>| key_disjunct(cs, k)),
            " OR "@,
        ) + " GROUP BY experiment_id HAVING COUNT(*) >= 2"@,
{
    let k0 = cs[0].left.key;
    let k1 = cs[1].left.key;
    assert(cs.drop_last() =~= seq![cs[0]]);
    assert(seq![cs[0]].drop_last() =~= Seq::<ComparisonView>::empty());
    assert(distinct_keys(Seq::<ComparisonView>::empty()) == Seq::<Seq<char>>::empty());
    assert(!Seq::<Seq<char>>::empty().contains(k0)) by {
        if Seq::<Seq<char>>::empty().contains(k0) {
            let z = choose |z: int| 0 <= z < 0 && Seq::<Seq<char>>::empty()[z] == k0;
        }
    }
    assert(distinct_keys(seq![cs[0]]) =~= seq![k0]);
    assert(!seq![k0].contains(k1)) by {
        if seq![k0].contains(k1) {
            let z = choose |z: int| 0 <= z < 1 && seq![k0][z] == k1;
            assert(k0 == k1);
        }
    }
    assert(distinct_keys(cs) =~= seq![k0, k1]);
    assert(dec_digits(2nat) == seq![crate::text::char_of_digit(2)]);
    assert(crate::text::char_of_digit(2) == '2');
    reveal_strlit(" GROUP BY experiment_id HAVING COUNT(*) >= ");
    reveal_strlit(" GROUP BY experiment_id HAVING COUNT(*) >= 2");
    assert(" GROUP BY experiment_id HAVING COUNT(*) >= "@ + dec_digits(2nat)
        =~= " GROUP BY experiment_id HAVING COUNT(*) >= 2"@);
    assert(tag_subquery(cs) =~= "SELECT experiment_id FROM experiment_tags WHERE "@ + spec_join(
        distinct_keys(cs).map_values(|k: Seq<char>| key_disjunct(cs, k)),
        " OR "@,
    ) + " GROUP BY experiment_id HAVING COUNT(*) >= 2"@);
}

/// When no ordering clause names `experiment_id`, the rendered `ORDER BY`
/// list ends with the tie-breaker `experiment_id ASC`.
pub proof fn lemma_tie_breaker_ends_order_by(obs: Seq<OrderByView>)
    requires
        forall |k: int| 0 <= k < obs.len() ==> (#[trigger] obs[k]).identifier.key
            != experiment_id_key(),
    ensures
        order_by_clause(with_tie_breaker(obs)) == (if obs.len() == 0 {
            "experiment_id ASC"@
        } else {
            order_by_clause(obs) + ", "@ + "experiment_id ASC"@
        }),
{
    assert(!has_experiment_id(obs));
    let full = obs.push(experiment_id_asc());
    let f = |ob: OrderByView| order_by_item(ob);
    assert(full.map_values(f) =~= obs.map_values(f).push(f(experiment_id_asc())));
    crate::text::lemma_spec_join_push(obs.map_values(f), ", "@, f(experiment_id_asc()));
    reveal_strlit("experiment_id");
    reveal_strlit(" ");
    reveal_strlit("ASC");
    reveal_strlit("experiment_id ASC");
    assert(order_by_item(experiment_id_asc()) =~= "experiment_id ASC"@);
    if obs.len() == 0 {
        assert(obs.map_values(f).len() == 0);
    }
}

} // verus!
