//! Tokens shared by the filter and order-by grammars: identifiers (with an
//! optional `attribute.` / `tag.` / `param.` / `metric.` qualifier) and
//! literals (single-quoted strings, integers, floats).
//!
//! Every parsing function takes the input string together with a start
//! position and returns the position just after the consumed token; its
//! contract equates the outcome with a specification-level parse of the same
//! grammar.

use crate::text::digit_val;
use crate::text::digits_val;
use crate::text::is_digit_char;
use crate::text::is_space_char;
use vstd::prelude::*;
use vstd::string::StrSliceExecFns;
use vstd::string::StringExecFns;

verus! {

/// The qualifier of an identifier: which table a predicate addresses.
#[derive(Debug, Clone, Copy, PartialEq, Eq, Structural)]
pub enum Entity {
    Attribute,
    Tag,
    Param,
    Metric,
}

/// A qualified identifier: an entity qualifier and a key.
#[derive(Debug, PartialEq)]
pub struct Identifier {
    pub entity: Entity,
    pub key: String,
}

/// The ghost image of an [`Identifier`].
pub struct IdentifierView {
    pub entity: Entity,
    pub key: Seq<char>,
}

impl View for Identifier {
    type V = IdentifierView;

    open spec fn view(&self) -> IdentifierView {
        IdentifierView { entity: self.entity, key: self.key@ }
    }
}

impl DeepView for Identifier {
    type V = IdentifierView;

    open spec fn deep_view(&self) -> IdentifierView {
        self.view()
    }
}

impl Clone for Identifier {
    fn clone(&self) -> (r: Self)
        ensures
            r == *self,
    {
        Identifier { entity: self.entity, key: self.key.clone() }
    }
}

/// A literal of the query language.
///
/// A float literal is held re-serialised from its parsed parts in a
/// canonical decimal form: an optional minus sign, the integer digits
/// without leading zeros, and — when any remain — a dot and the fraction
/// digits without trailing zeros.  `0.50` parses to `0.5`, and `1.0` to `1`.
#[derive(Debug, PartialEq)]
pub enum Literal {
    String(String),
    Integer(i64),
    Float(String),
}

/// The ghost image of a [`Literal`].
pub enum LiteralView {
    StringLit(Seq<char>),
    IntLit(i64),
    FloatLit(Seq<char>),
}

impl View for Literal {
    type V = LiteralView;

    open spec fn view(&self) -> LiteralView {
        match self {
            Literal::String(s) => LiteralView::StringLit(s@),
            Literal::Integer(v) => LiteralView::IntLit(*v),
            Literal::Float(t) => LiteralView::FloatLit(t@),
        }
    }
}

impl DeepView for Literal {
    type V = LiteralView;

    open spec fn deep_view(&self) -> LiteralView {
        self.view()
    }
}

impl Clone for Literal {
    fn clone(&self) -> (r: Self)
        ensures
            r == *self,
    {
        match self {
            Literal::String(s) => Literal::String(s.clone()),
            Literal::Integer(v) => Literal::Integer(*v),
            Literal::Float(t) => Literal::Float(t.clone()),
        }
    }
}

/// Whether an ASCII character is a letter or a digit.
pub open spec fn ascii_alnum(c: char) -> bool {
    ('a' <= c && c <= 'z') || ('A' <= c && c <= 'Z') || ('0' <= c && c <= '9')
}

/// What `char::is_alphanumeric` returns on a character beyond ASCII.
pub uninterp spec fn unicode_alnum(c: char) -> bool;

/// Whether a character counts as alphanumeric: on ASCII exactly the letters
/// and digits, never a White_Space character, and beyond that whatever
/// Unicode says.
pub open spec fn is_alnum(c: char) -> bool {
    if (c as u32) < 128 {
        ascii_alnum(c)
    } else if crate::text::is_white_space(c) {
        false
    } else {
        unicode_alnum(c)
    }
}

/// Whether a character may stand in a bare identifier.
pub open spec fn is_word_char(c: char) -> bool {
    is_alnum(c) || c == '_'
}

/// Relies on `char::is_alphanumeric`: it holds only of letters and numbers,
/// so on ASCII exactly of the letters and digits and never of a White_Space
/// character; beyond that its result depends on the character alone.
#[verifier::external_body]
fn char_is_alphanumeric(c: char) -> (r: bool)
    ensures
        r == is_alnum(c),
        (c as u32) >= 128 && !crate::text::is_white_space(c) ==> r == unicode_alnum(c),
{
    c.is_alphanumeric()
}

/// The first position at or after `i` whose character is not `'0'` (or
/// `s.len()` if there is none).
pub open spec fn scan_zeros(s: Seq<char>, i: int) -> int
    recommends
        0 <= i <= s.len(),
    decreases s.len() - i,
{
    if i < s.len() && s[i] == '0' {
        scan_zeros(s, i + 1)
    } else {
        i
    }
}

/// The position just after the last character before `i` that is not `'0'`
/// (or `0` if there is none).
pub open spec fn rtrim_zeros(s: Seq<char>, i: int) -> int
    recommends
        0 <= i <= s.len(),
    decreases i,
{
    if i > 0 && s[i - 1] == '0' {
        rtrim_zeros(s, i - 1)
    } else {
        i
    }
}

/// The canonical decimal text of a float literal parsed into a sign, its
/// integer digits and its fraction digits: leading zeros of the integer part
/// and trailing zeros of the fraction are dropped, and the dot is dropped
/// with the last fraction digit.
pub open spec fn canon_float(neg: bool, ip: Seq<char>, fp: Seq<char>) -> Seq<char> {
    let k = scan_zeros(ip, 0);
    let ip2: Seq<char> = if k == ip.len() {
        seq!['0']
    } else {
        ip.subrange(k, ip.len() as int)
    };
    let fp2 = fp.subrange(0, rtrim_zeros(fp, fp.len() as int));
    (if neg {
        seq!['-']
    } else {
        Seq::<char>::empty()
    }) + ip2 + (if fp2.len() > 0 {
        seq!['.'] + fp2
    } else {
        Seq::<char>::empty()
    })
}

// ---------------------------------------------------------------------------
// Scanning: the longest run of a character class starting at a position.
// ---------------------------------------------------------------------------

/// The position just after the longest run of word characters starting at
/// `i`.
pub open spec fn scan_word(s: Seq<char>, i: int) -> int
    recommends
        0 <= i <= s.len(),
    decreases s.len() - i,
{
    if i < s.len() && is_word_char(s[i]) {
        scan_word(s, i + 1)
    } else {
        i
    }
}

/// The position just after the longest run of decimal digits starting at
/// `i`.
pub open spec fn scan_digits(s: Seq<char>, i: int) -> int
    recommends
        0 <= i <= s.len(),
    decreases s.len() - i,
{
    if i < s.len() && is_digit_char(s[i]) {
        scan_digits(s, i + 1)
    } else {
        i
    }
}

/// The position just after the longest run of whitespace starting at `i`.
pub open spec fn scan_space(s: Seq<char>, i: int) -> int
    recommends
        0 <= i <= s.len(),
    decreases s.len() - i,
{
    if i < s.len() && is_space_char(s[i]) {
        scan_space(s, i + 1)
    } else {
        i
    }
}

/// The position of the first occurrence of `stop` at or after `i` (or
/// `s.len()` if there is none).
pub open spec fn scan_until(s: Seq<char>, i: int, stop: char) -> int
    recommends
        0 <= i <= s.len(),
    decreases s.len() - i,
{
    if i < s.len() && s[i] != stop {
        scan_until(s, i + 1, stop)
    } else {
        i
    }
}

/// The position just after the body of a double-quoted identifier starting
/// at `i`: ordinary characters are anything but a backslash or a double
/// quote, and a backslash immediately followed by a double quote is consumed
/// as a pair.
pub open spec fn scan_dquote_body(s: Seq<char>, i: int) -> int
    recommends
        0 <= i <= s.len(),
    decreases s.len() - i,
{
    if i < s.len() && s[i] == '\\' && i + 1 < s.len() && s[i + 1] == '"' {
        scan_dquote_body(s, i + 2)
    } else if i < s.len() && s[i] != '\\' && s[i] != '"' {
        scan_dquote_body(s, i + 1)
    } else {
        i
    }
}

pub proof fn lemma_scan_word_bounds(s: Seq<char>, i: int)
    requires
        0 <= i <= s.len(),
    ensures
        i <= scan_word(s, i) <= s.len(),
        forall |k: int| i <= k < scan_word(s, i) ==> is_word_char(#[trigger] s[k]),
        scan_word(s, i) < s.len() ==> !is_word_char(s[scan_word(s, i)]),
    decreases s.len() - i,
{
    if i < s.len() && is_word_char(s[i]) {
        lemma_scan_word_bounds(s, i + 1);
    }
}

pub proof fn lemma_scan_digits_bounds(s: Seq<char>, i: int)
    requires
        0 <= i <= s.len(),
    ensures
        i <= scan_digits(s, i) <= s.len(),
        forall |k: int| i <= k < scan_digits(s, i) ==> is_digit_char(#[trigger] s[k]),
        scan_digits(s, i) < s.len() ==> !is_digit_char(s[scan_digits(s, i)]),
    decreases s.len() - i,
{
    if i < s.len() && is_digit_char(s[i]) {
        lemma_scan_digits_bounds(s, i + 1);
    }
}

pub proof fn lemma_scan_space_bounds(s: Seq<char>, i: int)
    requires
        0 <= i <= s.len(),
    ensures
        i <= scan_space(s, i) <= s.len(),
        forall |k: int| i <= k < scan_space(s, i) ==> is_space_char(#[trigger] s[k]),
        scan_space(s, i) < s.len() ==> !is_space_char(s[scan_space(s, i)]),
    decreases s.len() - i,
{
    if i < s.len() && is_space_char(s[i]) {
        lemma_scan_space_bounds(s, i + 1);
    }
}

pub proof fn lemma_scan_until_bounds(s: Seq<char>, i: int, stop: char)
    requires
        0 <= i <= s.len(),
    ensures
        i <= scan_until(s, i, stop) <= s.len(),
        forall |k: int| i <= k < scan_until(s, i, stop) ==> #[trigger] s[k] != stop,
        scan_until(s, i, stop) < s.len() ==> s[scan_until(s, i, stop)] == stop,
    decreases s.len() - i,
{
    if i < s.len() && s[i] != stop {
        lemma_scan_until_bounds(s, i + 1, stop);
    }
}

pub proof fn lemma_scan_dquote_body_bounds(s: Seq<char>, i: int)
    requires
        0 <= i <= s.len(),
    ensures
        i <= scan_dquote_body(s, i) <= s.len(),
    decreases s.len() - i,
{
    if i < s.len() && s[i] == '\\' && i + 1 < s.len() && s[i + 1] == '"' {
        lemma_scan_dquote_body_bounds(s, i + 2);
    } else if i < s.len() && s[i] != '\\' && s[i] != '"' {
        lemma_scan_dquote_body_bounds(s, i + 1);
    }
}

/// A scan of word characters stops exactly at the first position that is not
/// one.
pub proof fn lemma_scan_word_eq(s: Seq<char>, i: int, m: int)
    requires
        0 <= i <= m <= s.len(),
        forall |k: int| i <= k < m ==> is_word_char(#[trigger] s[k]),
        m < s.len() ==> !is_word_char(s[m]),
    ensures
        scan_word(s, i) == m,
    decreases m - i,
{
    if i < m {
        lemma_scan_word_eq(s, i + 1, m);
    }
}

/// A scan of digits stops exactly at the first position that is not one.
pub proof fn lemma_scan_digits_eq(s: Seq<char>, i: int, m: int)
    requires
        0 <= i <= m <= s.len(),
        forall |k: int| i <= k < m ==> is_digit_char(#[trigger] s[k]),
        m < s.len() ==> !is_digit_char(s[m]),
    ensures
        scan_digits(s, i) == m,
    decreases m - i,
{
    if i < m {
        lemma_scan_digits_eq(s, i + 1, m);
    }
}

/// A scan of whitespace stops exactly at the first position that is not
/// whitespace.
pub proof fn lemma_scan_space_eq(s: Seq<char>, i: int, m: int)
    requires
        0 <= i <= m <= s.len(),
        forall |k: int| i <= k < m ==> is_space_char(#[trigger] s[k]),
        m < s.len() ==> !is_space_char(s[m]),
    ensures
        scan_space(s, i) == m,
    decreases m - i,
{
    if i < m {
        lemma_scan_space_eq(s, i + 1, m);
    }
}

/// A scan for a stop character stops exactly at its first occurrence.
pub proof fn lemma_scan_until_eq(s: Seq<char>, i: int, m: int, stop: char)
    requires
        0 <= i <= m <= s.len(),
        forall |k: int| i <= k < m ==> #[trigger] s[k] != stop,
        m < s.len() ==> s[m] == stop,
    ensures
        scan_until(s, i, stop) == m,
    decreases m - i,
{
    if i < m {
        lemma_scan_until_eq(s, i + 1, m, stop);
    }
}

// ---------------------------------------------------------------------------
// The specification-level grammar.
// ---------------------------------------------------------------------------

/// The characters of the `attribute.` qualifier prefix.
pub open spec fn qual_attribute() -> Seq<char> {
    seq!['a', 't', 't', 'r', 'i', 'b', 'u', 't', 'e', '.']
}

/// The characters of the `param.` qualifier prefix.
pub open spec fn qual_param() -> Seq<char> {
    seq!['p', 'a', 'r', 'a', 'm', '.']
}

/// The characters of the `metric.` qualifier prefix.
pub open spec fn qual_metric() -> Seq<char> {
    seq!['m', 'e', 't', 'r', 'i', 'c', '.']
}

/// The characters of the `tag.` qualifier prefix.
pub open spec fn qual_tag() -> Seq<char> {
    seq!['t', 'a', 'g', '.']
}

/// Whether the characters of `t` stand in `s` at position `i`.
pub open spec fn matches_at(s: Seq<char>, i: int, t: Seq<char>) -> bool {
    0 <= i && i + t.len() <= s.len() && s.subrange(i, i + t.len()) == t
}

/// A name: a bare run of word characters, a double-quoted body, or a
/// non-empty backtick-quoted body.  Quoted bodies are kept verbatim, with no
/// unescaping.
pub open spec fn spec_name(s: Seq<char>, i: int) -> Option<(int, Seq<char>)>
    recommends
        0 <= i <= s.len(),
{
    if i < s.len() && is_word_char(s[i]) {
        let j = scan_word(s, i);
        Some((j, s.subrange(i, j)))
    } else if i < s.len() && s[i] == '"' {
        let j = scan_dquote_body(s, i + 1);
        if j < s.len() && s[j] == '"' {
            Some((j + 1, s.subrange(i + 1, j)))
        } else {
            None
        }
    } else if i < s.len() && s[i] == '`' {
        let j = scan_until(s, i + 1, '`');
        if j > i + 1 && j < s.len() {
            Some((j + 1, s.subrange(i + 1, j)))
        } else {
            None
        }
    } else {
        None
    }
}

/// An identifier: an optional qualifier prefix (defaulting to `attribute`)
/// followed by a name.
pub open spec fn spec_identifier(s: Seq<char>, i: int) -> Option<(int, IdentifierView)>
    recommends
        0 <= i <= s.len(),
{
    let q: (int, Entity) = if matches_at(s, i, qual_attribute()) {
        (i + 10, Entity::Attribute)
    } else if matches_at(s, i, qual_param()) {
        (i + 6, Entity::Param)
    } else if matches_at(s, i, qual_metric()) {
        (i + 7, Entity::Metric)
    } else if matches_at(s, i, qual_tag()) {
        (i + 4, Entity::Tag)
    } else {
        (i, Entity::Attribute)
    };
    match spec_name(s, q.0) {
        Some((j, key)) => Some((j, IdentifierView { entity: q.1, key })),
        None => None,
    }
}

/// A single-quoted string literal; the body is every character up to the
/// next quote and may be empty.
pub open spec fn spec_string_literal(s: Seq<char>, i: int) -> Option<(int, LiteralView)>
    recommends
        0 <= i <= s.len(),
{
    if i < s.len() && s[i] == '\'' {
        let j = scan_until(s, i + 1, '\'');
        if j < s.len() {
            Some((j + 1, LiteralView::StringLit(s.subrange(i + 1, j))))
        } else {
            None
        }
    } else {
        None
    }
}

/// An integer literal: an optional minus sign and one or more digits, whose
/// magnitude must fit in an `i64`.
pub open spec fn spec_integer_literal(s: Seq<char>, i: int) -> Option<(int, LiteralView)>
    recommends
        0 <= i <= s.len(),
{
    let neg = i < s.len() && s[i] == '-';
    let j0: int = if neg {
        i + 1
    } else {
        i
    };
    let j1 = scan_digits(s, j0);
    if j1 > j0 {
        let v = digits_val(s.subrange(j0, j1));
        if v <= 0x7fff_ffff_ffff_ffff {
            Some(
                (j1, LiteralView::IntLit(
                    (if neg {
                        -(v as int)
                    } else {
                        v as int
                    }) as i64,
                )),
            )
        } else {
            None
        }
    } else {
        None
    }
}

/// A float literal: an optional minus sign, digits, a dot, digits; its value
/// is the double that the lexeme denotes.
pub open spec fn spec_float_literal(s: Seq<char>, i: int) -> Option<(int, LiteralView)>
    recommends
        0 <= i <= s.len(),
{
    let neg = i < s.len() && s[i] == '-';
    let j0: int = if neg {
        i + 1
    } else {
        i
    };
    let j1 = scan_digits(s, j0);
    if j1 > j0 && j1 < s.len() && s[j1] == '.' {
        let j2 = scan_digits(s, j1 + 1);
        if j2 > j1 + 1 {
            Some(
                (j2, LiteralView::FloatLit(
                    canon_float(neg, s.subrange(j0, j1), s.subrange(j1 + 1, j2)),
                )),
            )
        } else {
            None
        }
    } else {
        None
    }
}

/// A literal, trying float before integer before string.
pub open spec fn spec_literal(s: Seq<char>, i: int) -> Option<(int, LiteralView)>
    recommends
        0 <= i <= s.len(),
{
    match spec_float_literal(s, i) {
        Some(r) => Some(r),
        None => match spec_integer_literal(s, i) {
            Some(r) => Some(r),
            None => spec_string_literal(s, i),
        },
    }
}

/// A successful name parse consumes at least one character and stays inside
/// the input.
pub proof fn lemma_spec_name_props(s: Seq<char>, i: int)
    requires
        0 <= i <= s.len(),
    ensures
        match spec_name(s, i) {
            Some(p) => i < p.0 <= s.len(),
            None => true,
        },
{
    lemma_scan_word_bounds(s, i);
    if i < s.len() {
        lemma_scan_dquote_body_bounds(s, i + 1);
        lemma_scan_until_bounds(s, i + 1, '`');
        if is_word_char(s[i]) {
            assert(scan_word(s, i) == scan_word(s, i + 1));
        }
    }
}

/// A successful identifier parse consumes at least one character and stays
/// inside the input.
pub proof fn lemma_spec_identifier_props(s: Seq<char>, i: int)
    requires
        0 <= i <= s.len(),
    ensures
        match spec_identifier(s, i) {
            Some(p) => i < p.0 <= s.len(),
            None => true,
        },
{
    if matches_at(s, i, qual_attribute()) {
        lemma_spec_name_props(s, i + 10);
    } else if matches_at(s, i, qual_param()) {
        lemma_spec_name_props(s, i + 6);
    } else if matches_at(s, i, qual_metric()) {
        lemma_spec_name_props(s, i + 7);
    } else if matches_at(s, i, qual_tag()) {
        lemma_spec_name_props(s, i + 4);
    } else {
        lemma_spec_name_props(s, i);
    }
}

/// A successful literal parse consumes at least one character and stays
/// inside the input.
pub proof fn lemma_spec_literal_props(s: Seq<char>, i: int)
    requires
        0 <= i <= s.len(),
    ensures
        match spec_literal(s, i) {
            Some(p) => i < p.0 <= s.len(),
            None => true,
        },
{
    let neg = i < s.len() && s[i] == '-';
    let j0: int = if neg {
        i + 1
    } else {
        i
    };
    if j0 <= s.len() {
        lemma_scan_digits_bounds(s, j0);
        let j1 = scan_digits(s, j0);
        if j1 + 1 <= s.len() {
            lemma_scan_digits_bounds(s, j1 + 1);
        }
    }
    if i < s.len() {
        lemma_scan_until_bounds(s, i + 1, '\'');
    }
}

// ---------------------------------------------------------------------------
// Executable scanning.
// ---------------------------------------------------------------------------

/// Whether the character of `s` at `i` may stand in a bare identifier.
fn word_char_at(s: &str, i: usize) -> (r: bool)
    requires
        i < s@.len(),
    ensures
        r == is_word_char(s@[i as int]),
{
    let c = s.get_char(i);
    c == '_' || char_is_alphanumeric(c)
}

/// Whether the character of `s` at `i` is a decimal digit.
fn digit_char_at(s: &str, i: usize) -> (r: bool)
    requires
        i < s@.len(),
    ensures
        r == is_digit_char(s@[i as int]),
{
    let c = s.get_char(i);
    '0' <= c && c <= '9'
}

/// Whether the character of `s` at `i` is token whitespace.
pub(crate) fn space_char_at(s: &str, i: usize) -> (r: bool)
    requires
        i < s@.len(),
    ensures
        r == is_space_char(s@[i as int]),
{
    let c = s.get_char(i);
    c == ' ' || c == '\t' || c == '\n' || c == '\r'
}

/// Whether the character of `s` at `i` differs from `stop`.
fn not_char_at(s: &str, i: usize, stop: char) -> (r: bool)
    requires
        i < s@.len(),
    ensures
        r == (s@[i as int] != stop),
{
    s.get_char(i) != stop
}

/// The end of the run of word characters starting at `i`.
fn scan_word_exec(s: &str, i: usize) -> (j: usize)
    requires
        i as int <= s@.len(),
    ensures
        j as int == scan_word(s@, i as int),
        i <= j && j as int <= s@.len(),
{
    let n: usize = s.unicode_len();
    let mut j: usize = i;
    while j < n && word_char_at(s, j)
        invariant
            n == s@.len(),
            i <= j <= n,
            scan_word(s@, i as int) == scan_word(s@, j as int),
        decreases n - j,
    {
        j = j + 1;
    }
    j
}

/// The end of the run of decimal digits starting at `i`.
pub(crate) fn scan_digits_exec(s: &str, i: usize) -> (j: usize)
    requires
        i as int <= s@.len(),
    ensures
        j as int == scan_digits(s@, i as int),
        i <= j && j as int <= s@.len(),
{
    let n: usize = s.unicode_len();
    let mut j: usize = i;
    while j < n && digit_char_at(s, j)
        invariant
            n == s@.len(),
            i <= j <= n,
            scan_digits(s@, i as int) == scan_digits(s@, j as int),
        decreases n - j,
    {
        j = j + 1;
    }
    j
}

/// The end of the run of whitespace starting at `i`.
pub(crate) fn scan_space_exec(s: &str, i: usize) -> (j: usize)
    requires
        i as int <= s@.len(),
    ensures
        j as int == scan_space(s@, i as int),
        i <= j && j as int <= s@.len(),
{
    let n: usize = s.unicode_len();
    let mut j: usize = i;
    while j < n && space_char_at(s, j)
        invariant
            n == s@.len(),
            i <= j <= n,
            scan_space(s@, i as int) == scan_space(s@, j as int),
        decreases n - j,
    {
        j = j + 1;
    }
    j
}

/// The position of the first `stop` character at or after `i`.
pub(crate) fn scan_until_exec(s: &str, i: usize, stop: char) -> (j: usize)
    requires
        i as int <= s@.len(),
    ensures
        j as int == scan_until(s@, i as int, stop),
        i <= j && j as int <= s@.len(),
{
    let n: usize = s.unicode_len();
    let mut j: usize = i;
    while j < n && not_char_at(s, j, stop)
        invariant
            n == s@.len(),
            i <= j <= n,
            scan_until(s@, i as int, stop) == scan_until(s@, j as int, stop),
        decreases n - j,
    {
        j = j + 1;
    }
    j
}

/// The end of the body of a double-quoted identifier starting at `i`.
pub(crate) fn scan_dquote_body_exec(s: &str, i: usize) -> (j: usize)
    requires
        i as int <= s@.len(),
    ensures
        j as int == scan_dquote_body(s@, i as int),
        i <= j && j as int <= s@.len(),
{
    let n: usize = s.unicode_len();
    let mut j: usize = i;
    let mut done: bool = false;
    while !done
        invariant
            n == s@.len(),
            i <= j <= n,
            scan_dquote_body(s@, i as int) == scan_dquote_body(s@, j as int),
            done ==> j as int == scan_dquote_body(s@, j as int),
        decreases n - j + (if done {
            0int
        } else {
            1int
        }),
    {
        if j < n {
            let c = s.get_char(j);
            if c == '\\' {
                if j + 1 < n && s.get_char(j + 1) == '"' {
                    j = j + 2;
                } else {
                    done = true;
                }
            } else if c == '"' {
                done = true;
            } else {
                j = j + 1;
            }
        } else {
            done = true;
        }
    }
    j
}

/// The end of the run of `'0'` characters starting at `i`.
fn scan_zeros_exec(s: &str, i: usize) -> (j: usize)
    requires
        i as int <= s@.len(),
    ensures
        j as int == scan_zeros(s@, i as int),
        i <= j && j as int <= s@.len(),
{
    let n: usize = s.unicode_len();
    let mut j: usize = i;
    while j < n && !not_char_at(s, j, '0')
        invariant
            n == s@.len(),
            i <= j <= n,
            scan_zeros(s@, i as int) == scan_zeros(s@, j as int),
        decreases n - j,
    {
        j = j + 1;
    }
    j
}

/// The end of `s` once trailing `'0'` characters are dropped.
fn rtrim_zeros_exec(s: &str) -> (j: usize)
    ensures
        j as int == rtrim_zeros(s@, s@.len() as int),
        j as int <= s@.len(),
{
    let n: usize = s.unicode_len();
    let mut j: usize = n;
    while j > 0 && !not_char_at(s, j - 1, '0')
        invariant
            n == s@.len(),
            0 <= j <= n,
            rtrim_zeros(s@, n as int) == rtrim_zeros(s@, j as int),
        decreases j,
    {
        j = j - 1;
    }
    j
}

/// Whether `c` matches the lowercase keyword character `k`, ignoring ASCII
/// case.
pub open spec fn eq_nocase(c: char, k: char) -> bool {
    c == k || ('a' <= k && k <= 'z' && c as int == k as int - 32)
}

/// Whether the keyword `t` (written in lowercase) stands in `s` at position
/// `i`, ignoring ASCII case.
pub open spec fn matches_nocase_at(s: Seq<char>, i: int, t: Seq<char>) -> bool {
    0 <= i && i + t.len() <= s.len() && forall |q: int|
        0 <= q < t.len() ==> eq_nocase(#[trigger] s[i + q], t[q])
}

/// Whether the keyword `t` (lowercase) stands in `s` at `i`, ignoring ASCII
/// case.
pub(crate) fn matches_nocase_lit(s: &str, i: usize, t: &str) -> (r: bool)
    requires
        i as int <= s@.len(),
    ensures
        r == matches_nocase_at(s@, i as int, t@),
{
    let n: usize = s.unicode_len();
    let m: usize = t.unicode_len();
    if m > n - i {
        return false;
    }
    let mut k: usize = 0;
    while k < m
        invariant
            n == s@.len(),
            m == t@.len(),
            i + m <= n,
            0 <= k <= m,
            forall |q: int| 0 <= q < k ==> eq_nocase(#[trigger] s@[i + q], t@[q]),
        decreases m - k,
    {
        let cs = s.get_char(i + k);
        let ct = t.get_char(k);
        if !(cs == ct || ('a' <= ct && ct <= 'z' && cs as u32 == ct as u32 - 32)) {
            return false;
        }
        k = k + 1;
    }
    true
}

/// Whether the characters of `t` stand in `s` at position `i`.
pub(crate) fn matches_lit_at(s: &str, i: usize, t: &str) -> (r: bool)
    requires
        i as int <= s@.len(),
    ensures
        r == matches_at(s@, i as int, t@),
{
    let n: usize = s.unicode_len();
    let m: usize = t.unicode_len();
    if m > n - i {
        proof {
            assert(!matches_at(s@, i as int, t@));
        }
        return false;
    }
    let mut k: usize = 0;
    while k < m
        invariant
            n == s@.len(),
            m == t@.len(),
            i + m <= n,
            0 <= k <= m,
            forall |q: int| 0 <= q < k ==> s@[i + q] == t@[q],
        decreases m - k,
    {
        if s.get_char(i + k) != t.get_char(k) {
            proof {
                assert(s@.subrange(i as int, i + t@.len()) != t@) by {
                    assert(s@.subrange(i as int, i + t@.len())[k as int] != t@[k as int]);
                }
            }
            return false;
        }
        k = k + 1;
    }
    proof {
        assert(s@.subrange(i as int, i + t@.len()) =~= t@);
    }
    true
}

// ---------------------------------------------------------------------------
// Executable token parsers.
// ---------------------------------------------------------------------------

/// A bare name: a non-empty run of word characters.  Returns the position
/// just after the run and the matched text.
pub fn alphanumeric_or_underscore(s: &str, i: usize) -> (r: Option<(usize, String)>)
    requires
        i as int <= s@.len(),
    ensures
        r is Some <==> (i as int) < s@.len() && is_word_char(s@[i as int]),
        r matches Some(p) ==> p.0 as int == scan_word(s@, i as int) && p.1@ == s@.subrange(
            i as int,
            scan_word(s@, i as int),
        ),
{
    let n: usize = s.unicode_len();
    if i < n && word_char_at(s, i) {
        let j = scan_word_exec(s, i);
        proof {
            lemma_scan_word_bounds(s@, i as int);
        }
        Some((j, s.substring_char(i, j).to_owned()))
    } else {
        None
    }
}

/// A double-quoted name: the body may be empty and may hold backslash-quote
/// pairs, which are kept verbatim.
pub fn double_quote_delimited(s: &str, i: usize) -> (r: Option<(usize, String)>)
    requires
        i as int <= s@.len(),
    ensures
        ({
            let v = spec_name(s@, i as int);
            ((i as int) < s@.len() && s@[i as int] == '"') ==> match r {
                Some(p) => v == Some((p.0 as int, p.1@)),
                None => v is None,
            }
        }),
        r is Some ==> (i as int) < s@.len() && s@[i as int] == '"',
{
    let n: usize = s.unicode_len();
    if i < n && !not_char_at(s, i, '"') {
        let j = scan_dquote_body_exec(s, i + 1);
        if j < n && !not_char_at(s, j, '"') {
            proof {
                assert(!is_word_char('"'));
            }
            Some((j + 1, s.substring_char(i + 1, j).to_owned()))
        } else {
            None
        }
    } else {
        None
    }
}

/// A backtick-quoted name: a non-empty body of anything but backticks, kept
/// verbatim.
pub fn backtick_delimited(s: &str, i: usize) -> (r: Option<(usize, String)>)
    requires
        i as int <= s@.len(),
    ensures
        ({
            let v = spec_name(s@, i as int);
            ((i as int) < s@.len() && s@[i as int] == '`') ==> match r {
                Some(p) => v == Some((p.0 as int, p.1@)),
                None => v is None,
            }
        }),
        r is Some ==> (i as int) < s@.len() && s@[i as int] == '`',
{
    let n: usize = s.unicode_len();
    if i < n && !not_char_at(s, i, '`') {
        let j = scan_until_exec(s, i + 1, '`');
        if j > i + 1 && j < n {
            proof {
                assert(!is_word_char('`'));
                lemma_scan_until_bounds(s@, i + 1 as int, '`');
            }
            Some((j + 1, s.substring_char(i + 1, j).to_owned()))
        } else {
            None
        }
    } else {
        None
    }
}

/// An identifier: an optional qualifier prefix (defaulting to `attribute`)
/// and a name.
pub fn identifier(s: &str, i: usize) -> (r: Option<(usize, Identifier)>)
    requires
        i as int <= s@.len(),
    ensures
        match r {
            Some(p) => spec_identifier(s@, i as int) == Some((p.0 as int, p.1@)),
            None => spec_identifier(s@, i as int) is None,
        },
{
    proof {
        reveal_strlit("attribute.");
        reveal_strlit("param.");
        reveal_strlit("metric.");
        reveal_strlit("tag.");
        assert("attribute."@ =~= qual_attribute());
        assert("param."@ =~= qual_param());
        assert("metric."@ =~= qual_metric());
        assert("tag."@ =~= qual_tag());
    }
    let n: usize = s.unicode_len();
    let entity: Entity;
    let j: usize;
    if matches_lit_at(s, i, "attribute.") {
        entity = Entity::Attribute;
        j = i + 10;
    } else if matches_lit_at(s, i, "param.") {
        entity = Entity::Param;
        j = i + 6;
    } else if matches_lit_at(s, i, "metric.") {
        entity = Entity::Metric;
        j = i + 7;
    } else if matches_lit_at(s, i, "tag.") {
        entity = Entity::Tag;
        j = i + 4;
    } else {
        entity = Entity::Attribute;
        j = i;
    }
    let name = name_token(s, j);
    match name {
        Some((k, key)) => Some((k, Identifier { entity, key })),
        None => None,
    }
}

/// A name in any of its three forms.
fn name_token(s: &str, i: usize) -> (r: Option<(usize, String)>)
    requires
        i as int <= s@.len(),
    ensures
        match r {
            Some(p) => spec_name(s@, i as int) == Some((p.0 as int, p.1@)),
            None => spec_name(s@, i as int) is None,
        },
{
    let n: usize = s.unicode_len();
    if i < n && word_char_at(s, i) {
        match alphanumeric_or_underscore(s, i) {
            Some(p) => Some(p),
            None => None,
        }
    } else if i < n && !not_char_at(s, i, '"') {
        double_quote_delimited(s, i)
    } else if i < n && !not_char_at(s, i, '`') {
        backtick_delimited(s, i)
    } else {
        None
    }
}

/// A single-quoted string literal.
pub fn string_literal(s: &str, i: usize) -> (r: Option<(usize, Literal)>)
    requires
        i as int <= s@.len(),
    ensures
        match r {
            Some(p) => spec_string_literal(s@, i as int) == Some((p.0 as int, p.1@)),
            None => spec_string_literal(s@, i as int) is None,
        },
{
    let n: usize = s.unicode_len();
    if i < n && !not_char_at(s, i, '\'') {
        let j = scan_until_exec(s, i + 1, '\'');
        if j < n {
            Some((j + 1, Literal::String(s.substring_char(i + 1, j).to_owned())))
        } else {
            None
        }
    } else {
        None
    }
}

/// An integer literal.  A magnitude beyond `i64` is not a literal at all.
pub fn integer_literal(s: &str, i: usize) -> (r: Option<(usize, Literal)>)
    requires
        i as int <= s@.len(),
    ensures
        match r {
            Some(p) => spec_integer_literal(s@, i as int) == Some((p.0 as int, p.1@)),
            None => spec_integer_literal(s@, i as int) is None,
        },
{
    let n: usize = s.unicode_len();
    let neg = i < n && !not_char_at(s, i, '-');
    let j0: usize = if neg {
        i + 1
    } else {
        i
    };
    let j1 = scan_digits_exec(s, j0);
    if j1 > j0 {
        proof {
            lemma_scan_digits_bounds(s@, j0 as int);
        }
        match digits_to_u64(s, j0, j1) {
            Some(v) => {
                let value: i64 = if neg {
                    (-(v as i64))
                } else {
                    v as i64
                };
                Some((j1, Literal::Integer(value)))
            },
            None => None,
        }
    } else {
        None
    }
}

/// The value of the digit run `s[lo..hi]`, or `None` when it does not fit in
/// an `i64` magnitude.
pub(crate) fn digits_to_u64(s: &str, lo: usize, hi: usize) -> (r: Option<u64>)
    requires
        0 <= lo <= hi,
        hi as int <= s@.len(),
        forall |k: int| lo <= k < hi ==> is_digit_char(#[trigger] s@[k]),
    ensures
        ({
            let v = digits_val(s@.subrange(lo as int, hi as int));
            match r {
                Some(x) => v == x && x <= 0x7fff_ffff_ffff_ffff,
                None => v > 0x7fff_ffff_ffff_ffff,
            }
        }),
{
    let mut acc: u64 = 0;
    let mut k: usize = lo;
    proof {
        assert(s@.subrange(lo as int, lo as int) =~= Seq::<char>::empty());
    }
    while k < hi
        invariant
            0 <= lo <= k <= hi,
            hi as int <= s@.len(),
            forall |q: int| lo <= q < hi ==> is_digit_char(#[trigger] s@[q]),
            acc as nat == digits_val(s@.subrange(lo as int, k as int)),
            acc <= 0x7fff_ffff_ffff_ffff,
        decreases hi - k,
    {
        let c = s.get_char(k);
        let d: u64 = (c as u32 as u64) - 48;
        proof {
            assert(is_digit_char(s@[k as int]));
            assert(d == digit_val(s@[k as int]));
            assert(d <= 9);
        }
        if acc > (0x7fff_ffff_ffff_ffffu64 - d) / 10 {
            proof {
                let prefix = s@.subrange(lo as int, k as int);
                let full = s@.subrange(lo as int, hi as int);
                crate::text::lemma_digits_val_append(prefix, s@[k as int]);
                assert(prefix.push(s@[k as int]) =~= s@.subrange(lo as int, k + 1 as int));
                lemma_digits_val_prefix(s@, lo as int, k + 1 as int, hi as int);
                assert(digits_val(s@.subrange(lo as int, k + 1 as int)) > 0x7fff_ffff_ffff_ffff);
            }
            return None;
        }
        proof {
            let prefix = s@.subrange(lo as int, k as int);
            crate::text::lemma_digits_val_append(prefix, s@[k as int]);
            assert(prefix.push(s@[k as int]) =~= s@.subrange(lo as int, k + 1 as int));
        }
        acc = acc * 10 + d;
        k = k + 1;
    }
    Some(acc)
}

/// Digit-string values never shrink as more digits are appended.
proof fn lemma_digits_val_prefix(s: Seq<char>, lo: int, mid: int, hi: int)
    requires
        0 <= lo <= mid <= hi <= s.len(),
    ensures
        digits_val(s.subrange(lo, mid)) <= digits_val(s.subrange(lo, hi)),
    decreases hi - mid,
{
    if mid < hi {
        crate::text::lemma_digits_val_append(s.subrange(lo, mid), s[mid]);
        assert(s.subrange(lo, mid).push(s[mid]) =~= s.subrange(lo, mid + 1));
        assert(digits_val(s.subrange(lo, mid)) <= digits_val(s.subrange(lo, mid + 1)));
        lemma_digits_val_prefix(s, lo, mid + 1, hi);
    } else {
        assert(s.subrange(lo, mid) =~= s.subrange(lo, hi));
    }
}

/// A float literal, re-serialised to its canonical decimal text.
pub fn float_literal(s: &str, i: usize) -> (r: Option<(usize, Literal)>)
    requires
        i as int <= s@.len(),
    ensures
        match r {
            Some(p) => spec_float_literal(s@, i as int) == Some((p.0 as int, p.1@)),
            None => spec_float_literal(s@, i as int) is None,
        },
{
    let n: usize = s.unicode_len();
    let neg = i < n && !not_char_at(s, i, '-');
    let j0: usize = if neg {
        i + 1
    } else {
        i
    };
    let j1 = scan_digits_exec(s, j0);
    if j1 > j0 && j1 < n && !not_char_at(s, j1, '.') {
        let j2 = scan_digits_exec(s, j1 + 1);
        if j2 > j1 + 1 {
            let ip = s.substring_char(j0, j1);
            let fp = s.substring_char(j1 + 1, j2);
            let text = render_canon_float(neg, ip, fp);
            Some((j2, Literal::Float(text)))
        } else {
            None
        }
    } else {
        None
    }
}

/// The canonical decimal text of a parsed float: sign, integer digits
/// without leading zeros, fraction digits without trailing zeros.
fn render_canon_float(neg: bool, ip: &str, fp: &str) -> (r: String)
    ensures
        r@ == canon_float(neg, ip@, fp@),
{
    proof {
        reveal_strlit("-");
        reveal_strlit("0");
        reveal_strlit(".");
    }
    let ip_n: usize = ip.unicode_len();
    let fp_n: usize = fp.unicode_len();
    let mut out = String::new();
    if neg {
        out.append("-");
    }
    let k = scan_zeros_exec(ip, 0);
    if k == ip_n {
        out.append("0");
        proof {
            assert(out@ =~= (if neg {
                seq!['-']
            } else {
                Seq::<char>::empty()
            }) + seq!['0']);
        }
    } else {
        out.append(ip.substring_char(k, ip_n));
    }
    let m = rtrim_zeros_exec(fp);
    if m > 0 {
        out.append(".");
        out.append(fp.substring_char(0, m));
        proof {
            assert(out@ =~= canon_float(neg, ip@, fp@));
        }
    } else {
        proof {
            assert(fp@.subrange(0, rtrim_zeros(fp@, fp@.len() as int)).len() == 0);
            assert(out@ =~= canon_float(neg, ip@, fp@));
        }
    }
    out
}

/// A literal, trying float before integer before string.
pub fn literal(s: &str, i: usize) -> (r: Option<(usize, Literal)>)
    requires
        i as int <= s@.len(),
    ensures
        match r {
            Some(p) => spec_literal(s@, i as int) == Some((p.0 as int, p.1@)),
            None => spec_literal(s@, i as int) is None,
        },
{
    match float_literal(s, i) {
        Some(p) => Some(p),
        None => match integer_literal(s, i) {
            Some(p) => Some(p),
            None => string_literal(s, i),
        },
    }
}

} // verus!
