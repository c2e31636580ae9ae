//! Small verified text utilities shared by the lexer and the query builder:
//! character classes, decimal rendering of integers, whitespace trimming and
//! single-quote escaping.

use vstd::prelude::*;
use vstd::string::StrSliceExecFns;
use vstd::string::StringExecFns;

verus! {

/// An ASCII decimal digit.
pub open spec fn is_digit_char(c: char) -> bool {
    '0' <= c && c <= '9'
}

/// The numeric value of an ASCII decimal digit.
pub open spec fn digit_val(c: char) -> int {
    c as int - 48
}

/// The ASCII decimal digit with value `d`.
pub open spec fn char_of_digit(d: int) -> char {
    ((d + 48) as char)
}

/// The whitespace characters that may separate tokens inside a filter or
/// order-by string: space, tab, newline, carriage return.
pub open spec fn is_space_char(c: char) -> bool {
    c == ' ' || c == '\t' || c == '\n' || c == '\r'
}

/// The Unicode White_Space characters, removed from both ends of an input
/// string before parsing: the ASCII whitespace, next line, no-break space,
/// the Ogham space mark, the typographic spaces, the line and paragraph
/// separators, the narrow and medium mathematical spaces, and the
/// ideographic space.
pub open spec fn is_white_space(c: char) -> bool {
    ('\u{9}' <= c && c <= '\u{d}') || c == ' ' || c == '\u{85}' || c == '\u{a0}' || c == '\u{1680}'
        || ('\u{2000}' <= c && c <= '\u{200a}') || c == '\u{2028}' || c == '\u{2029}'
        || c == '\u{202f}' || c == '\u{205f}' || c == '\u{3000}'
}

/// The decimal digit string of `v`, most significant digit first, no sign and
/// no leading zero (except for `v == 0` itself).
pub open spec fn dec_digits(v: nat) -> Seq<char>
    decreases v,
{
    if v < 10 {
        seq![char_of_digit(v as int)]
    } else {
        dec_digits(v / 10).push(char_of_digit((v % 10) as int))
    }
}

/// The decimal string of `v`: a `-` sign for negative values, then the digits.
pub open spec fn dec_int(v: int) -> Seq<char> {
    if v < 0 {
        seq!['-'] + dec_digits((-v) as nat)
    } else {
        dec_digits(v as nat)
    }
}

/// The value of a digit string, most significant digit first.
pub open spec fn digits_val(s: Seq<char>) -> nat
    decreases s.len(),
{
    if s.len() == 0 {
        0
    } else {
        digits_val(s.drop_last()) * 10 + (if is_digit_char(s.last()) {
            digit_val(s.last()) as nat
        } else {
            0
        })
    }
}

/// `s` with every single quote doubled; all other characters are unchanged.
pub open spec fn escape_sq(s: Seq<char>) -> Seq<char>
    decreases s.len(),
{
    if s.len() == 0 {
        Seq::<char>::empty()
    } else {
        (if s[0] == '\'' {
            seq!['\'', '\'']
        } else {
            seq![s[0]]
        }) + escape_sq(s.drop_first())
    }
}

/// Escaping distributes over concatenation.
pub proof fn lemma_escape_sq_concat(a: Seq<char>, b: Seq<char>)
    ensures
        escape_sq(a + b) == escape_sq(a) + escape_sq(b),
    decreases a.len(),
{
    if a.len() == 0 {
        assert(a + b =~= b);
        assert(escape_sq(a) + escape_sq(b) =~= escape_sq(b));
    } else {
        lemma_escape_sq_concat(a.drop_first(), b);
        assert((a + b).drop_first() =~= a.drop_first() + b);
        assert((a + b)[0] == a[0]);
        assert(escape_sq(a + b) =~= escape_sq(a) + escape_sq(b));
    }
}

/// Escaping a one-character string.
pub proof fn lemma_escape_sq_single(c: char)
    ensures
        escape_sq(seq![c]) == (if c == '\'' {
            seq!['\'', '\'']
        } else {
            seq![c]
        }),
{
    let s = seq![c];
    assert(s.drop_first() =~= Seq::<char>::empty());
    assert(escape_sq(Seq::<char>::empty()) == Seq::<char>::empty());
    assert(escape_sq(s) =~= (if c == '\'' {
        seq!['\'', '\'']
    } else {
        seq![c]
    }));
}

/// The index of the first character of `s` at or after `i` that is not
/// White_Space (or `s.len()` if there is none).
pub open spec fn trim_start_idx(s: Seq<char>, i: int) -> int
    recommends
        0 <= i <= s.len(),
    decreases s.len() - i,
{
    if i < s.len() && is_white_space(s[i]) {
        trim_start_idx(s, i + 1)
    } else {
        i
    }
}

/// The index just after the last character of `s` before `i` that is not
/// White_Space (or `0` if there is none).
pub open spec fn trim_end_idx(s: Seq<char>, i: int) -> int
    recommends
        0 <= i <= s.len(),
    decreases i,
{
    if i > 0 && is_white_space(s[i - 1]) {
        trim_end_idx(s, i - 1)
    } else {
        i
    }
}

/// `s` with White_Space removed from both ends.
pub open spec fn spec_trim(s: Seq<char>) -> Seq<char> {
    let a = trim_start_idx(s, 0);
    let b = trim_end_idx(s, s.len() as int);
    if a <= b {
        s.subrange(a, b)
    } else {
        Seq::<char>::empty()
    }
}

proof fn lemma_trim_start_bounds(s: Seq<char>, i: int)
    requires
        0 <= i <= s.len(),
    ensures
        i <= trim_start_idx(s, i) <= s.len(),
    decreases s.len() - i,
{
    if i < s.len() && is_white_space(s[i]) {
        lemma_trim_start_bounds(s, i + 1);
    }
}

proof fn lemma_trim_end_bounds(s: Seq<char>, i: int)
    requires
        0 <= i <= s.len(),
    ensures
        0 <= trim_end_idx(s, i) <= i,
    decreases i,
{
    if i > 0 && is_white_space(s[i - 1]) {
        lemma_trim_end_bounds(s, i - 1);
    }
}

/// The one-character string holding the decimal digit `d`.
fn digit_str(d: u64) -> (r: &'static str)
    requires
        d < 10,
    ensures
        r@ == seq![char_of_digit(d as int)],
{
    proof {
        reveal_strlit("0");
        reveal_strlit("1");
        reveal_strlit("2");
        reveal_strlit("3");
        reveal_strlit("4");
        reveal_strlit("5");
        reveal_strlit("6");
        reveal_strlit("7");
        reveal_strlit("8");
        reveal_strlit("9");
    }
    let r: &'static str = if d == 0 {
        "0"
    } else if d == 1 {
        "1"
    } else if d == 2 {
        "2"
    } else if d == 3 {
        "3"
    } else if d == 4 {
        "4"
    } else if d == 5 {
        "5"
    } else if d == 6 {
        "6"
    } else if d == 7 {
        "7"
    } else {
        "8"
    };
    if d == 9 {
        let r9: &'static str = "9";
        proof {
            assert(r9@ =~= seq![char_of_digit(9)]);
        }
        r9
    } else {
        proof {
            assert(r@ =~= seq![char_of_digit(d as int)]);
        }
        r
    }
}

/// The decimal digit string of `v`.
pub fn u64_to_string(v: u64) -> (r: String)
    ensures
        r@ == dec_digits(v as nat),
    decreases v,
{
    if v < 10 {
        digit_str(v).to_owned()
    } else {
        let mut s = u64_to_string(v / 10);
        s.append(digit_str(v % 10));
        proof {
            assert(dec_digits((v / 10) as nat) + seq![char_of_digit((v % 10) as int)]
                =~= dec_digits((v / 10) as nat).push(char_of_digit((v % 10) as int)));
        }
        s
    }
}

/// The decimal string of `v`, with a `-` sign when `v` is negative.
pub fn i64_to_string(v: i64) -> (r: String)
    ensures
        r@ == dec_int(v as int),
{
    if v >= 0 {
        u64_to_string(v as u64)
    } else {
        proof {
            reveal_strlit("-");
        }
        let mut s = String::from_str("-");
        let m: u64 = if v == i64::MIN {
            9223372036854775808u64
        } else {
            (-v) as u64
        };
        s.append(u64_to_string(m).as_str());
        proof {
            assert(s@ =~= seq!['-'] + dec_digits(m as nat));
        }
        s
    }
}

/// `s` with every single quote doubled, leaving every other character as it
/// stands.
pub fn escape_single_quotes(s: &str) -> (r: String)
    ensures
        r@ == escape_sq(s@),
{
    let n: usize = s.unicode_len();
    let mut out = String::new();
    let mut i: usize = 0;
    while i < n
        invariant
            n == s@.len(),
            0 <= i <= n,
            out@ == escape_sq(s@.subrange(0, i as int)),
        decreases n - i,
    {
        proof {
            reveal_strlit("''");
        }
        let c = s.get_char(i);
        if c == '\'' {
            out.append("''");
        } else {
            let piece = s.substring_char(i, i + 1);
            out.append(piece);
        }
        proof {
            let prefix = s@.subrange(0, i as int);
            let one = s@.subrange(i as int, i + 1 as int);
            assert(one =~= seq![s@[i as int]]);
            lemma_escape_sq_concat(prefix, one);
            lemma_escape_sq_single(s@[i as int]);
            assert(s@.subrange(0, i + 1 as int) =~= prefix + one);
        }
        i = i + 1;
    }
    proof {
        assert(s@.subrange(0, n as int) =~= s@);
    }
    out
}

/// Whether the character of `s` at `i` is White_Space.
fn trim_char_at(s: &str, i: usize) -> (r: bool)
    requires
        i < s@.len(),
    ensures
        r == is_white_space(s@[i as int]),
{
    let c = s.get_char(i);
    ('\u{9}' <= c && c <= '\u{d}') || c == ' ' || c == '\u{85}' || c == '\u{a0}' || c == '\u{1680}'
        || ('\u{2000}' <= c && c <= '\u{200a}') || c == '\u{2028}' || c == '\u{2029}'
        || c == '\u{202f}' || c == '\u{205f}' || c == '\u{3000}'
}

/// `s` with White_Space removed from both ends.
pub fn trim_str(s: &str) -> (r: &str)
    ensures
        r@ == spec_trim(s@),
{
    let n: usize = s.unicode_len();
    let mut a: usize = 0;
    while a < n && trim_char_at(s, a)
        invariant
            n == s@.len(),
            0 <= a <= n,
            trim_start_idx(s@, 0) == trim_start_idx(s@, a as int),
        decreases n - a,
    {
        a = a + 1;
    }
    let mut b: usize = n;
    while b > 0 && trim_char_at(s, b - 1)
        invariant
            n == s@.len(),
            0 <= b <= n,
            trim_end_idx(s@, n as int) == trim_end_idx(s@, b as int),
        decreases b,
    {
        b = b - 1;
    }
    proof {
        lemma_trim_start_bounds(s@, 0);
        lemma_trim_end_bounds(s@, n as int);
    }
    if a <= b {
        s.substring_char(a, b)
    } else {
        proof {
            reveal_strlit("");
        }
        let empty: &str = "";
        proof {
            assert(empty@ =~= Seq::<char>::empty());
        }
        empty
    }
}

/// `parts` joined with the separator `sep` between consecutive parts.
pub open spec fn spec_join(parts: Seq<Seq<char>>, sep: Seq<char>) -> Seq<char>
    decreases parts.len(),
{
    if parts.len() == 0 {
        Seq::<char>::empty()
    } else if parts.len() == 1 {
        parts[0]
    } else {
        parts[0] + sep + spec_join(parts.drop_first(), sep)
    }
}

/// Joining one more part appends a separator and the part.
pub proof fn lemma_spec_join_push(parts: Seq<Seq<char>>, sep: Seq<char>, x: Seq<char>)
    ensures
        spec_join(parts.push(x), sep) == if parts.len() == 0 {
            x
        } else {
            spec_join(parts, sep) + sep + x
        },
    decreases parts.len(),
{
    if parts.len() == 0 {
        assert(parts.push(x).len() == 1);
        assert(parts.push(x)[0] == x);
    } else if parts.len() == 1 {
        assert(parts.push(x).drop_first() =~= seq![x]);
        assert(spec_join(seq![x], sep) == x);
        assert(parts.push(x)[0] == parts[0]);
        assert(spec_join(parts.push(x), sep) == parts[0] + sep + x);
    } else {
        lemma_spec_join_push(parts.drop_first(), sep, x);
        assert(parts.push(x).drop_first() =~= parts.drop_first().push(x));
        assert(parts.push(x)[0] == parts[0]);
        assert((parts[0] + sep) + (spec_join(parts.drop_first(), sep) + sep + x) =~= ((parts[0]
            + sep) + spec_join(parts.drop_first(), sep)) + sep + x);
        assert(spec_join(parts.push(x), sep) =~= spec_join(parts, sep) + sep + x);
    }
}

/// `parts` joined with `sep` between consecutive parts.
pub fn join_strings(parts: &Vec<String>, sep: &str) -> (r: String)
    ensures
        r@ == spec_join(parts.deep_view(), sep@),
{
    let mut out = String::new();
    let mut i: usize = 0;
    proof {
        assert(parts.deep_view().subrange(0, 0) =~= Seq::<Seq<char>>::empty());
    }
    while i < parts.len()
        invariant
            0 <= i <= parts.len(),
            parts.deep_view().len() == parts.len(),
            forall |q: int| 0 <= q < parts.len() ==> parts.deep_view()[q] == parts@[q]@,
            out@ == spec_join(parts.deep_view().subrange(0, i as int), sep@),
        decreases parts.len() - i,
    {
        if i > 0 {
            out.append(sep);
        }
        out.append(parts[i].as_str());
        proof {
            let dv = parts.deep_view();
            lemma_spec_join_push(dv.subrange(0, i as int), sep@, dv[i as int]);
            assert(dv.subrange(0, i + 1 as int) =~= dv.subrange(0, i as int).push(dv[i as int]));
        }
        i = i + 1;
    }
    proof {
        assert(parts.deep_view().subrange(0, parts.deep_view().len() as int) =~= parts.deep_view());
    }
    out
}

/// Digit-string values grow with appended digits: the value of `s` bounds the
/// value of any of its prefixes.
pub proof fn lemma_digits_val_append(s: Seq<char>, c: char)
    ensures
        digits_val(s.push(c)) == digits_val(s) * 10 + (if is_digit_char(c) {
            digit_val(c) as nat
        } else {
            0
        }),
{
    assert(s.push(c).drop_last() =~= s);
    assert(s.push(c).last() == c);
}

} // verus!
