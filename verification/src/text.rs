//! The primitive adapter's textual layer: every scalar leaf kind has a
//! canonical textual form (`fmt_*`) and a parser back from text
//! (`parse_*`), and the pair round-trips.

use vstd::prelude::*;

use vstd::std_specs::iter::IteratorSpec;

use crate::schema::Prim;
use crate::value::{Scalar, ScalarView, scalar_view};

verus! {

broadcast use vstd::string::next_postcondition, vstd::string::axiom_spec_iter;

// ---------------------------------------------------------------------
// Canonical textual forms.
// ---------------------------------------------------------------------

pub open spec fn digit_char(d: nat) -> char {
    if d == 0 {
        '0'
    } else if d == 1 {
        '1'
    } else if d == 2 {
        '2'
    } else if d == 3 {
        '3'
    } else if d == 4 {
        '4'
    } else if d == 5 {
        '5'
    } else if d == 6 {
        '6'
    } else if d == 7 {
        '7'
    } else if d == 8 {
        '8'
    } else {
        '9'
    }
}

/// The digit a character denotes; 10 marks a character that is no digit.
pub open spec fn char_digit(c: char) -> nat {
    if c == '0' {
        0
    } else if c == '1' {
        1
    } else if c == '2' {
        2
    } else if c == '3' {
        3
    } else if c == '4' {
        4
    } else if c == '5' {
        5
    } else if c == '6' {
        6
    } else if c == '7' {
        7
    } else if c == '8' {
        8
    } else if c == '9' {
        9
    } else {
        10
    }
}

pub open spec fn is_digit(c: char) -> bool {
    char_digit(c) < 10
}

/// The decimal digits of `n`, most significant first, no leading zeros
/// (except for `n == 0`, which is the single digit `0`).
pub open spec fn dec_digits(n: nat) -> Seq<char>
    decreases n,
{
    if n < 10 {
        seq![digit_char(n)]
    } else {
        dec_digits(n / 10).push(digit_char(n % 10))
    }
}

/// Canonical text of an unsigned number.
pub open spec fn fmt_u(n: nat) -> Seq<char> {
    dec_digits(n)
}

/// Canonical text of a signed number: a leading minus sign for negative
/// values, then the decimal digits of the magnitude.
pub open spec fn fmt_i(n: int) -> Seq<char> {
    if n < 0 {
        seq!['-'] + dec_digits((-n) as nat)
    } else {
        dec_digits(n as nat)
    }
}

pub open spec fn fmt_bool(b: bool) -> Seq<char> {
    if b {
        seq!['t', 'r', 'u', 'e']
    } else {
        seq!['f', 'a', 'l', 's', 'e']
    }
}

/// The canonical textual form of a scalar: a string is its own text, the
/// other kinds format as above.
pub open spec fn fmt_scalar(s: ScalarView) -> Seq<char> {
    match s {
        ScalarView::Str(t) => t,
        ScalarView::Bool(b) => fmt_bool(b),
        ScalarView::U8(n) => fmt_u(n as nat),
        ScalarView::I8(n) => fmt_i(n as int),
        ScalarView::U16(n) => fmt_u(n as nat),
        ScalarView::I16(n) => fmt_i(n as int),
        ScalarView::U32(n) => fmt_u(n as nat),
        ScalarView::I32(n) => fmt_i(n as int),
        ScalarView::U64(n) => fmt_u(n as nat),
        ScalarView::I64(n) => fmt_i(n as int),
    }
}

/// The scalar kind a value belongs to.
pub open spec fn scalar_kind(s: ScalarView) -> Prim {
    match s {
        ScalarView::Str(_) => Prim::PStr,
        ScalarView::Bool(_) => Prim::PBool,
        ScalarView::U8(_) => Prim::PU8,
        ScalarView::I8(_) => Prim::PI8,
        ScalarView::U16(_) => Prim::PU16,
        ScalarView::I16(_) => Prim::PI16,
        ScalarView::U32(_) => Prim::PU32,
        ScalarView::I32(_) => Prim::PI32,
        ScalarView::U64(_) => Prim::PU64,
        ScalarView::I64(_) => Prim::PI64,
    }
}

// ---------------------------------------------------------------------
// Parsing back from text.
// ---------------------------------------------------------------------

pub open spec fn all_digits(s: Seq<char>) -> bool {
    forall|i: int| 0 <= i < s.len() ==> is_digit(#[trigger] s[i])
}

/// The value of a digit string (leading zeros allowed).
pub open spec fn dec_val(s: Seq<char>) -> nat
    decreases s.len(),
{
    if s.len() == 0 {
        0
    } else {
        dec_val(s.drop_last()) * 10 + char_digit(s.last())
    }
}

/// Parse an unsigned number no larger than `max`: a nonempty string of
/// digits whose value is in bounds; anything else is rejected.
pub open spec fn parse_u(s: Seq<char>, max: nat) -> Option<nat> {
    if s.len() > 0 && all_digits(s) && dec_val(s) <= max {
        Option::Some(dec_val(s))
    } else {
        Option::None
    }
}

/// Parse a signed number in `[-mag_neg, mag_pos]`: an optional minus
/// sign, then a nonempty string of digits with the value in bounds.
pub open spec fn parse_i(s: Seq<char>, mag_neg: nat, mag_pos: nat) -> Option<int> {
    if s.len() > 0 && s[0] == '-' {
        match parse_u(s.drop_first(), mag_neg) {
            Option::Some(n) => Option::Some(-(n as int)),
            Option::None => Option::None,
        }
    } else {
        match parse_u(s, mag_pos) {
            Option::Some(n) => Option::Some(n as int),
            Option::None => Option::None,
        }
    }
}

/// Only the two canonical words denote a boolean.
pub open spec fn parse_bool(s: Seq<char>) -> Option<bool> {
    if s == fmt_bool(true) {
        Option::Some(true)
    } else if s == fmt_bool(false) {
        Option::Some(false)
    } else {
        Option::None
    }
}

/// Parse a scalar of the given kind from its textual form. Any text is a
/// string; the other kinds go through their parsers above.
pub open spec fn spec_parse_scalar(s: Seq<char>, p: Prim) -> Option<ScalarView> {
    match p {
        Prim::PStr => Option::Some(ScalarView::Str(s)),
        Prim::PBool => match parse_bool(s) {
            Option::Some(b) => Option::Some(ScalarView::Bool(b)),
            Option::None => Option::None,
        },
        Prim::PU8 => match parse_u(s, u8::MAX as nat) {
            Option::Some(n) => Option::Some(ScalarView::U8(n as u8)),
            Option::None => Option::None,
        },
        Prim::PI8 => match parse_i(s, 128, i8::MAX as nat) {
            Option::Some(n) => Option::Some(ScalarView::I8(n as i8)),
            Option::None => Option::None,
        },
        Prim::PU16 => match parse_u(s, u16::MAX as nat) {
            Option::Some(n) => Option::Some(ScalarView::U16(n as u16)),
            Option::None => Option::None,
        },
        Prim::PI16 => match parse_i(s, 32768, i16::MAX as nat) {
            Option::Some(n) => Option::Some(ScalarView::I16(n as i16)),
            Option::None => Option::None,
        },
        Prim::PU32 => match parse_u(s, u32::MAX as nat) {
            Option::Some(n) => Option::Some(ScalarView::U32(n as u32)),
            Option::None => Option::None,
        },
        Prim::PI32 => match parse_i(s, 2147483648, i32::MAX as nat) {
            Option::Some(n) => Option::Some(ScalarView::I32(n as i32)),
            Option::None => Option::None,
        },
        Prim::PU64 => match parse_u(s, u64::MAX as nat) {
            Option::Some(n) => Option::Some(ScalarView::U64(n as u64)),
            Option::None => Option::None,
        },
        Prim::PI64 => match parse_i(s, 9223372036854775808, i64::MAX as nat) {
            Option::Some(n) => Option::Some(ScalarView::I64(n as i64)),
            Option::None => Option::None,
        },
    }
}

// ---------------------------------------------------------------------
// Executable formatting.
// ---------------------------------------------------------------------

/// Relies on alloc's `FromIterator` for `String`: collecting characters
/// yields the string of exactly those characters, in order.
#[verifier::external_body]
fn chars_to_string(v: &Vec<char>) -> (s: String)
    ensures
        s@ == v@,
{
    v.iter().collect()
}

/// The characters of a string slice, in order, as a vector.
pub fn str_chars(s: &str) -> (v: Vec<char>)
    ensures
        v@ == s@,
{
    let mut it = s.chars();
    let mut v: Vec<char> = Vec::new();
    loop
        invariant
            it.obeys_prophetic_iter_laws(),
            it.decrease() is Some,
            v@ + it.remaining() == s@,
        ensures
            it.remaining().len() == 0,
        decreases it.decrease()->0,
    {
        match it.next() {
            Option::Some(c) => { v.push(c); }
            Option::None => { break; }
        }
    }
    proof {
        assert(v@ =~= v@ + it.remaining());
    }
    v
}

fn digit_to_char(d: u64) -> (c: char)
    requires
        d < 10,
    ensures
        c == digit_char(d as nat),
{
    if d == 0 {
        '0'
    } else if d == 1 {
        '1'
    } else if d == 2 {
        '2'
    } else if d == 3 {
        '3'
    } else if d == 4 {
        '4'
    } else if d == 5 {
        '5'
    } else if d == 6 {
        '6'
    } else if d == 7 {
        '7'
    } else if d == 8 {
        '8'
    } else {
        '9'
    }
}

fn char_to_digit(c: char) -> (d: u8)
    ensures
        d as nat == char_digit(c),
{
    if c == '0' {
        0
    } else if c == '1' {
        1
    } else if c == '2' {
        2
    } else if c == '3' {
        3
    } else if c == '4' {
        4
    } else if c == '5' {
        5
    } else if c == '6' {
        6
    } else if c == '7' {
        7
    } else if c == '8' {
        8
    } else if c == '9' {
        9
    } else {
        10
    }
}

fn push_dec_digits(n: u64, out: &mut Vec<char>)
    ensures
        final(out)@ == old(out)@ + dec_digits(n as nat),
    decreases n,
{
    if n >= 10 {
        push_dec_digits(n / 10, out);
    }
    out.push(digit_to_char(n % 10));
    proof {
        if n < 10 {
            assert(out@ =~= old(out)@ + dec_digits(n as nat));
        } else {
            assert(out@ =~= old(out)@ + dec_digits(n as nat));
        }
    }
}

/// Canonical decimal text of an unsigned number.
pub fn fmt_u64(n: u64) -> (s: String)
    ensures
        s@ == fmt_u(n as nat),
{
    let mut out: Vec<char> = Vec::new();
    push_dec_digits(n, &mut out);
    proof {
        assert(out@ =~= dec_digits(n as nat));
    }
    chars_to_string(&out)
}

/// Canonical decimal text of a signed number.
pub fn fmt_i64(n: i64) -> (s: String)
    ensures
        s@ == fmt_i(n as int),
{
    let mut out: Vec<char> = Vec::new();
    if n < 0 {
        out.push('-');
        let mag: u64 = (-(n + 1)) as u64 + 1;
        assert(mag as nat == (-(n as int)) as nat);
        push_dec_digits(mag, &mut out);
        proof {
            assert(out@ =~= seq!['-'] + dec_digits((-(n as int)) as nat));
        }
    } else {
        push_dec_digits(n as u64, &mut out);
        proof {
            assert(out@ =~= dec_digits(n as nat));
        }
    }
    chars_to_string(&out)
}

/// The canonical textual form of any scalar value.
pub fn format_scalar(v: &Scalar) -> (s: String)
    ensures
        s@ == fmt_scalar(scalar_view(*v)),
{
    match v {
        Scalar::Str(t) => t.clone(),
        Scalar::Bool(b) => {
            proof {
                reveal_strlit("true");
                reveal_strlit("false");
            }
            if *b {
                "true".to_owned()
            } else {
                "false".to_owned()
            }
        },
        Scalar::U8(n) => fmt_u64(*n as u64),
        Scalar::I8(n) => fmt_i64(*n as i64),
        Scalar::U16(n) => fmt_u64(*n as u64),
        Scalar::I16(n) => fmt_i64(*n as i64),
        Scalar::U32(n) => fmt_u64(*n as u64),
        Scalar::I32(n) => fmt_i64(*n as i64),
        Scalar::U64(n) => fmt_u64(*n),
        Scalar::I64(n) => fmt_i64(*n),
    }
}

// ---------------------------------------------------------------------
// Executable parsing.
// ---------------------------------------------------------------------

proof fn lemma_dec_val_take_succ(s: Seq<char>, i: int)
    requires
        0 <= i < s.len(),
    ensures
        dec_val(s.take(i + 1)) == dec_val(s.take(i)) * 10 + char_digit(s[i]),
{
    assert(s.take(i + 1).drop_last() =~= s.take(i));
    assert(s.take(i + 1).last() == s[i]);
}

proof fn lemma_dec_val_mono(s: Seq<char>, i: int)
    requires
        0 <= i <= s.len(),
    ensures
        dec_val(s) >= dec_val(s.take(i)),
    decreases s.len() - i,
{
    if i < s.len() {
        lemma_dec_val_take_succ(s, i);
        lemma_dec_val_mono(s, i + 1);
    } else {
        assert(s.take(i) =~= s);
    }
}

/// Parse the digits of `v` from `start` to the end as an unsigned number
/// no larger than `max`.
fn parse_u64_range(v: &Vec<char>, start: usize, max: u64) -> (r: Option<u64>)
    requires
        start <= v@.len(),
    ensures
        parse_u(v@.subrange(start as int, v@.len() as int), max as nat) == (match r {
            Option::Some(n) => Option::Some(n as nat),
            Option::None => Option::None,
        }),
{
    let ghost sub = v@.subrange(start as int, v@.len() as int);
    let mut acc: u64 = 0;
    let mut j: usize = start;
    while j < v.len()
        invariant
            start <= j <= v@.len(),
            sub == v@.subrange(start as int, v@.len() as int),
            all_digits(sub.take(j - start)),
            acc as nat == dec_val(sub.take(j - start)),
            acc <= max,
        decreases v@.len() - j,
    {
        let ghost k = j - start;
        let d: u8 = char_to_digit(v[j]);
        proof {
            assert(sub[k] == v@[j as int]);
        }
        if d >= 10 {
            return Option::None;
        }
        if acc > max / 10 || (acc == max / 10 && d as u64 > max % 10) {
            proof {
                lemma_dec_val_take_succ(sub, k);
                assert(max == (max / 10) * 10 + max % 10);
                assert(acc as nat * 10 + char_digit(sub[k]) > max);
                lemma_dec_val_mono(sub, k + 1);
            }
            return Option::None;
        }
        proof {
            lemma_dec_val_take_succ(sub, k);
            assert(max == (max / 10) * 10 + max % 10);
            assert(acc as nat * 10 + d as nat <= max);
        }
        acc = acc * 10 + d as u64;
        j = j + 1;
    }
    proof {
        assert(sub.take(v@.len() - start) =~= sub);
    }
    if start == v.len() {
        Option::None
    } else {
        Option::Some(acc)
    }
}

/// Parse a signed number in `[-mag_neg, mag_pos]` from all of `v`.
fn parse_i64_chars(v: &Vec<char>, mag_neg: u64, mag_pos: u64) -> (r: Option<i64>)
    requires
        mag_neg <= 9223372036854775808,
        mag_pos <= i64::MAX as u64,
    ensures
        parse_i(v@, mag_neg as nat, mag_pos as nat) == (match r {
            Option::Some(n) => Option::Some(n as int),
            Option::None => Option::None,
        }),
{
    if v.len() > 0 && v[0] == '-' {
        proof {
            assert(v@.subrange(1, v@.len() as int) =~= v@.drop_first());
        }
        match parse_u64_range(v, 1, mag_neg) {
            Option::Some(n) => {
                if n == 0 {
                    Option::Some(0)
                } else {
                    Option::Some(-((n - 1) as i64) - 1)
                }
            },
            Option::None => Option::None,
        }
    } else {
        proof {
            assert(v@.subrange(0, v@.len() as int) =~= v@);
        }
        match parse_u64_range(v, 0, mag_pos) {
            Option::Some(n) => Option::Some(n as i64),
            Option::None => Option::None,
        }
    }
}

/// Parse a boolean from all of `v`: only the canonical words are
/// accepted.
fn parse_bool_chars(v: &Vec<char>) -> (r: Option<bool>)
    ensures
        parse_bool(v@) == r,
{
    if v.len() == 4 && v[0] == 't' && v[1] == 'r' && v[2] == 'u' && v[3] == 'e' {
        proof {
            assert(v@ =~= fmt_bool(true));
        }
        Option::Some(true)
    } else if v.len() == 5 && v[0] == 'f' && v[1] == 'a' && v[2] == 'l' && v[3] == 's'
        && v[4] == 'e' {
        proof {
            assert(v@ =~= fmt_bool(false));
        }
        Option::Some(false)
    } else {
        proof {
            if v@ == fmt_bool(true) {
                assert(v@.len() == 4 && v@[0] == 't' && v@[1] == 'r' && v@[2] == 'u' && v@[3]
                    == 'e');
            }
            if v@ == fmt_bool(false) {
                assert(v@.len() == 5 && v@[0] == 'f' && v@[1] == 'a' && v@[2] == 'l' && v@[3]
                    == 's' && v@[4] == 'e');
            }
        }
        Option::None
    }
}

/// Parse a scalar of the given kind from its textual form.
pub fn parse_scalar(text: &str, p: Prim) -> (r: Option<Scalar>)
    ensures
        match (r, spec_parse_scalar(text@, p)) {
            (Option::Some(s), Option::Some(sv)) => scalar_view(s) == sv,
            (Option::None, Option::None) => true,
            _ => false,
        },
{
    match p {
        Prim::PStr => Option::Some(Scalar::Str(text.to_owned())),
        Prim::PBool => {
            let v = str_chars(text);
            match parse_bool_chars(&v) {
                Option::Some(b) => Option::Some(Scalar::Bool(b)),
                Option::None => Option::None,
            }
        },
        Prim::PU8 => {
            let v = str_chars(text);
            proof {
                assert(v@.subrange(0, v@.len() as int) =~= v@);
            }
            match parse_u64_range(&v, 0, u8::MAX as u64) {
                Option::Some(n) => Option::Some(Scalar::U8(n as u8)),
                Option::None => Option::None,
            }
        },
        Prim::PI8 => {
            let v = str_chars(text);
            match parse_i64_chars(&v, 128, i8::MAX as u64) {
                Option::Some(n) => Option::Some(Scalar::I8(n as i8)),
                Option::None => Option::None,
            }
        },
        Prim::PU16 => {
            let v = str_chars(text);
            proof {
                assert(v@.subrange(0, v@.len() as int) =~= v@);
            }
            match parse_u64_range(&v, 0, u16::MAX as u64) {
                Option::Some(n) => Option::Some(Scalar::U16(n as u16)),
                Option::None => Option::None,
            }
        },
        Prim::PI16 => {
            let v = str_chars(text);
            match parse_i64_chars(&v, 32768, i16::MAX as u64) {
                Option::Some(n) => Option::Some(Scalar::I16(n as i16)),
                Option::None => Option::None,
            }
        },
        Prim::PU32 => {
            let v = str_chars(text);
            proof {
                assert(v@.subrange(0, v@.len() as int) =~= v@);
            }
            match parse_u64_range(&v, 0, u32::MAX as u64) {
                Option::Some(n) => Option::Some(Scalar::U32(n as u32)),
                Option::None => Option::None,
            }
        },
        Prim::PI32 => {
            let v = str_chars(text);
            match parse_i64_chars(&v, 2147483648, i32::MAX as u64) {
                Option::Some(n) => Option::Some(Scalar::I32(n as i32)),
                Option::None => Option::None,
            }
        },
        Prim::PU64 => {
            let v = str_chars(text);
            proof {
                assert(v@.subrange(0, v@.len() as int) =~= v@);
            }
            match parse_u64_range(&v, 0, u64::MAX) {
                Option::Some(n) => Option::Some(Scalar::U64(n)),
                Option::None => Option::None,
            }
        },
        Prim::PI64 => {
            let v = str_chars(text);
            match parse_i64_chars(&v, 9223372036854775808, i64::MAX as u64) {
                Option::Some(n) => Option::Some(Scalar::I64(n)),
                Option::None => Option::None,
            }
        },
    }
}

// ---------------------------------------------------------------------
// The textual round trip.
// ---------------------------------------------------------------------

proof fn lemma_dec_digits_shape(n: nat)
    ensures
        dec_digits(n).len() >= 1,
        all_digits(dec_digits(n)),
        dec_val(dec_digits(n)) == n,
    decreases n,
{
    if n < 10 {
        reveal_with_fuel(dec_val, 2);
        let s = seq![digit_char(n)];
        assert(s.drop_last() =~= Seq::<char>::empty());
        assert(dec_val(s) == char_digit(digit_char(n)));
    } else {
        lemma_dec_digits_shape(n / 10);
        let s = dec_digits(n / 10);
        let d = digit_char(n % 10);
        assert(s.push(d).drop_last() =~= s);
        assert(s.push(d).last() == d);
        assert(dec_val(s.push(d)) == (n / 10) * 10 + char_digit(d));
        assert(forall|i: int|
            0 <= i < s.push(d).len() ==> is_digit(#[trigger] s.push(d)[i]));
    }
}

/// Formatting an unsigned number and parsing it back is the identity.
pub proof fn lemma_fmt_u_round_trip(n: nat, max: nat)
    requires
        n <= max,
    ensures
        parse_u(fmt_u(n), max) == Option::Some(n),
{
    lemma_dec_digits_shape(n);
}

/// Formatting a signed number and parsing it back is the identity.
pub proof fn lemma_fmt_i_round_trip(n: int, mag_neg: nat, mag_pos: nat)
    requires
        -(mag_neg as int) <= n <= mag_pos as int,
    ensures
        parse_i(fmt_i(n), mag_neg, mag_pos) == Option::Some(n),
{
    if n < 0 {
        let m = (-n) as nat;
        lemma_dec_digits_shape(m);
        let s = seq!['-'] + dec_digits(m);
        assert(s[0] == '-');
        assert(s.drop_first() =~= dec_digits(m));
    } else {
        lemma_dec_digits_shape(n as nat);
        let s = dec_digits(n as nat);
        assert(is_digit(s[0]));
        assert(s[0] != '-');
    }
}

/// For every scalar value, parsing the canonical textual form at the
/// value's own kind gives the value back.
pub proof fn lemma_scalar_text_round_trip(v: ScalarView)
    ensures
        spec_parse_scalar(fmt_scalar(v), scalar_kind(v)) == Option::Some(v),
{
    match v {
        ScalarView::Str(_) => {},
        ScalarView::Bool(b) => {
            if !b {
                assert(fmt_bool(false).len() == 5);
                assert(fmt_bool(true).len() == 4);
                assert(fmt_bool(false) != fmt_bool(true));
            }
        },
        ScalarView::U8(n) => lemma_fmt_u_round_trip(n as nat, u8::MAX as nat),
        ScalarView::I8(n) => lemma_fmt_i_round_trip(n as int, 128, i8::MAX as nat),
        ScalarView::U16(n) => lemma_fmt_u_round_trip(n as nat, u16::MAX as nat),
        ScalarView::I16(n) => lemma_fmt_i_round_trip(n as int, 32768, i16::MAX as nat),
        ScalarView::U32(n) => lemma_fmt_u_round_trip(n as nat, u32::MAX as nat),
        ScalarView::I32(n) => lemma_fmt_i_round_trip(n as int, 2147483648, i32::MAX as nat),
        ScalarView::U64(n) => lemma_fmt_u_round_trip(n as nat, u64::MAX as nat),
        ScalarView::I64(n) => lemma_fmt_i_round_trip(
            n as int,
            9223372036854775808,
            i64::MAX as nat,
        ),
    }
}

} // verus!
