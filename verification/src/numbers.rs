//! Decimal reading and writing for the numeric record fields (uids,
//! gids, day counts).  `parse` and `format` are proved inverse on
//! canonical digit strings, which the record round-trip laws build on.

use vstd::arithmetic::div_mod::lemma_fundamental_div_mod_converse;
use vstd::prelude::*;

verus! {

pub open spec fn is_digit(c: char) -> bool {
    c == '0' || c == '1' || c == '2' || c == '3' || c == '4' || c == '5' || c == '6' || c == '7'
        || c == '8' || c == '9'
}

/// The numeric value of one decimal digit.
pub open spec fn digit_val(c: char) -> int {
    if c == '0' {
        0
    } else if c == '1' {
        1
    } else if c == '2' {
        2
    } else if c == '3' {
        3
    } else if c == '4' {
        4
    } else if c == '5' {
        5
    } else if c == '6' {
        6
    } else if c == '7' {
        7
    } else if c == '8' {
        8
    } else {
        9
    }
}

/// The decimal digit for a value below ten.
pub open spec fn digit_char(d: int) -> char {
    if d == 0 {
        '0'
    } else if d == 1 {
        '1'
    } else if d == 2 {
        '2'
    } else if d == 3 {
        '3'
    } else if d == 4 {
        '4'
    } else if d == 5 {
        '5'
    } else if d == 6 {
        '6'
    } else if d == 7 {
        '7'
    } else if d == 8 {
        '8'
    } else {
        '9'
    }
}

pub open spec fn all_digits(s: Seq<char>) -> bool {
    forall|i: int| 0 <= i < s.len() ==> is_digit(#[trigger] s[i])
}

/// The value of a digit string read as a decimal number.
pub open spec fn dec_val(s: Seq<char>) -> int
    decreases s.len(),
{
    if s.len() == 0 {
        0
    } else {
        dec_val(s.drop_last()) * 10 + digit_val(s.last())
    }
}

/// The canonical decimal digit string of a non-negative number.
pub open spec fn dec_str(n: int) -> Seq<char>
    decreases n,
{
    if n < 10 {
        seq![digit_char(n)]
    } else {
        dec_str(n / 10).push(digit_char(n % 10))
    }
}

/// A field that reads as a number below `2^32`.
pub open spec fn u32_field_ok(s: Seq<char>) -> bool {
    all_digits(s) && s.len() >= 1 && dec_val(s) <= u32::MAX
}

/// A field that reads as a number below `2^64`.
pub open spec fn u64_field_ok(s: Seq<char>) -> bool {
    all_digits(s) && s.len() >= 1 && dec_val(s) <= u64::MAX
}

/// A digit string that the formatter itself would produce: non-empty,
/// digits only, and without a superfluous leading zero.
pub open spec fn canonical_dec(s: Seq<char>) -> bool {
    &&& all_digits(s)
    &&& s.len() >= 1
    &&& (s.len() == 1 || s[0] != '0')
}

pub proof fn lemma_dec_val_nonneg(s: Seq<char>)
    requires
        all_digits(s),
    ensures
        dec_val(s) >= 0,
    decreases s.len(),
{
    if s.len() > 0 {
        assert(all_digits(s.drop_last()));
        lemma_dec_val_nonneg(s.drop_last());
    }
}

pub proof fn lemma_dec_val_pos(s: Seq<char>)
    requires
        all_digits(s),
        s.len() >= 1,
        s[0] != '0',
    ensures
        dec_val(s) >= 1,
    decreases s.len(),
{
    if s.len() == 1 {
    } else {
        assert(all_digits(s.drop_last()));
        assert(s.drop_last()[0] == s[0]);
        lemma_dec_val_pos(s.drop_last());
    }
}

/// Reading a longer prefix of a digit string never decreases the value.
pub proof fn lemma_dec_val_prefix(s: Seq<char>, i: int)
    requires
        all_digits(s),
        0 <= i <= s.len(),
    ensures
        0 <= dec_val(s.take(i)) <= dec_val(s),
    decreases s.len() - i,
{
    assert(all_digits(s.take(i)));
    lemma_dec_val_nonneg(s.take(i));
    if i < s.len() {
        lemma_dec_val_prefix(s, i + 1);
        assert(s.take(i + 1).drop_last() =~= s.take(i));
        assert(dec_val(s.take(i + 1)) == dec_val(s.take(i)) * 10 + digit_val(s[i]));
        assert(dec_val(s.take(i)) * 10 >= dec_val(s.take(i)));
    } else {
        assert(s.take(i) =~= s);
    }
}

/// Formatting the value of a canonical digit string gives back the
/// same string.
pub proof fn lemma_dec_roundtrip(s: Seq<char>)
    requires
        canonical_dec(s),
    ensures
        dec_str(dec_val(s)) == s,
    decreases s.len(),
{
    if s.len() == 1 {
        assert(dec_val(s) == dec_val(s.drop_last()) * 10 + digit_val(s.last()));
        assert(s.drop_last().len() == 0);
        assert(dec_val(s) == digit_val(s[0]));
        assert(dec_str(dec_val(s)) =~= s);
    } else {
        let butlast = s.drop_last();
        let d = digit_val(s.last());
        assert(all_digits(butlast));
        assert(butlast[0] == s[0]);
        lemma_dec_val_pos(butlast);
        let a = dec_val(butlast);
        let n = dec_val(s);
        assert(n == a * 10 + d);
        assert(n >= 10);
        lemma_fundamental_div_mod_converse(n, 10, a, d);
        assert(n / 10 == a && n % 10 == d);
        assert(canonical_dec(butlast));
        lemma_dec_roundtrip(butlast);
        assert(dec_str(n) == dec_str(a).push(digit_char(d)));
        assert(digit_char(d) == s.last());
        assert(butlast.push(s.last()) =~= s);
    }
}

proof fn lemma_div_bounds(n: int)
    requires
        n >= 10,
    ensures
        0 <= n % 10 < 10,
        1 <= n / 10 < n,
{
    vstd::arithmetic::div_mod::lemma_fundamental_div_mod(n, 10);
    assert(n == 10 * (n / 10) + n % 10);
}

/// The numeric value of one decimal digit character.
pub fn digit_of(c: char) -> (d: u32)
    requires
        is_digit(c),
    ensures
        d == digit_val(c),
        d < 10,
{
    match c {
        '0' => 0,
        '1' => 1,
        '2' => 2,
        '3' => 3,
        '4' => 4,
        '5' => 5,
        '6' => 6,
        '7' => 7,
        '8' => 8,
        _ => 9,
    }
}

/// One decimal digit as a string.
pub fn digit_str(d: u32) -> (r: &'static str)
    requires
        d < 10,
    ensures
        r@ == seq![digit_char(d as int)],
{
    proof {
        reveal_strlit("0");
        reveal_strlit("1");
        reveal_strlit("2");
        reveal_strlit("3");
        reveal_strlit("4");
        reveal_strlit("5");
        reveal_strlit("6");
        reveal_strlit("7");
        reveal_strlit("8");
        reveal_strlit("9");
    }
    let r: &'static str = match d {
        0 => "0",
        1 => "1",
        2 => "2",
        3 => "3",
        4 => "4",
        5 => "5",
        6 => "6",
        7 => "7",
        8 => "8",
        _ => "9",
    };
    proof {
        assert(r@ =~= seq![digit_char(d as int)]);
    }
    r
}

/// Whether `c` is a decimal digit.
pub fn is_digit_char(c: char) -> (r: bool)
    ensures
        r == is_digit(c),
{
    match c {
        '0' | '1' | '2' | '3' | '4' | '5' | '6' | '7' | '8' | '9' => true,
        _ => false,
    }
}

/// Reads a decimal number below `2^32` from a string of digits.
/// Returns `None` exactly when the string is empty, holds a non-digit,
/// or encodes a value that does not fit.
pub fn parse_u32(s: &str) -> (r: Option<u32>)
    ensures
        r is Some <==> all_digits(s@) && s@.len() >= 1 && dec_val(s@) <= u32::MAX,
        r is Some ==> r->0 as int == dec_val(s@),
{
    let len = s.unicode_len();
    if len == 0 {
        return None;
    }
    let mut acc: u32 = 0;
    let mut i: usize = 0;
    proof {
        assert(s@.take(0) =~= Seq::<char>::empty());
    }
    while i < len
        invariant
            0 <= i <= len,
            len == s@.len(),
            all_digits(s@.take(i as int)),
            acc as int == dec_val(s@.take(i as int)),
        decreases len - i,
    {
        let c = s.get_char(i);
        if !is_digit_char(c) {
            return None;
        }
        let d = digit_of(c);
        if acc > (u32::MAX - d) / 10 {
            proof {
                assert(s@.take(i + 1).drop_last() =~= s@.take(i as int));
                assert(all_digits(s@.take(i + 1)));
                assert(dec_val(s@.take(i + 1)) == acc as int * 10 + d) by {
                    assert(s@.take(i + 1).last() == s@[i as int]);
                }
                let m = u32::MAX as int;
                assert(acc as int * 10 + d > m) by (nonlinear_arith)
                    requires
                        acc as int > (m - d) / 10,
                        0 <= d < 10,
                        m == u32::MAX as int,
                {}
                if all_digits(s@) {
                    lemma_dec_val_prefix(s@, i + 1);
                }
            }
            return None;
        }
        proof {
            let m = u32::MAX as int;
            assert(acc as int * 10 + d <= m) by (nonlinear_arith)
                requires
                    acc as int <= (m - d) / 10,
                    0 <= d < 10,
                    m == u32::MAX as int,
            {}
            assert(s@.take(i + 1).drop_last() =~= s@.take(i as int));
            assert(s@.take(i + 1).last() == s@[i as int]);
        }
        acc = acc * 10 + d;
        i += 1;
    }
    proof {
        assert(s@.take(len as int) =~= s@);
    }
    Some(acc)
}

/// Reads a decimal number below `2^64` from a string of digits.
pub fn parse_u64(s: &str) -> (r: Option<u64>)
    ensures
        r is Some <==> all_digits(s@) && s@.len() >= 1 && dec_val(s@) <= u64::MAX,
        r is Some ==> r->0 as int == dec_val(s@),
{
    let len = s.unicode_len();
    if len == 0 {
        return None;
    }
    let mut acc: u64 = 0;
    let mut i: usize = 0;
    proof {
        assert(s@.take(0) =~= Seq::<char>::empty());
    }
    while i < len
        invariant
            0 <= i <= len,
            len == s@.len(),
            all_digits(s@.take(i as int)),
            acc as int == dec_val(s@.take(i as int)),
        decreases len - i,
    {
        let c = s.get_char(i);
        if !is_digit_char(c) {
            return None;
        }
        let d = digit_of(c) as u64;
        if acc > (u64::MAX - d) / 10 {
            proof {
                assert(s@.take(i + 1).drop_last() =~= s@.take(i as int));
                assert(all_digits(s@.take(i + 1)));
                assert(dec_val(s@.take(i + 1)) == acc as int * 10 + d) by {
                    assert(s@.take(i + 1).last() == s@[i as int]);
                }
                let m = u64::MAX as int;
                assert(acc as int * 10 + d > m) by (nonlinear_arith)
                    requires
                        acc as int > (m - d) / 10,
                        0 <= d < 10,
                        m == u64::MAX as int,
                {}
                if all_digits(s@) {
                    lemma_dec_val_prefix(s@, i + 1);
                }
            }
            return None;
        }
        proof {
            let m = u64::MAX as int;
            assert(acc as int * 10 + d <= m) by (nonlinear_arith)
                requires
                    acc as int <= (m - d) / 10,
                    0 <= d < 10,
                    m == u64::MAX as int,
            {}
            assert(s@.take(i + 1).drop_last() =~= s@.take(i as int));
            assert(s@.take(i + 1).last() == s@[i as int]);
        }
        acc = acc * 10 + d;
        i += 1;
    }
    proof {
        assert(s@.take(len as int) =~= s@);
    }
    Some(acc)
}

/// Writes `n` in decimal.
pub fn u32_to_string(n: u32) -> (r: String)
    ensures
        r@ == dec_str(n as int),
    decreases n,
{
    if n < 10 {
        digit_str(n).to_owned()
    } else {
        proof {
            lemma_div_bounds(n as int);
        }
        let mut r = u32_to_string(n / 10);
        r.append(digit_str(n % 10));
        proof {
            assert(dec_str(n as int / 10).push(digit_char(n as int % 10)) =~= dec_str(
                n as int / 10,
            ) + seq![digit_char(n as int % 10)]);
        }
        r
    }
}

/// Writes `n` in decimal.
pub fn u64_to_string(n: u64) -> (r: String)
    ensures
        r@ == dec_str(n as int),
    decreases n,
{
    if n < 10 {
        digit_str(n as u32).to_owned()
    } else {
        proof {
            lemma_div_bounds(n as int);
        }
        let mut r = u64_to_string(n / 10);
        r.append(digit_str((n % 10) as u32));
        proof {
            assert(dec_str(n as int / 10).push(digit_char(n as int % 10)) =~= dec_str(
                n as int / 10,
            ) + seq![digit_char(n as int % 10)]);
        }
        r
    }
}

} // verus!
