//! Character-level building blocks shared by the crash-report codec, the
//! file-name derivation and the supervisor log lines: conversions between
//! `String` and `Vec<char>`, decimal rendering and parsing, zero-padded
//! fields, and hexadecimal digits.

use vstd::prelude::*;
use vstd::string::*;

verus! {

// ---------------------------------------------------------------------------
// String <-> Vec<char>
// ---------------------------------------------------------------------------

/// Relies on `String::push`: appends exactly the one character.
#[verifier::external_body]
pub fn push_char(s: &mut String, c: char)
    ensures
        final(s)@ == old(s)@.push(c),
{
    s.push(c);
}

/// The characters of `s`, in order, as a vector.
pub fn chars_of_str(s: &str) -> (r: Vec<char>)
    ensures
        r@ == s@,
{
    let n = s.unicode_len();
    let mut r: Vec<char> = Vec::new();
    let mut i: usize = 0;
    while i < n
        invariant
            n == s@.len(),
            i <= n,
            r@ == s@.take(i as int),
        decreases n - i,
    {
        r.push(s.get_char(i));
        proof {
            assert(s@.take(i + 1 as int) =~= s@.take(i as int).push(s@[i as int]));
        }
        i = i + 1;
    }
    proof {
        assert(s@.take(n as int) =~= s@);
    }
    r
}

/// The characters of `v`, in order, as a `String`.
pub fn string_of_chars(v: &Vec<char>) -> (r: String)
    ensures
        r@ == v@,
{
    let mut r = String::new();
    let mut i: usize = 0;
    while i < v.len()
        invariant
            i <= v@.len(),
            r@ == v@.take(i as int),
        decreases v@.len() - i,
    {
        push_char(&mut r, v[i]);
        proof {
            assert(v@.take(i + 1 as int) =~= v@.take(i as int).push(v@[i as int]));
        }
        i = i + 1;
    }
    proof {
        assert(v@.take(v@.len() as int) =~= v@);
    }
    r
}

/// Appends the characters of `s` to `out`.
pub fn push_str_chars(out: &mut Vec<char>, s: &str)
    ensures
        final(out)@ == old(out)@ + s@,
{
    let n = s.unicode_len();
    let mut i: usize = 0;
    while i < n
        invariant
            n == s@.len(),
            i <= n,
            out@ == old(out)@ + s@.take(i as int),
        decreases n - i,
    {
        out.push(s.get_char(i));
        proof {
            assert(old(out)@ + s@.take(i + 1 as int) =~= (old(out)@ + s@.take(i as int)).push(
                s@[i as int],
            ));
        }
        i = i + 1;
    }
    proof {
        assert(s@.take(n as int) =~= s@);
    }
}

// ---------------------------------------------------------------------------
// Decimal digits
// ---------------------------------------------------------------------------

/// The decimal digit character for `d` (0 through 9); `'?'` outside that range.
pub open spec fn digit_char(d: int) -> char {
    if d == 0 {
        '0'
    } else if d == 1 {
        '1'
    } else if d == 2 {
        '2'
    } else if d == 3 {
        '3'
    } else if d == 4 {
        '4'
    } else if d == 5 {
        '5'
    } else if d == 6 {
        '6'
    } else if d == 7 {
        '7'
    } else if d == 8 {
        '8'
    } else if d == 9 {
        '9'
    } else {
        '?'
    }
}

/// The value of a decimal digit character; 10 for any other character.
pub open spec fn digit_val(c: char) -> int {
    if c == '0' {
        0
    } else if c == '1' {
        1
    } else if c == '2' {
        2
    } else if c == '3' {
        3
    } else if c == '4' {
        4
    } else if c == '5' {
        5
    } else if c == '6' {
        6
    } else if c == '7' {
        7
    } else if c == '8' {
        8
    } else if c == '9' {
        9
    } else {
        10
    }
}

pub open spec fn is_digit(c: char) -> bool {
    digit_val(c) < 10
}

pub fn digit_char_exec(d: u8) -> (c: char)
    requires
        d < 10,
    ensures
        c == digit_char(d as int),
{
    if d == 0 {
        '0'
    } else if d == 1 {
        '1'
    } else if d == 2 {
        '2'
    } else if d == 3 {
        '3'
    } else if d == 4 {
        '4'
    } else if d == 5 {
        '5'
    } else if d == 6 {
        '6'
    } else if d == 7 {
        '7'
    } else if d == 8 {
        '8'
    } else {
        '9'
    }
}

pub fn digit_val_exec(c: char) -> (d: u8)
    ensures
        d == digit_val(c),
{
    if c == '0' {
        0
    } else if c == '1' {
        1
    } else if c == '2' {
        2
    } else if c == '3' {
        3
    } else if c == '4' {
        4
    } else if c == '5' {
        5
    } else if c == '6' {
        6
    } else if c == '7' {
        7
    } else if c == '8' {
        8
    } else if c == '9' {
        9
    } else {
        10
    }
}

/// The decimal rendering of `n`, without leading zeros (a single `'0'` for 0).
pub open spec fn dec_digits(n: nat) -> Seq<char>
    decreases n,
{
    if n < 10 {
        seq![digit_char(n as int)]
    } else {
        dec_digits(n / 10).push(digit_char((n % 10) as int))
    }
}

pub proof fn lemma_dec_digits_all_digits(n: nat)
    ensures
        dec_digits(n).len() >= 1,
        forall|i: int| 0 <= i < dec_digits(n).len() ==> is_digit(#[trigger] dec_digits(n)[i]),
    decreases n,
{
    if n >= 10 {
        lemma_dec_digits_all_digits(n / 10);
    }
}

/// Appends the decimal rendering of `n` to `out`.
pub fn push_dec_u64(out: &mut Vec<char>, n: u64)
    ensures
        final(out)@ == old(out)@ + dec_digits(n as nat),
    decreases n,
{
    if n < 10 {
        out.push(digit_char_exec(n as u8));
        proof {
            assert(out@ =~= old(out)@ + dec_digits(n as nat));
        }
    } else {
        push_dec_u64(out, n / 10);
        out.push(digit_char_exec((n % 10) as u8));
        proof {
            assert(out@ =~= old(out)@ + dec_digits(n as nat));
        }
    }
}

/// The decimal value of a digit string, most significant digit first.
/// Meaningful only when every character is a digit.
pub open spec fn digits_value(t: Seq<char>) -> int
    decreases t.len(),
{
    if t.len() == 0 {
        0
    } else {
        digits_value(t.drop_last()) * 10 + digit_val(t.last())
    }
}

pub proof fn lemma_dec_digits_value(n: nat)
    ensures
        digits_value(dec_digits(n)) == n,
    decreases n,
{
    if n < 10 {
        assert(dec_digits(n) == seq![digit_char(n as int)]);
        assert(dec_digits(n).last() == digit_char(n as int));
        assert(dec_digits(n).drop_last() =~= Seq::<char>::empty());
        assert(digits_value(dec_digits(n)) == digits_value(Seq::<char>::empty()) * 10 + digit_val(
            digit_char(n as int),
        ));
        assert(digit_val(digit_char(n as int)) == n);
    } else {
        lemma_dec_digits_value(n / 10);
        assert(dec_digits(n).last() == digit_char((n % 10) as int));
        assert(dec_digits(n).drop_last() =~= dec_digits(n / 10));
        assert(digit_val(digit_char((n % 10) as int)) == n % 10);
        assert(digits_value(dec_digits(n)) == (n / 10) * 10 + (n % 10));
        assert((n / 10) * 10 + (n % 10) == n) by (nonlinear_arith);
    }
}

/// The number of leading decimal-digit characters of `t`.
pub open spec fn digits_prefix_len(t: Seq<char>) -> int
    decreases t.len(),
{
    if t.len() == 0 || !is_digit(t[0]) {
        0
    } else {
        1 + digits_prefix_len(t.skip(1))
    }
}

pub proof fn lemma_digits_prefix_len_bounds(t: Seq<char>)
    ensures
        0 <= digits_prefix_len(t) <= t.len(),
        forall|i: int| 0 <= i < digits_prefix_len(t) ==> is_digit(#[trigger] t[i]),
        digits_prefix_len(t) < t.len() ==> !is_digit(t[digits_prefix_len(t)]),
    decreases t.len(),
{
    if t.len() > 0 && is_digit(t[0]) {
        lemma_digits_prefix_len_bounds(t.skip(1));
        assert forall|i: int| 0 <= i < digits_prefix_len(t) implies is_digit(#[trigger] t[i]) by {
            if i > 0 {
                assert(t[i] == t.skip(1)[i - 1]);
            }
        }
    }
}

/// A run of digits followed by a non-digit scans to exactly that run.
pub proof fn lemma_digits_prefix_of_concat(d: Seq<char>, rest: Seq<char>)
    requires
        forall|i: int| 0 <= i < d.len() ==> is_digit(#[trigger] d[i]),
        rest.len() > 0,
        !is_digit(rest[0]),
    ensures
        digits_prefix_len(d + rest) == d.len(),
        (d + rest).take(d.len() as int) == d,
        (d + rest).skip(d.len() as int) == rest,
    decreases d.len(),
{
    assert((d + rest).take(d.len() as int) =~= d);
    assert((d + rest).skip(d.len() as int) =~= rest);
    if d.len() == 0 {
        assert((d + rest) =~= rest);
    } else {
        assert((d + rest)[0] == d[0]);
        lemma_digits_prefix_of_concat(d.skip(1), rest);
        assert((d + rest).skip(1) =~= d.skip(1) + rest);
    }
}

pub proof fn lemma_digits_value_nonneg(t: Seq<char>)
    ensures
        digits_value(t) >= 0,
    decreases t.len(),
{
    if t.len() > 0 {
        lemma_digits_value_nonneg(t.drop_last());
        assert(digits_value(t.drop_last()) * 10 >= 0) by (nonlinear_arith)
            requires
                digits_value(t.drop_last()) >= 0,
        ;
    }
}

/// Extending a digit run to the right never shrinks its value.
pub proof fn lemma_digits_value_grows(t: Seq<char>, j: int, k: int)
    requires
        0 <= j <= k <= t.len(),
    ensures
        digits_value(t.take(j)) <= digits_value(t.take(k)),
    decreases k - j,
{
    if j < k {
        lemma_digits_value_grows(t, j, k - 1);
        let p = t.take(k - 1);
        lemma_digits_value_nonneg(p);
        assert(t.take(k).drop_last() =~= p);
        assert(digits_value(p) * 10 >= digits_value(p)) by (nonlinear_arith)
            requires
                digits_value(p) >= 0,
        ;
    }
}

/// A scan that stopped after `j` digit characters found the whole digit run.
pub proof fn lemma_digits_prefix_len_exact(t: Seq<char>, j: int)
    requires
        0 <= j <= t.len(),
        forall|i: int| 0 <= i < j ==> is_digit(#[trigger] t[i]),
        j == t.len() || !is_digit(t[j]),
    ensures
        digits_prefix_len(t) == j,
    decreases j,
{
    if j == 0 {
    } else {
        lemma_digits_prefix_len_exact(t.skip(1), j - 1);
    }
}

/// One more digit appended on the right multiplies the value by ten and adds
/// the digit.
pub proof fn lemma_digits_value_step(t: Seq<char>, j: int)
    requires
        0 <= j < t.len(),
    ensures
        digits_value(t.take(j + 1)) == digits_value(t.take(j)) * 10 + digit_val(t[j]),
{
    assert(t.take(j + 1).drop_last() =~= t.take(j));
    assert(t.take(j + 1).last() == t[j]);
}

/// Reads the decimal-digit run starting at `pos` as a `u64`. `None` when no
/// digit stands there or the value does not fit.
pub fn parse_number(v: &Vec<char>, pos: usize) -> (r: Option<(u64, usize)>)
    requires
        pos <= v@.len(),
    ensures
        ({
            let t = v@.skip(pos as int);
            let k = digits_prefix_len(t);
            match r {
                Some(p) => {
                    &&& k >= 1
                    &&& p.1 == pos + k
                    &&& p.1 <= v@.len()
                    &&& digits_value(t.take(k)) == p.0
                },
                None => k == 0 || digits_value(t.take(k)) > u64::MAX,
            }
        }),
{
    let ghost t = v@.skip(pos as int);
    let mut cur: usize = pos;
    let mut val: u64 = 0;
    loop
        invariant
            pos <= cur <= v@.len(),
            t == v@.skip(pos as int),
            forall|i: int| 0 <= i < cur - pos ==> is_digit(#[trigger] t[i]),
            digits_value(t.take(cur - pos)) == val,
        ensures
            pos <= cur <= v@.len(),
            digits_prefix_len(t) == cur - pos,
            digits_value(t.take(cur - pos)) == val,
        decreases v@.len() - cur,
    {
        let ghost j = cur - pos;
        if cur >= v.len() {
            proof {
                lemma_digits_prefix_len_exact(t, j);
            }
            break;
        }
        let d = digit_val_exec(v[cur]);
        proof {
            assert(t[j] == v@[cur as int]);
        }
        if d >= 10 {
            proof {
                lemma_digits_prefix_len_exact(t, j);
            }
            break;
        }
        if val > (u64::MAX - (d as u64)) / 10 {
            proof {
                lemma_digits_value_step(t, j);
                assert(digits_value(t.take(j + 1)) > u64::MAX) by (nonlinear_arith)
                    requires
                        digits_value(t.take(j + 1)) == digits_value(t.take(j)) * 10 + digit_val(
                            t[j],
                        ),
                        digits_value(t.take(j)) == val as int,
                        0 <= digit_val(t[j]) < 10,
                        val > (u64::MAX - digit_val(t[j])) / 10,
                ;
                lemma_digits_prefix_len_bounds(t);
                if digits_prefix_len(t) < j + 1 {
                    assert(is_digit(t[digits_prefix_len(t)]));
                }
                assert(digits_prefix_len(t) >= j + 1);
                lemma_digits_value_grows(t, j + 1, digits_prefix_len(t));
            }
            return None;
        }
        proof {
            lemma_digits_value_step(t, j);
            assert(val * 10 + d <= u64::MAX) by (nonlinear_arith)
                requires
                    0 <= d < 10,
                    0 <= val,
                    val <= (u64::MAX - d) / 10,
            ;
        }
        val = val * 10 + (d as u64);
        cur = cur + 1;
    }
    if cur == pos {
        None
    } else {
        Some((val, cur))
    }
}

// ---------------------------------------------------------------------------
// Zero-padded decimal fields
// ---------------------------------------------------------------------------

/// The low `width` decimal digits of `n`, zero-padded.
pub open spec fn padded_digits(n: nat, width: nat) -> Seq<char>
    decreases width,
{
    if width == 0 {
        Seq::<char>::empty()
    } else {
        padded_digits(n / 10, (width - 1) as nat).push(digit_char((n % 10) as int))
    }
}

pub proof fn lemma_padded_digits_len(n: nat, width: nat)
    ensures
        padded_digits(n, width).len() == width,
    decreases width,
{
    if width > 0 {
        lemma_padded_digits_len(n / 10, (width - 1) as nat);
    }
}

/// Appends the zero-padded low `width` digits of `n` to `out`.
pub fn push_padded(out: &mut Vec<char>, n: u64, width: u8)
    ensures
        final(out)@ == old(out)@ + padded_digits(n as nat, width as nat),
    decreases width,
{
    if width > 0 {
        push_padded(out, n / 10, width - 1);
        out.push(digit_char_exec((n % 10) as u8));
        proof {
            assert(out@ =~= old(out)@ + padded_digits(n as nat, width as nat));
        }
    } else {
        proof {
            assert(out@ =~= old(out)@ + padded_digits(n as nat, 0));
        }
    }
}

// ---------------------------------------------------------------------------
// Hexadecimal digits
// ---------------------------------------------------------------------------

/// The lower-case hexadecimal digit character for `d` (0 through 15).
pub open spec fn hex_char(d: int) -> char {
    if d < 10 {
        digit_char(d)
    } else if d == 10 {
        'a'
    } else if d == 11 {
        'b'
    } else if d == 12 {
        'c'
    } else if d == 13 {
        'd'
    } else if d == 14 {
        'e'
    } else if d == 15 {
        'f'
    } else {
        '?'
    }
}

/// The value of a lower-case hexadecimal digit character; 16 otherwise.
pub open spec fn hex_val(c: char) -> int {
    if digit_val(c) < 10 {
        digit_val(c)
    } else if c == 'a' {
        10
    } else if c == 'b' {
        11
    } else if c == 'c' {
        12
    } else if c == 'd' {
        13
    } else if c == 'e' {
        14
    } else if c == 'f' {
        15
    } else {
        16
    }
}

pub open spec fn is_hex(c: char) -> bool {
    hex_val(c) < 16
}

pub fn hex_char_exec(d: u8) -> (c: char)
    requires
        d < 16,
    ensures
        c == hex_char(d as int),
{
    if d < 10 {
        digit_char_exec(d)
    } else if d == 10 {
        'a'
    } else if d == 11 {
        'b'
    } else if d == 12 {
        'c'
    } else if d == 13 {
        'd'
    } else if d == 14 {
        'e'
    } else {
        'f'
    }
}

pub fn hex_val_exec(c: char) -> (d: u8)
    ensures
        d == hex_val(c),
{
    let dd = digit_val_exec(c);
    if dd < 10 {
        dd
    } else if c == 'a' {
        10
    } else if c == 'b' {
        11
    } else if c == 'c' {
        12
    } else if c == 'd' {
        13
    } else if c == 'e' {
        14
    } else if c == 'f' {
        15
    } else {
        16
    }
}

pub proof fn lemma_hex_round_trip(d: int)
    requires
        0 <= d < 16,
    ensures
        hex_val(hex_char(d)) == d,
{
}

} // verus!
