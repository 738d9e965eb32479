//! JSON string escaping for the crash-report on-disk form, together with its
//! inverse and the proof that decoding an escaped string gives the original
//! back.
//!
//! The escaping matches the JSON rules used by common serializers: `"` and
//! `\` get a backslash escape, the control characters backspace, form feed,
//! line feed, carriage return and tab get their short escapes, every other
//! control character below U+0020 becomes `\u00XX` with lower-case hex
//! digits, and all remaining characters stand for themselves.

use vstd::prelude::*;

use crate::chars::{hex_char, hex_val, is_hex, hex_char_exec, hex_val_exec};

verus! {

/// The character with code `v`; meaningful for `0 <= v < 128`.
pub open spec fn char_of_code(v: int) -> char {
    (v as u8) as char
}

/// How one character is written inside a JSON string literal.
pub open spec fn escape_char(c: char) -> Seq<char> {
    if c == '"' {
        seq!['\\', '"']
    } else if c == '\\' {
        seq!['\\', '\\']
    } else if c == '\u{8}' {
        seq!['\\', 'b']
    } else if c == '\u{c}' {
        seq!['\\', 'f']
    } else if c == '\n' {
        seq!['\\', 'n']
    } else if c == '\r' {
        seq!['\\', 'r']
    } else if c == '\t' {
        seq!['\\', 't']
    } else if (c as u32) < 32 {
        seq!['\\', 'u', '0', '0', hex_char((c as u32) as int / 16), hex_char((c as u32) as int % 16)]
    } else {
        seq![c]
    }
}

/// How a whole string is written inside a JSON string literal.
pub open spec fn escape_seq(s: Seq<char>) -> Seq<char>
    decreases s.len(),
{
    if s.len() == 0 {
        Seq::<char>::empty()
    } else {
        escape_char(s[0]) + escape_seq(s.skip(1))
    }
}

pub proof fn lemma_escape_snoc(s: Seq<char>, c: char)
    ensures
        escape_seq(s.push(c)) == escape_seq(s) + escape_char(c),
    decreases s.len(),
{
    if s.len() == 0 {
        assert(s.push(c)[0] == c);
        assert(s.push(c).skip(1) =~= Seq::<char>::empty());
        assert(escape_seq(s.push(c)) == escape_char(c) + escape_seq(Seq::<char>::empty()));
        assert(escape_seq(Seq::<char>::empty()) == Seq::<char>::empty());
        assert(escape_char(c) + Seq::<char>::empty() =~= escape_char(c));
        assert(escape_seq(s) == Seq::<char>::empty());
        assert(Seq::<char>::empty() + escape_char(c) =~= escape_char(c));
    } else {
        lemma_escape_snoc(s.skip(1), c);
        assert(s.push(c).skip(1) =~= s.skip(1).push(c));
        assert(s.push(c)[0] == s[0]);
        assert(escape_char(s[0]) + (escape_seq(s.skip(1)) + escape_char(c)) =~= (escape_char(s[0])
            + escape_seq(s.skip(1))) + escape_char(c));
    }
}

/// Decodes the first encoded character of `t`: the character and how many
/// input characters it occupied. `None` at the end of the literal (a bare
/// `"`), on a malformed escape, and on a bare control character.
pub open spec fn unesc_step(t: Seq<char>) -> Option<(char, int)> {
    if t.len() == 0 {
        None
    } else if t[0] == '"' {
        None
    } else if t[0] == '\\' {
        if t.len() < 2 {
            None
        } else if t[1] == '"' {
            Some(('"', 2))
        } else if t[1] == '\\' {
            Some(('\\', 2))
        } else if t[1] == 'b' {
            Some(('\u{8}', 2))
        } else if t[1] == 'f' {
            Some(('\u{c}', 2))
        } else if t[1] == 'n' {
            Some(('\n', 2))
        } else if t[1] == 'r' {
            Some(('\r', 2))
        } else if t[1] == 't' {
            Some(('\t', 2))
        } else if t[1] == 'u' {
            if t.len() < 6 {
                None
            } else if t[2] == '0' && t[3] == '0' && is_hex(t[4]) && is_hex(t[5]) && hex_val(t[4])
                * 16 + hex_val(t[5]) < 32 {
                Some((char_of_code(hex_val(t[4]) * 16 + hex_val(t[5])), 6))
            } else {
                None
            }
        } else {
            None
        }
    } else if (t[0] as u32) < 32 {
        None
    } else {
        Some((t[0], 1))
    }
}

/// Decodes a JSON string literal body up to, but not including, its closing
/// quote: the decoded string and the number of input characters consumed.
pub open spec fn unescape_prefix(t: Seq<char>) -> Option<(Seq<char>, int)>
    decreases t.len(),
{
    if t.len() == 0 {
        None
    } else if t[0] == '"' {
        Some((Seq::<char>::empty(), 0))
    } else {
        match unesc_step(t) {
            None => None,
            Some((c, k)) => if 1 <= k <= t.len() {
                match unescape_prefix(t.skip(k)) {
                    None => None,
                    Some((s, m)) => Some((seq![c] + s, k + m)),
                }
            } else {
                None
            },
        }
    }
}

/// A single escaped character, put in front of anything, decodes back to
/// itself.
proof fn lemma_step_of_escape(c: char, t1: Seq<char>)
    ensures
        unesc_step(escape_char(c) + t1) == Some((c, escape_char(c).len() as int)),
{
    let t = escape_char(c) + t1;
    if c == '"' || c == '\\' || c == '\u{8}' || c == '\u{c}' || c == '\n' || c == '\r' || c
        == '\t' {
        assert(t[0] == '\\' && t.len() >= 2);
    } else if (c as u32) < 32 {
        let v = (c as u32) as int;
        assert(t.len() >= 6);
        assert(t[0] == '\\' && t[1] == 'u' && t[2] == '0' && t[3] == '0');
        assert(t[4] == hex_char(v / 16) && t[5] == hex_char(v % 16));
        crate::chars::lemma_hex_round_trip(v / 16);
        crate::chars::lemma_hex_round_trip(v % 16);
        assert((v / 16) * 16 + (v % 16) == v) by (nonlinear_arith);
        assert(char_of_code(v) == c);
    } else {
        assert(t[0] == c);
    }
}

/// Decoding what `escape_seq` produced, with the closing quote behind it,
/// gives the original string back and consumes exactly the escaped text.
pub proof fn lemma_unescape_escape(s: Seq<char>, rest: Seq<char>)
    requires
        rest.len() > 0,
        rest[0] == '"',
    ensures
        unescape_prefix(escape_seq(s) + rest) == Some((s, escape_seq(s).len() as int)),
    decreases s.len(),
{
    let t = escape_seq(s) + rest;
    if s.len() == 0 {
        assert(escape_seq(s) =~= Seq::<char>::empty());
        assert(t =~= rest);
        assert(s =~= Seq::<char>::empty());
    } else {
        let c = s[0];
        let ec = escape_char(c);
        let s1 = s.skip(1);
        let t1 = escape_seq(s1) + rest;
        assert(t =~= ec + t1);
        lemma_step_of_escape(c, t1);
        assert(unesc_step(t) == Some((c, ec.len() as int)));
        assert(1 <= ec.len() <= t.len());
        assert(t.skip(ec.len() as int) =~= t1);
        lemma_unescape_escape(s1, rest);
        assert(t[0] != '"') by {
            assert(t[0] == ec[0]);
        }
        assert(seq![c] + s1 =~= s);
        assert(escape_seq(s).len() == ec.len() + escape_seq(s1).len());
    }
}

/// Appends the escaped form of `s` to `out`.
pub fn escape_into(out: &mut Vec<char>, s: &Vec<char>)
    ensures
        final(out)@ == old(out)@ + escape_seq(s@),
{
    let mut i: usize = 0;
    while i < s.len()
        invariant
            i <= s@.len(),
            out@ == old(out)@ + escape_seq(s@.take(i as int)),
        decreases s@.len() - i,
    {
        let c = s[i];
        if c == '"' {
            out.push('\\');
            out.push('"');
        } else if c == '\\' {
            out.push('\\');
            out.push('\\');
        } else if c == '\u{8}' {
            out.push('\\');
            out.push('b');
        } else if c == '\u{c}' {
            out.push('\\');
            out.push('f');
        } else if c == '\n' {
            out.push('\\');
            out.push('n');
        } else if c == '\r' {
            out.push('\\');
            out.push('r');
        } else if c == '\t' {
            out.push('\\');
            out.push('t');
        } else {
            let u = c as u32;
            if u < 32 {
                out.push('\\');
                out.push('u');
                out.push('0');
                out.push('0');
                out.push(hex_char_exec((u / 16) as u8));
                out.push(hex_char_exec((u % 16) as u8));
            } else {
                out.push(c);
            }
        }
        proof {
            lemma_escape_snoc(s@.take(i as int), s@[i as int]);
            assert(s@.take(i + 1 as int) =~= s@.take(i as int).push(s@[i as int]));
            assert(out@ =~= old(out)@ + escape_seq(s@.take(i + 1 as int)));
        }
        i = i + 1;
    }
    proof {
        assert(s@.take(s@.len() as int) =~= s@);
    }
}

/// Decodes the string literal body starting at `pos`, stopping at the first
/// unescaped quote. On success returns the decoded string and the position
/// of that closing quote.
pub fn unescape_until_quote(v: &Vec<char>, pos: usize) -> (r: Option<(Vec<char>, usize)>)
    requires
        pos <= v@.len(),
    ensures
        match r {
            Some(p) => {
                &&& pos <= p.1 < v@.len()
                &&& v@[p.1 as int] == '"'
                &&& unescape_prefix(v@.skip(pos as int)) == Some((p.0@, p.1 - pos))
            },
            None => unescape_prefix(v@.skip(pos as int)) is None,
        },
{
    let ghost t0 = v@.skip(pos as int);
    let mut cur: usize = pos;
    let mut acc: Vec<char> = Vec::new();
    loop
        invariant
            pos <= cur <= v@.len(),
            t0 == v@.skip(pos as int),
            unescape_prefix(t0) is Some <==> unescape_prefix(v@.skip(cur as int)) is Some,
            unescape_prefix(v@.skip(cur as int)) matches Some((s, m)) ==> unescape_prefix(t0)
                == Some((acc@ + s, (cur - pos) + m)),
        decreases v@.len() - cur,
    {
        let ghost t = v@.skip(cur as int);
        if cur >= v.len() {
            proof {
                assert(t.len() == 0);
            }
            return None;
        }
        let c = v[cur];
        proof {
            assert(t[0] == c);
        }
        if c == '"' {
            proof {
                assert(unescape_prefix(t) == Some((Seq::<char>::empty(), 0int)));
                assert(acc@ + Seq::<char>::empty() =~= acc@);
            }
            return Some((acc, cur));
        }
        let step: Option<(char, usize)> = if c == '\\' {
            if cur + 1 >= v.len() {
                None
            } else {
                let e = v[cur + 1];
                if e == '"' {
                    Some(('"', 2))
                } else if e == '\\' {
                    Some(('\\', 2))
                } else if e == 'b' {
                    Some(('\u{8}', 2))
                } else if e == 'f' {
                    Some(('\u{c}', 2))
                } else if e == 'n' {
                    Some(('\n', 2))
                } else if e == 'r' {
                    Some(('\r', 2))
                } else if e == 't' {
                    Some(('\t', 2))
                } else if e == 'u' {
                    if v.len() - cur < 6 {
                        None
                    } else if v[cur + 2] == '0' && v[cur + 3] == '0' && hex_val_exec(v[cur + 4])
                        < 16 && hex_val_exec(v[cur + 5]) < 16 {
                        let hv = hex_val_exec(v[cur + 4]);
                        let lv = hex_val_exec(v[cur + 5]);
                        let code = hv * 16 + lv;
                        if code < 32 {
                            Some(((code as u8) as char, 6))
                        } else {
                            None
                        }
                    } else {
                        None
                    }
                } else {
                    None
                }
            }
        } else {
            let u = c as u32;
            if u < 32 {
                None
            } else {
                Some((c, 1))
            }
        };
        proof {
            assert(t.len() >= 1 && t[0] != '"');
            if t.len() >= 2 {
                assert(t[1] == v@[cur + 1int]);
            }
            if t.len() >= 6 {
                assert(t[2] == v@[cur + 2int]);
                assert(t[3] == v@[cur + 3int]);
                assert(t[4] == v@[cur + 4int]);
                assert(t[5] == v@[cur + 5int]);
            }
        }
        match step {
            None => {
                proof {
                    assert(unesc_step(t) is None);
                    assert(unescape_prefix(t) is None);
                }
                return None;
            },
            Some((dc, k)) => {
                proof {
                    assert(unesc_step(t) == Some((dc, k as int)));
                    assert(1 <= k as int <= t.len());
                    assert(v@.skip(cur + k as int) =~= t.skip(k as int));
                    match unescape_prefix(t.skip(k as int)) {
                        Some((ds, dm)) => {
                            assert(unescape_prefix(t) == Some((seq![dc] + ds, k + dm)));
                            assert(acc@ + (seq![dc] + ds) =~= acc@.push(dc) + ds);
                        },
                        None => {},
                    }
                }
                acc.push(dc);
                cur = cur + k;
            },
        }
    }
}

} // verus!
