//! The crash-report on-disk form: a pretty-printed JSON object with the
//! seven report fields in fixed order, two-space indentation and a trailing
//! newline, exactly as common JSON serializers pretty-print it.
//!
//! `to_json` renders that form; `from_json` accepts it back (with any
//! trailing whitespace) and nothing else, so a corrupt or foreign file
//! simply fails to parse. The round-trip laws at the end state that parsing
//! a rendered report gives the report back.

use vstd::prelude::*;
use vstd::string::*;

use crate::chars::{
    chars_of_str, dec_digits, digits_prefix_len, digits_value, is_digit, lemma_dec_digits_all_digits,
    lemma_dec_digits_value, lemma_digits_prefix_of_concat, parse_number, push_dec_u64, push_char,
    push_str_chars, string_of_chars,
};
use crate::escape::{
    escape_into, escape_seq, lemma_unescape_escape, unescape_prefix, unescape_until_quote,
};
use crate::report::{CrashReport, ReportView};

verus! {

/// The closing quote of a JSON string literal.
pub open spec fn quote_seq() -> Seq<char> {
    seq!['"']
}

/// The rendered JSON document, without the trailing newline.
pub open spec fn render_view(v: ReportView) -> Seq<char> {
    "{\n  \"timestamp\": "@ + dec_digits(v.timestamp as nat) + ",\n  \"timestamp_iso\": \""@
        + escape_seq(v.timestamp_iso) + quote_seq() + ",\n  \"error_message\": \""@ + escape_seq(
        v.error_message,
    ) + quote_seq() + ",\n  \"backtrace\": \""@ + escape_seq(v.backtrace) + quote_seq()
        + ",\n  \"platform\": \""@ + escape_seq(v.platform) + quote_seq() + ",\n  \"app_version\": \""@
        + escape_seq(v.app_version) + quote_seq() + ",\n  \"filename\": \""@ + escape_seq(
        v.filename,
    ) + quote_seq() + "\n}"@
}

/// The full file contents: the document plus the trailing newline.
pub open spec fn render_file(v: ReportView) -> Seq<char> {
    render_view(v) + seq!['\n']
}

pub open spec fn starts_with(t: Seq<char>, p: Seq<char>) -> bool {
    t.len() >= p.len() && t.take(p.len() as int) == p
}

pub open spec fn is_ws(c: char) -> bool {
    c == ' ' || c == '\n' || c == '\r' || c == '\t'
}

pub open spec fn all_ws(t: Seq<char>) -> bool {
    forall|i: int| 0 <= i < t.len() ==> is_ws(#[trigger] t[i])
}

/// One string field: the fixed text up to the opening quote, then the
/// escaped value, then the closing quote. Yields the value and what follows.
pub open spec fn parse_str_field(t: Seq<char>, lit: Seq<char>) -> Option<(Seq<char>, Seq<char>)> {
    if !starts_with(t, lit) {
        None
    } else {
        let t1 = t.skip(lit.len() as int);
        match unescape_prefix(t1) {
            None => None,
            Some((s, m)) => Some((s, t1.skip(m + 1))),
        }
    }
}

/// The strict reading of the on-disk form: the seven fields in order, then
/// the closing brace, then only whitespace.
pub open spec fn parse_view(t: Seq<char>) -> Option<ReportView> {
    if !starts_with(t, "{\n  \"timestamp\": "@) {
        None
    } else {
        let t1 = t.skip("{\n  \"timestamp\": "@.len() as int);
        let k = digits_prefix_len(t1);
        if k == 0 {
            None
        } else if digits_value(t1.take(k)) > u64::MAX {
            None
        } else {
            let ts = digits_value(t1.take(k));
            let t2 = t1.skip(k);
            match parse_str_field(t2, ",\n  \"timestamp_iso\": \""@) {
                None => None,
                Some((iso, t3)) => match parse_str_field(t3, ",\n  \"error_message\": \""@) {
                    None => None,
                    Some((msg, t4)) => match parse_str_field(t4, ",\n  \"backtrace\": \""@) {
                        None => None,
                        Some((bt, t5)) => match parse_str_field(t5, ",\n  \"platform\": \""@) {
                            None => None,
                            Some((plat, t6)) => match parse_str_field(
                                t6,
                                ",\n  \"app_version\": \""@,
                            ) {
                                None => None,
                                Some((ver, t7)) => match parse_str_field(
                                    t7,
                                    ",\n  \"filename\": \""@,
                                ) {
                                    None => None,
                                    Some((fname, t8)) => {
                                        if starts_with(t8, "\n}"@) && all_ws(
                                            t8.skip("\n}"@.len() as int),
                                        ) {
                                            Some(
                                                ReportView {
                                                    timestamp: ts as u64,
                                                    timestamp_iso: iso,
                                                    error_message: msg,
                                                    backtrace: bt,
                                                    platform: plat,
                                                    app_version: ver,
                                                    filename: fname,
                                                },
                                            )
                                        } else {
                                            None
                                        }
                                    },
                                },
                            },
                        },
                    },
                },
            }
        }
    }
}

impl CrashReport {
    /// Renders the report in its on-disk JSON form, without the trailing
    /// newline.
    pub fn to_json(&self) -> (r: String)
        ensures
            r@ == render_view(self@),
    {
        let mut out: Vec<char> = Vec::new();
        push_str_chars(&mut out, "{\n  \"timestamp\": ");
        push_dec_u64(&mut out, self.timestamp);
        push_str_chars(&mut out, ",\n  \"timestamp_iso\": \"");
        let iso = chars_of_str(self.timestamp_iso.as_str());
        escape_into(&mut out, &iso);
        out.push('"');
        push_str_chars(&mut out, ",\n  \"error_message\": \"");
        let msg = chars_of_str(self.error_message.as_str());
        escape_into(&mut out, &msg);
        out.push('"');
        push_str_chars(&mut out, ",\n  \"backtrace\": \"");
        let bt = chars_of_str(self.backtrace.as_str());
        escape_into(&mut out, &bt);
        out.push('"');
        push_str_chars(&mut out, ",\n  \"platform\": \"");
        let plat = chars_of_str(self.platform.as_str());
        escape_into(&mut out, &plat);
        out.push('"');
        push_str_chars(&mut out, ",\n  \"app_version\": \"");
        let ver = chars_of_str(self.app_version.as_str());
        escape_into(&mut out, &ver);
        out.push('"');
        push_str_chars(&mut out, ",\n  \"filename\": \"");
        let fname = chars_of_str(self.filename.as_str());
        escape_into(&mut out, &fname);
        out.push('"');
        push_str_chars(&mut out, "\n}");
        proof {
            assert(out@ =~= render_view(self@));
        }
        string_of_chars(&out)
    }

    /// The exact file contents `save` writes: the JSON form plus a trailing
    /// newline.
    pub fn to_file_contents(&self) -> (r: String)
        ensures
            r@ == render_file(self@),
    {
        let mut r = self.to_json();
        push_char(&mut r, '\n');
        proof {
            assert(r@ =~= render_file(self@));
        }
        r
    }

    /// Reads a report back from its on-disk form; `None` exactly where the
    /// text is not that form.
    pub fn from_json(s: &str) -> (r: Option<CrashReport>)
        ensures
            match r {
                Some(rep) => parse_view(s@) == Some(rep@),
                None => parse_view(s@) is None,
            },
    {
        let v = chars_of_str(s);
        proof {
            assert(v@.skip(0) =~= s@);
        }
        let p1 = match match_lit(&v, 0, "{\n  \"timestamp\": ") {
            None => {
                return None;
            },
            Some(p) => p,
        };
        let ghost t1 = s@.skip("{\n  \"timestamp\": "@.len() as int);
        proof {
            assert(v@.skip(p1 as int) =~= t1);
        }
        let (ts, p2) = match parse_number(&v, p1) {
            None => {
                return None;
            },
            Some(p) => p,
        };
        let ghost t2 = t1.skip(digits_prefix_len(t1));
        proof {
            assert(v@.skip(p2 as int) =~= t2);
        }
        let (iso, p3) = match parse_str_field_exec(&v, p2, ",\n  \"timestamp_iso\": \"") {
            None => {
                return None;
            },
            Some(p) => p,
        };
        let (msg, p4) = match parse_str_field_exec(&v, p3, ",\n  \"error_message\": \"") {
            None => {
                return None;
            },
            Some(p) => p,
        };
        let (bt, p5) = match parse_str_field_exec(&v, p4, ",\n  \"backtrace\": \"") {
            None => {
                return None;
            },
            Some(p) => p,
        };
        let (plat, p6) = match parse_str_field_exec(&v, p5, ",\n  \"platform\": \"") {
            None => {
                return None;
            },
            Some(p) => p,
        };
        let (ver, p7) = match parse_str_field_exec(&v, p6, ",\n  \"app_version\": \"") {
            None => {
                return None;
            },
            Some(p) => p,
        };
        let (fname, p8) = match parse_str_field_exec(&v, p7, ",\n  \"filename\": \"") {
            None => {
                return None;
            },
            Some(p) => p,
        };
        let p9 = match match_lit(&v, p8, "\n}") {
            None => {
                return None;
            },
            Some(p) => p,
        };
        let ghost t9 = v@.skip(p8 as int).skip("\n}"@.len() as int);
        proof {
            assert(v@.skip(p9 as int) =~= t9);
        }
        let mut i: usize = p9;
        #[verifier::loop_isolation(false)]
        while i < v.len()
            invariant
                p9 <= i <= v@.len(),
                t9 == v@.skip(p9 as int),
                forall|j: int| p9 <= j < i ==> is_ws(#[trigger] v@[j]),
            decreases v@.len() - i,
        {
            let c = v[i];
            if !(c == ' ' || c == '\n' || c == '\r' || c == '\t') {
                proof {
                    let j = i - p9;
                    assert(t9.len() == v@.len() - p9);
                    assert(t9[j] == v@[i as int]);
                    assert(!is_ws(t9[j]));
                    assert(!all_ws(t9));
                }
                return None;
            }
            i = i + 1;
        }
        proof {
            assert forall|j: int| 0 <= j < t9.len() implies is_ws(#[trigger] t9[j]) by {
                assert(t9[j] == v@[p9 + j]);
            }
            assert(all_ws(t9));
        }
        let rep = CrashReport {
            timestamp: ts,
            timestamp_iso: string_of_chars(&iso),
            error_message: string_of_chars(&msg),
            backtrace: string_of_chars(&bt),
            platform: string_of_chars(&plat),
            app_version: string_of_chars(&ver),
            filename: string_of_chars(&fname),
        };
        proof {
            assert(parse_view(s@) == Some(rep@));
        }
        Some(rep)
    }
}

/// Does the text starting at `pos` begin with `lit`? On a match, the
/// position just past it.
fn match_lit(v: &Vec<char>, pos: usize, lit: &str) -> (r: Option<usize>)
    requires
        pos <= v@.len(),
    ensures
        match r {
            Some(np) => {
                &&& np == pos + lit@.len()
                &&& np <= v@.len()
                &&& starts_with(v@.skip(pos as int), lit@)
            },
            None => !starts_with(v@.skip(pos as int), lit@),
        },
{
    let ghost t = v@.skip(pos as int);
    let n = lit.unicode_len();
    let vlen = v.len();
    if vlen - pos < n {
        return None;
    }
    let mut i: usize = 0;
    while i < n
        invariant
            n == lit@.len(),
            vlen == v@.len(),
            pos + n <= vlen,
            i <= n,
            t == v@.skip(pos as int),
            forall|j: int| 0 <= j < i ==> t[j] == lit@[j],
        decreases n - i,
    {
        let c = v[pos + i];
        proof {
            assert(t[i as int] == v@[pos + i as int]);
        }
        if c != lit.get_char(i) {
            proof {
                if starts_with(t, lit@) {
                    assert(t.take(n as int)[i as int] == lit@[i as int]);
                    assert(false);
                }
            }
            return None;
        }
        i = i + 1;
    }
    proof {
        assert(t.take(n as int) =~= lit@);
    }
    Some(pos + n)
}

/// Reads one string field starting at `pos`: the fixed text `lit`, the
/// escaped value, the closing quote. On success, the decoded value and the
/// position just past the quote.
fn parse_str_field_exec(v: &Vec<char>, pos: usize, lit: &str) -> (r: Option<(Vec<char>, usize)>)
    requires
        pos <= v@.len(),
    ensures
        match r {
            Some(p) => {
                &&& pos <= p.1 <= v@.len()
                &&& parse_str_field(v@.skip(pos as int), lit@) == Some((p.0@, v@.skip(p.1 as int)))
            },
            None => parse_str_field(v@.skip(pos as int), lit@) is None,
        },
{
    let ghost t = v@.skip(pos as int);
    let p1 = match match_lit(v, pos, lit) {
        None => {
            return None;
        },
        Some(p) => p,
    };
    let ghost tl = t.skip(lit@.len() as int);
    proof {
        assert(v@.skip(p1 as int) =~= tl);
    }
    match unescape_until_quote(v, p1) {
        None => {
            return None;
        },
        Some((s, qpos)) => {
            let vlen = v.len();
            assert(qpos < vlen);
            let np = qpos + 1;
            proof {
                assert(unescape_prefix(tl) == Some((s@, qpos - p1)));
                assert(tl.skip((qpos - p1) + 1) =~= v@.skip(np as int));
            }
            Some((s, np))
        },
    }
}

/// Concatenation is associative.
proof fn lemma_reassoc(x: Seq<char>, y: Seq<char>, z: Seq<char>)
    ensures
        (x + y) + z == x + (y + z),
{
    assert((x + y) + z =~= x + (y + z));
}

/// Splitting a concatenation at the left part's length gives the parts back.
proof fn lemma_split(p: Seq<char>, rest: Seq<char>)
    ensures
        starts_with(p + rest, p),
        (p + rest).skip(p.len() as int) == rest,
{
    assert((p + rest).take(p.len() as int) =~= p);
    assert((p + rest).skip(p.len() as int) =~= rest);
}

/// A rendered string field parses back to its value, leaving what follows
/// the closing quote.
proof fn lemma_parse_str_field_of(lit: Seq<char>, val: Seq<char>, rest: Seq<char>)
    ensures
        parse_str_field(lit + (escape_seq(val) + (quote_seq() + rest)), lit) == Some((val, rest)),
{
    let t1 = escape_seq(val) + (quote_seq() + rest);
    lemma_split(lit, t1);
    assert((quote_seq() + rest)[0] == '"');
    lemma_unescape_escape(val, quote_seq() + rest);
    assert(unescape_prefix(t1) == Some((val, escape_seq(val).len() as int)));
    assert(t1.skip(escape_seq(val).len() as int + 1) =~= rest);
}

/// Law: the strict reader accepts exactly what the renderer wrote, with any
/// trailing whitespace behind it, and returns the same report.
#[verifier::rlimit(100)]
pub proof fn lemma_parse_render_with_tail(vw: ReportView, tail: Seq<char>)
    requires
        all_ws(tail),
    ensures
        parse_view(render_view(vw) + tail) == Some(vw),
{
    let ts_digits = dec_digits(vw.timestamp as nat);
    let r16 = "\n}"@ + tail;
    let r15 = quote_seq() + r16;
    let r14 = escape_seq(vw.filename) + r15;
    let r13 = ",\n  \"filename\": \""@ + r14;
    let r12 = quote_seq() + r13;
    let r11 = escape_seq(vw.app_version) + r12;
    let r10 = ",\n  \"app_version\": \""@ + r11;
    let r9 = quote_seq() + r10;
    let r8 = escape_seq(vw.platform) + r9;
    let r7 = ",\n  \"platform\": \""@ + r8;
    let r6 = quote_seq() + r7;
    let r5 = escape_seq(vw.backtrace) + r6;
    let r4 = ",\n  \"backtrace\": \""@ + r5;
    let r3 = quote_seq() + r4;
    let r2 = escape_seq(vw.error_message) + r3;
    let r1 = ",\n  \"error_message\": \""@ + r2;
    let r0c = quote_seq() + r1;
    let r0b = escape_seq(vw.timestamp_iso) + r0c;
    let r0a = ",\n  \"timestamp_iso\": \""@ + r0b;
    let r0 = ts_digits + r0a;
    let a0 = "{\n  \"timestamp\": "@;
    let a1 = a0 + ts_digits;
    let a2 = a1 + ",\n  \"timestamp_iso\": \""@;
    let a3 = a2 + escape_seq(vw.timestamp_iso);
    let a4 = a3 + quote_seq();
    let a5 = a4 + ",\n  \"error_message\": \""@;
    let a6 = a5 + escape_seq(vw.error_message);
    let a7 = a6 + quote_seq();
    let a8 = a7 + ",\n  \"backtrace\": \""@;
    let a9 = a8 + escape_seq(vw.backtrace);
    let a10 = a9 + quote_seq();
    let a11 = a10 + ",\n  \"platform\": \""@;
    let a12 = a11 + escape_seq(vw.platform);
    let a13 = a12 + quote_seq();
    let a14 = a13 + ",\n  \"app_version\": \""@;
    let a15 = a14 + escape_seq(vw.app_version);
    let a16 = a15 + quote_seq();
    let a17 = a16 + ",\n  \"filename\": \""@;
    let a18 = a17 + escape_seq(vw.filename);
    let a19 = a18 + quote_seq();
    let t = render_view(vw) + tail;
    assert(render_view(vw) == a19 + "\n}"@);
    lemma_reassoc(a19, "\n}"@, tail);
    lemma_reassoc(a18, quote_seq(), r16);
    lemma_reassoc(a17, escape_seq(vw.filename), r15);
    lemma_reassoc(a16, ",\n  \"filename\": \""@, r14);
    lemma_reassoc(a15, quote_seq(), r13);
    lemma_reassoc(a14, escape_seq(vw.app_version), r12);
    lemma_reassoc(a13, ",\n  \"app_version\": \""@, r11);
    lemma_reassoc(a12, quote_seq(), r10);
    lemma_reassoc(a11, escape_seq(vw.platform), r9);
    lemma_reassoc(a10, ",\n  \"platform\": \""@, r8);
    lemma_reassoc(a9, quote_seq(), r7);
    lemma_reassoc(a8, escape_seq(vw.backtrace), r6);
    lemma_reassoc(a7, ",\n  \"backtrace\": \""@, r5);
    lemma_reassoc(a6, quote_seq(), r4);
    lemma_reassoc(a5, escape_seq(vw.error_message), r3);
    lemma_reassoc(a4, ",\n  \"error_message\": \""@, r2);
    lemma_reassoc(a3, quote_seq(), r1);
    lemma_reassoc(a2, escape_seq(vw.timestamp_iso), r0c);
    lemma_reassoc(a1, ",\n  \"timestamp_iso\": \""@, r0b);
    lemma_reassoc(a0, ts_digits, r0a);
    assert(t == a0 + r0);
    lemma_split(a0, r0);
    lemma_dec_digits_all_digits(vw.timestamp as nat);
    lemma_dec_digits_value(vw.timestamp as nat);
    assert(r0a.len() > 0 && r0a[0] == ',') by {
        reveal_strlit(",\n  \"timestamp_iso\": \"");
    }
    assert(!is_digit(','));
    lemma_digits_prefix_of_concat(ts_digits, r0a);
    lemma_parse_str_field_of(",\n  \"timestamp_iso\": \""@, vw.timestamp_iso, r1);
    lemma_parse_str_field_of(",\n  \"error_message\": \""@, vw.error_message, r4);
    lemma_parse_str_field_of(",\n  \"backtrace\": \""@, vw.backtrace, r7);
    lemma_parse_str_field_of(",\n  \"platform\": \""@, vw.platform, r10);
    lemma_parse_str_field_of(",\n  \"app_version\": \""@, vw.app_version, r13);
    lemma_parse_str_field_of(",\n  \"filename\": \""@, vw.filename, r16);
    lemma_split("\n}"@, tail);
    let t1s = t.skip("{\n  \"timestamp\": "@.len() as int);
    assert(starts_with(t, "{\n  \"timestamp\": "@));
    assert(t1s == r0);
    let k = digits_prefix_len(t1s);
    assert(k == ts_digits.len());
    assert(t1s.take(k) == ts_digits);
    assert(digits_value(t1s.take(k)) == vw.timestamp);
    assert(!(digits_value(t1s.take(k)) > u64::MAX));
    assert(t1s.skip(k) == r0a);
    assert(parse_str_field(r0a, ",\n  \"timestamp_iso\": \""@) == Some((vw.timestamp_iso, r1)));
    assert(parse_str_field(r1, ",\n  \"error_message\": \""@) == Some((vw.error_message, r4)));
    assert(parse_str_field(r4, ",\n  \"backtrace\": \""@) == Some((vw.backtrace, r7)));
    assert(parse_str_field(r7, ",\n  \"platform\": \""@) == Some((vw.platform, r10)));
    assert(parse_str_field(r10, ",\n  \"app_version\": \""@) == Some((vw.app_version, r13)));
    assert(parse_str_field(r13, ",\n  \"filename\": \""@) == Some((vw.filename, r16)));
    assert(starts_with(r16, "\n}"@));
    assert(r16.skip("\n}"@.len() as int) == tail);
    let got = ReportView {
        timestamp: digits_value(t1s.take(k)) as u64,
        timestamp_iso: vw.timestamp_iso,
        error_message: vw.error_message,
        backtrace: vw.backtrace,
        platform: vw.platform,
        app_version: vw.app_version,
        filename: vw.filename,
    };
    assert(parse_view(t) == Some(got));
    assert(got =~= vw);
}

/// Law: parsing the rendered document gives the report back, field for
/// field.
pub proof fn lemma_round_trip(vw: ReportView)
    ensures
        parse_view(render_view(vw)) == Some(vw),
{
    lemma_parse_render_with_tail(vw, Seq::<char>::empty());
    assert(render_view(vw) + Seq::<char>::empty() =~= render_view(vw));
}

/// Law: a whole saved file, trailing newline included, parses back to the
/// report it was written from.
pub proof fn lemma_file_round_trip(vw: ReportView)
    ensures
        parse_view(render_file(vw)) == Some(vw),
{
    assert(all_ws(seq!['\n'])) by {
        assert(is_ws('\n'));
    }
    lemma_parse_render_with_tail(vw, seq!['\n']);
}

} // verus!
