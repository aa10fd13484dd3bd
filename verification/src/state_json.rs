//! The persisted form of an `UpdateState`.
//!
//! The record is a single JSON object with an optional `app` path, an optional
//! `update` path and a required `phase` name, with absent fields omitted
//! rather than set to null.  The writer always emits this one canonical shape,
//! and the reader accepts exactly what the writer emits: the file is written
//! only by this engine, atomically, so any other shape is corruption.

use crate::api::{spec_phase_name, StateView, UpdatePhase, UpdateState};
use crate::errors::Error;
use crate::strutil::{eq_str, push_char};
use vstd::prelude::*;
use vstd::string::{StrSliceExecFns, StringExecFns};

verus! {

/// The lowercase hex digit for a value below 16.
pub open spec fn hex_char(n: int) -> char {
    if n < 10 {
        (48 + n) as char
    } else {
        (87 + n) as char
    }
}

/// The value of a hex digit character, either case.
pub open spec fn hex_val(c: char) -> Option<int> {
    if 48 <= c as int && c as int <= 57 {
        Some(c as int - 48)
    } else if 97 <= c as int && c as int <= 102 {
        Some(c as int - 87)
    } else if 65 <= c as int && c as int <= 70 {
        Some(c as int - 55)
    } else {
        None
    }
}

/// How one character is written inside a JSON string: quote and backslash get
/// a two-character escape, the common control characters their short names,
/// the rest of the control range a `\u00..` escape, and everything else
/// stands as itself.
pub open spec fn esc_char(c: char) -> Seq<char> {
    if c == '"' {
        seq!['\\', '"']
    } else if c == '\\' {
        seq!['\\', '\\']
    } else if c == '\u{8}' {
        seq!['\\', 'b']
    } else if c == '\t' {
        seq!['\\', 't']
    } else if c == '\n' {
        seq!['\\', 'n']
    } else if c == '\u{C}' {
        seq!['\\', 'f']
    } else if c == '\r' {
        seq!['\\', 'r']
    } else if (c as int) < 32 {
        seq!['\\', 'u', '0', '0', hex_char((c as int) / 16), hex_char((c as int) % 16)]
    } else {
        seq![c]
    }
}

/// A whole string escaped, character by character.
pub open spec fn spec_escape(s: Seq<char>) -> Seq<char>
    decreases s.len(),
{
    if s.len() == 0 {
        Seq::empty()
    } else {
        esc_char(s[0]) + spec_escape(s.drop_first())
    }
}

/// Escaping distributes over concatenation.
pub proof fn lemma_escape_append(a: Seq<char>, b: Seq<char>)
    ensures
        spec_escape(a + b) == spec_escape(a) + spec_escape(b),
    decreases a.len(),
{
    if a.len() == 0 {
        assert(a + b =~= b);
        assert(spec_escape(a) + spec_escape(b) =~= spec_escape(b));
    } else {
        assert((a + b)[0] == a[0]);
        assert((a + b).drop_first() =~= a.drop_first() + b);
        lemma_escape_append(a.drop_first(), b);
        assert(esc_char(a[0]) + (spec_escape(a.drop_first()) + spec_escape(b)) =~= (esc_char(a[0])
            + spec_escape(a.drop_first())) + spec_escape(b));
    }
}

/// The undoing of a two-character escape.
pub open spec fn unesc_simple(c: char) -> Option<char> {
    if c == '"' {
        Some('"')
    } else if c == '\\' {
        Some('\\')
    } else if c == '/' {
        Some('/')
    } else if c == 'b' {
        Some('\u{8}')
    } else if c == 't' {
        Some('\t')
    } else if c == 'n' {
        Some('\n')
    } else if c == 'f' {
        Some('\u{C}')
    } else if c == 'r' {
        Some('\r')
    } else {
        None
    }
}

/// Reads a JSON string body up to its closing quote, undoing escapes; yields
/// the decoded characters and the text after the quote, or nothing when the
/// text is not a well-formed string body.
pub open spec fn scan_jstring(t: Seq<char>) -> Option<(Seq<char>, Seq<char>)>
    decreases t.len(),
{
    if t.len() == 0 {
        None
    } else if t[0] == '"' {
        Some((Seq::empty(), t.drop_first()))
    } else if t[0] == '\\' {
        if t.len() >= 2 && t[1] == 'u' {
            if t.len() >= 6 {
            let h0 = hex_val(t[2]);
            let h1 = hex_val(t[3]);
            let h2 = hex_val(t[4]);
            let h3 = hex_val(t[5]);
            if h0 is Some && h1 is Some && h2 is Some && h3 is Some {
                let code = h0->0 * 4096 + h1->0 * 256 + h2->0 * 16 + h3->0;
                if code < 32 {
                    match scan_jstring(t.skip(6)) {
                        Some(p) => Some((seq![code as char] + p.0, p.1)),
                        None => None,
                    }
                } else {
                    None
                }
            } else {
                None
            }
            } else {
                None
            }
        } else if t.len() >= 2 && unesc_simple(t[1]) is Some {
            match scan_jstring(t.skip(2)) {
                Some(p) => Some((seq![unesc_simple(t[1])->0] + p.0, p.1)),
                None => None,
            }
        } else {
            None
        }
    } else {
        match scan_jstring(t.drop_first()) {
            Some(p) => Some((seq![t[0]] + p.0, p.1)),
            None => None,
        }
    }
}

/// Scanning what escaping wrote, up to the closing quote, recovers the
/// original text and leaves the rest untouched.
#[verifier::rlimit(60)]
pub proof fn lemma_scan_escape(content: Seq<char>, rest: Seq<char>)
    ensures
        scan_jstring(spec_escape(content) + seq!['"'] + rest) == Some((content, rest)),
    decreases content.len(),
{
    if content.len() == 0 {
        let t = spec_escape(content) + seq!['"'] + rest;
        assert(t =~= seq!['"'] + rest);
        assert(t.drop_first() =~= rest);
    } else {
        let c = content[0];
        let tail = content.drop_first();
        lemma_scan_escape(tail, rest);
        let inner = spec_escape(tail) + seq!['"'] + rest;
        let t = spec_escape(content) + seq!['"'] + rest;
        assert(t =~= esc_char(c) + inner);
        if c == '"' || c == '\\' {
            assert(t[0] == '\\' && t.len() >= 2 && t[1] == c);
            assert(t.skip(2) =~= inner);
            assert(seq![unesc_simple(t[1])->0] + tail =~= content);
        } else if c == '\u{8}' || c == '\t' || c == '\n' || c == '\u{C}' || c == '\r' {
            assert(t[0] == '\\' && t.len() >= 2);
            assert(unesc_simple(t[1])->0 == c);
            assert(t.skip(2) =~= inner);
            assert(seq![unesc_simple(t[1])->0] + tail =~= content);
        } else if (c as int) < 32 {
            let code = c as int;
            assert(t[0] == '\\' && t.len() >= 6 && t[1] == 'u');
            assert(t[2] == '0' && t[3] == '0');
            assert(t[4] == hex_char(code / 16) && t[5] == hex_char(code % 16));
            assert(hex_val('0') == Some(0int));
            lemma_char_nonneg(c);
            assert(0 <= code < 32);
            lemma_hex_roundtrip(code / 16);
            lemma_hex_roundtrip(code % 16);
            assert(0 * 4096 + 0 * 256 + (code / 16) * 16 + (code % 16) == code);
            assert(t.skip(6) =~= inner);
            assert((code as char) == c);
            assert(seq![code as char] + tail =~= content);
        } else {
            assert(t[0] == c);
            assert(c != '"' && c != '\\');
            assert(t.drop_first() =~= inner);
            assert(seq![c] + tail =~= content);
        }
    }
}

/// A character's code is a unicode scalar value, so it is never negative.
proof fn lemma_char_nonneg(c: char)
    ensures
        c as int >= 0,
{
}

/// A hex digit written then read gives back its value.
proof fn lemma_hex_roundtrip(n: int)
    requires
        0 <= n < 16,
    ensures
        hex_val(hex_char(n)) == Some(n),
{
    if n < 10 {
        assert(((48 + n) as char) as int == 48 + n);
    } else {
        assert(((87 + n) as char) as int == 87 + n);
    }
}

/// The text that introduces the optional `app` field, opening quote included.
pub open spec fn head_app() -> Seq<char> {
    seq!['"', 'a', 'p', 'p', '"', ':', '"']
}

/// The text that introduces the optional `update` field.
pub open spec fn head_update() -> Seq<char> {
    seq!['"', 'u', 'p', 'd', 'a', 't', 'e', '"', ':', '"']
}

/// The text that introduces the required `phase` field.
pub open spec fn head_phase() -> Seq<char> {
    seq!['"', 'p', 'h', 'a', 's', 'e', '"', ':', '"']
}

/// The canonical JSON text of a state record: optional `app` and `update`
/// fields, each omitted when absent, then the phase's wire name.
pub open spec fn spec_state_json(v: StateView) -> Seq<char> {
    seq!['{'] + (match v.target {
        Some(t) => head_app() + spec_escape(t) + seq!['"', ','],
        None => Seq::<char>::empty(),
    }) + (match v.temporary {
        Some(t) => head_update() + spec_escape(t) + seq!['"', ','],
        None => Seq::<char>::empty(),
    }) + head_phase() + spec_escape(spec_phase_name(v.phase)) + seq!['"', '}']
}

/// One optional field: absent when the head is not there, decoded when it is,
/// failing when the head is there but no well-formed value follows.
pub open spec fn parse_field(t: Seq<char>, head: Seq<char>) -> Option<
    (Option<Seq<char>>, Seq<char>),
> {
    if head.is_prefix_of(t) {
        match scan_jstring(t.skip(head.len() as int)) {
            Some(p) => if p.1.len() > 0 && p.1[0] == ',' {
                Some((Some(p.0), p.1.drop_first()))
            } else {
                None
            },
            None => None,
        }
    } else {
        Some((None, t))
    }
}

/// The phase whose wire name this is, if any.
pub open spec fn spec_phase_of_name(s: Seq<char>) -> Option<UpdatePhase> {
    if s == spec_phase_name(UpdatePhase::NoUpdate) {
        Some(UpdatePhase::NoUpdate)
    } else if s == spec_phase_name(UpdatePhase::Prepare) {
        Some(UpdatePhase::Prepare)
    } else if s == spec_phase_name(UpdatePhase::Replace) {
        Some(UpdatePhase::Replace)
    } else if s == spec_phase_name(UpdatePhase::Cleanup) {
        Some(UpdatePhase::Cleanup)
    } else {
        None
    }
}

/// Reads the canonical record shape back into a state value.
pub open spec fn spec_parse_state(t: Seq<char>) -> Option<StateView> {
    if t.len() > 0 && t[0] == '{' {
        match parse_field(t.drop_first(), head_app()) {
            None => None,
            Some(p1) => match parse_field(p1.1, head_update()) {
                None => None,
                Some(p2) => if head_phase().is_prefix_of(p2.1) {
                    match scan_jstring(p2.1.skip(head_phase().len() as int)) {
                        Some(p3) => if p3.1.len() == 1 && p3.1[0] == '}' {
                            match spec_phase_of_name(p3.0) {
                                Some(phase) => Some(
                                    StateView { target: p1.0, temporary: p2.0, phase },
                                ),
                                None => None,
                            }
                        } else {
                            None
                        },
                        None => None,
                    }
                } else {
                    None
                },
            },
        }
    } else {
        None
    }
}

/// The lowercase hex digit for a value below 16.
fn hex_digit(n: u32) -> (c: char)
    requires
        n < 16,
    ensures
        c == hex_char(n as int),
{
    if n < 10 {
        ((48 + n) as u8) as char
    } else {
        ((87 + n) as u8) as char
    }
}

/// Appends the escaped form of `s` to `out`.
fn escape_into(out: &mut String, s: &str)
    ensures
        final(out)@ == old(out)@ + spec_escape(s@),
{
    let ghost orig: Seq<char> = out@;
    let n = s.unicode_len();
    let mut i: usize = 0;
    assert(orig + spec_escape(s@.take(0)) =~= orig);
    while i < n
        invariant
            i <= n,
            n == s@.len(),
            out@ == orig + spec_escape(s@.take(i as int)),
        decreases n - i,
    {
        let c = s.get_char(i);
        let code = c as u32;
        if c == '"' {
            push_char(out, '\\');
            push_char(out, '"');
        } else if c == '\\' {
            push_char(out, '\\');
            push_char(out, '\\');
        } else if code == 8 {
            push_char(out, '\\');
            push_char(out, 'b');
        } else if code == 9 {
            push_char(out, '\\');
            push_char(out, 't');
        } else if code == 10 {
            push_char(out, '\\');
            push_char(out, 'n');
        } else if code == 12 {
            push_char(out, '\\');
            push_char(out, 'f');
        } else if code == 13 {
            push_char(out, '\\');
            push_char(out, 'r');
        } else if code < 32 {
            push_char(out, '\\');
            push_char(out, 'u');
            push_char(out, '0');
            push_char(out, '0');
            push_char(out, hex_digit(code / 16));
            push_char(out, hex_digit(code % 16));
        } else {
            push_char(out, c);
        }
        proof {
            assert(s@.take(i as int + 1) =~= s@.take(i as int) + seq![s@[i as int]]);
            lemma_escape_append(s@.take(i as int), seq![s@[i as int]]);
            assert(spec_escape(seq![s@[i as int]]) =~= esc_char(s@[i as int]) + spec_escape(
                seq![s@[i as int]].drop_first(),
            ));
            assert(seq![s@[i as int]].drop_first() =~= Seq::<char>::empty());
            assert(spec_escape(Seq::<char>::empty()) =~= Seq::<char>::empty());
            assert(spec_escape(seq![s@[i as int]]) =~= esc_char(s@[i as int]));
            assert(out@ =~= orig + spec_escape(s@.take(i as int + 1)));
        }
        i += 1;
    }
    proof {
        assert(s@.take(n as int) =~= s@);
    }
}

impl UpdateState {
    /// The canonical JSON text of this record, absent fields omitted.
    pub fn to_json(&self) -> (r: String)
        ensures
            r@ == spec_state_json(self@),
    {
        let ghost app_part: Seq<char> = match self@.target {
            Some(p) => head_app() + spec_escape(p) + seq!['"', ','],
            None => Seq::<char>::empty(),
        };
        let ghost update_part: Seq<char> = match self@.temporary {
            Some(p) => head_update() + spec_escape(p) + seq!['"', ','],
            None => Seq::<char>::empty(),
        };
        let mut out = String::new();
        push_char(&mut out, '{');
        assert(out@ =~= seq!['{']);
        match &self.target_application {
            Some(t) => {
                proof {
                    reveal_strlit("\"app\":\"");
                    assert("\"app\":\""@ =~= head_app());
                }
                out.append("\"app\":\"");
                escape_into(&mut out, t.as_str());
                push_char(&mut out, '"');
                push_char(&mut out, ',');
                assert(out@ =~= seq!['{'] + app_part);
            },
            None => {
                assert(out@ =~= seq!['{'] + app_part);
            },
        }
        match &self.temporary_application {
            Some(t) => {
                proof {
                    reveal_strlit("\"update\":\"");
                    assert("\"update\":\""@ =~= head_update());
                }
                out.append("\"update\":\"");
                escape_into(&mut out, t.as_str());
                push_char(&mut out, '"');
                push_char(&mut out, ',');
                assert(out@ =~= seq!['{'] + app_part + update_part);
            },
            None => {
                assert(out@ =~= seq!['{'] + app_part + update_part);
            },
        }
        proof {
            reveal_strlit("\"phase\":\"");
            assert("\"phase\":\""@ =~= head_phase());
        }
        out.append("\"phase\":\"");
        assert(out@ =~= seq!['{'] + app_part + update_part + head_phase());
        let phase_name = self.phase.to_string();
        escape_into(&mut out, phase_name.as_str());
        push_char(&mut out, '"');
        push_char(&mut out, '}');
        proof {
            assert(out@ =~= seq!['{'] + app_part + update_part + head_phase() + spec_escape(
                spec_phase_name(self@.phase),
            ) + seq!['"', '}']);
        }
        out
    }
}

/// True when `head` stands at position `i` of `s`.
fn match_head(s: &str, i: usize, head: &str) -> (r: bool)
    requires
        i <= s@.len(),
    ensures
        r == head@.is_prefix_of(s@.skip(i as int)),
{
    let n = s.unicode_len();
    let m = head.unicode_len();
    if n - i < m {
        return false;
    }
    let mut j: usize = 0;
    while j < m
        invariant
            j <= m,
            m == head@.len(),
            n == s@.len(),
            i + m <= n,
            forall|k: int| 0 <= k < j ==> s@[i + k] == head@[k],
        decreases m - j,
    {
        if s.get_char(i + j) != head.get_char(j) {
            assert(s@.skip(i as int).subrange(0, m as int)[j as int] != head@[j as int]);
            return false;
        }
        j += 1;
    }
    assert(head@ =~= s@.skip(i as int).subrange(0, m as int));
    true
}

/// Decodes one two-character escape.
fn unescape_simple(c: char) -> (r: Option<char>)
    ensures
        r == unesc_simple(c),
{
    if c == '"' {
        Some('"')
    } else if c == '\\' {
        Some('\\')
    } else if c == '/' {
        Some('/')
    } else if c == 'b' {
        Some('\u{8}')
    } else if c == 't' {
        Some('\t')
    } else if c == 'n' {
        Some('\n')
    } else if c == 'f' {
        Some('\u{C}')
    } else if c == 'r' {
        Some('\r')
    } else {
        None
    }
}

/// The value of one hex digit character.
fn hex_value(c: char) -> (r: Option<u32>)
    ensures
        match r {
            Some(v) => hex_val(c) == Some(v as int) && v < 16,
            None => hex_val(c) is None,
        },
{
    let code = c as u32;
    if 48 <= code && code <= 57 {
        Some(code - 48)
    } else if 97 <= code && code <= 102 {
        Some(code - 87)
    } else if 65 <= code && code <= 70 {
        Some(code - 55)
    } else {
        None
    }
}

/// A scan result with `prefix` prepended to the decoded text.
pub open spec fn prepend_scan(prefix: Seq<char>, r: Option<(Seq<char>, Seq<char>)>) -> Option<
    (Seq<char>, Seq<char>),
> {
    match r {
        Some(p) => Some((prefix + p.0, p.1)),
        None => None,
    }
}

/// Prepending twice is prepending the concatenation.
proof fn lemma_prepend_scan_assoc(a: Seq<char>, b: Seq<char>, r: Option<(Seq<char>, Seq<char>)>)
    ensures
        prepend_scan(a, prepend_scan(b, r)) == prepend_scan(a + b, r),
{
    match r {
        Some(p) => {
            assert(a + (b + p.0) =~= (a + b) + p.0);
        },
        None => {},
    }
}

/// Reads a JSON string body starting at `i`, returning the decoded text and
/// the position just past the closing quote.
fn scan_string_at(s: &str, i: usize) -> (r: Option<(String, usize)>)
    requires
        i <= s@.len(),
    ensures
        match r {
            Some(p) => i <= p.1 <= s@.len() && scan_jstring(s@.skip(i as int)) == Some(
                (p.0@, s@.skip(p.1 as int)),
            ),
            None => scan_jstring(s@.skip(i as int)) is None,
        },
{
    let n = s.unicode_len();
    let mut out = String::new();
    let mut k: usize = i;
    proof {
        match scan_jstring(s@.skip(i as int)) {
            Some(p) => {
                assert(Seq::<char>::empty() + p.0 =~= p.0);
            },
            None => {},
        }
    }
    while k < n
        invariant
            i <= k <= n,
            n == s@.len(),
            scan_jstring(s@.skip(i as int)) == prepend_scan(out@, scan_jstring(s@.skip(k as int))),
        decreases n - k,
    {
        let ghost tk: Seq<char> = s@.skip(k as int);
        let ghost out0: Seq<char> = out@;
        let ghost k0: usize = k;
        proof {
            assert(tk.len() == n - k);
            assert(tk[0] == s@[k as int]);
            assert(tk.drop_first() =~= s@.skip(k as int + 1));
        }
        let c = s.get_char(k);
        if c == '"' {
            proof {
                assert(scan_jstring(tk) == Some::<(Seq<char>, Seq<char>)>(
                    (Seq::<char>::empty(), s@.skip(k as int + 1)),
                ));
                assert(out@ + Seq::<char>::empty() =~= out@);
            }
            return Some((out, k + 1));
        } else if c == '\\' {
            if k + 1 >= n {
                proof {
                    assert(tk.len() == 1);
                    assert(scan_jstring(tk) is None);
                }
                return None;
            }
            let c2 = s.get_char(k + 1);
            proof {
                assert(tk[1] == s@[k as int + 1]);
            }
            if c2 == 'u' {
                if n - k < 6 {
                    proof {
                        assert(tk.len() < 6);
                        assert(scan_jstring(tk) is None);
                    }
                    return None;
                }
                proof {
                    assert(tk[2] == s@[k as int + 2]);
                    assert(tk[3] == s@[k as int + 3]);
                    assert(tk[4] == s@[k as int + 4]);
                    assert(tk[5] == s@[k as int + 5]);
                    assert(tk.skip(6) =~= s@.skip(k as int + 6));
                }
                let h0 = hex_value(s.get_char(k + 2));
                let h1 = hex_value(s.get_char(k + 3));
                let h2 = hex_value(s.get_char(k + 4));
                let h3 = hex_value(s.get_char(k + 5));
                match (h0, h1, h2, h3) {
                    (Some(a), Some(b), Some(cc), Some(d)) => {
                        let code = a * 4096 + b * 256 + cc * 16 + d;
                        if code >= 32 {
                            proof {
                                assert(scan_jstring(tk) is None);
                            }
                            return None;
                        }
                        let decoded = (code as u8) as char;
                        proof {
                            assert(decoded as int == code as int);
                            assert(decoded == ((code as int) as char));
                            assert(scan_jstring(tk) == prepend_scan(
                                seq![decoded],
                                scan_jstring(s@.skip(k as int + 6)),
                            ));
                        }
                        push_char(&mut out, decoded);
                        k = k + 6;
                        proof {
                            assert(out@ =~= out0 + seq![decoded]);
                            lemma_prepend_scan_assoc(
                                out0,
                                seq![decoded],
                                scan_jstring(s@.skip(k as int)),
                            );
                        }
                    },
                    _ => {
                        proof {
                            assert(scan_jstring(tk) is None);
                        }
                        return None;
                    },
                }
            } else {
                match unescape_simple(c2) {
                    Some(d) => {
                        proof {
                            assert(tk.skip(2) =~= s@.skip(k as int + 2));
                            assert(scan_jstring(tk) == prepend_scan(
                                seq![d],
                                scan_jstring(s@.skip(k as int + 2)),
                            ));
                        }
                        push_char(&mut out, d);
                        k = k + 2;
                        proof {
                            assert(out@ =~= out0 + seq![d]);
                            lemma_prepend_scan_assoc(out0, seq![d], scan_jstring(s@.skip(k as int)));
                        }
                    },
                    None => {
                        proof {
                            assert(scan_jstring(tk) is None);
                        }
                        return None;
                    },
                }
            }
        } else {
            proof {
                assert(scan_jstring(tk) == prepend_scan(
                    seq![s@[k as int]],
                    scan_jstring(s@.skip(k as int + 1)),
                ));
            }
            push_char(&mut out, c);
            k = k + 1;
            proof {
                assert(out@ =~= out0 + seq![s@[k0 as int]]);
                lemma_prepend_scan_assoc(out0, seq![s@[k0 as int]], scan_jstring(s@.skip(k as int)));
            }
        }
    }
    proof {
        assert(s@.skip(n as int).len() == 0);
        assert(scan_jstring(s@.skip(k as int)) is None);
    }
    None
}

/// The phase whose wire name this is.
fn phase_of_name(name: &str) -> (r: Option<UpdatePhase>)
    ensures
        r == spec_phase_of_name(name@),
{
    if eq_str(name, "no-update") {
        Some(UpdatePhase::NoUpdate)
    } else if eq_str(name, "prepare") {
        Some(UpdatePhase::Prepare)
    } else if eq_str(name, "replace") {
        Some(UpdatePhase::Replace)
    } else if eq_str(name, "cleanup") {
        Some(UpdatePhase::Cleanup)
    } else {
        None
    }
}

/// The failure reported for a record that does not read back.
fn corrupt_record_error() -> (r: Error)
    ensures
        r is Internal,
{
    Error::Internal { message: "the persisted update record is not readable".to_owned() }
}

impl UpdateState {
    /// Reads a record written by `to_json`; any other shape is corruption,
    /// fatal to the update flow only.
    #[verifier::rlimit(80)]
    pub fn from_json(s: &str) -> (r: Result<UpdateState, Error>)
        ensures
            match spec_parse_state(s@) {
                Some(v) => r matches Ok(st) && st@ == v,
                None => r is Err && r->Err_0 is Internal,
            },
    {
        let n = s.unicode_len();
        if n == 0 || s.get_char(0) != '{' {
            return Err(corrupt_record_error());
        }
        let ghost t1: Seq<char> = s@.skip(1);
        let mut cursor: usize = 1;
        proof {
            reveal_strlit("\"app\":\"");
            assert("\"app\":\""@ =~= head_app());
            reveal_strlit("\"update\":\"");
            assert("\"update\":\""@ =~= head_update());
            reveal_strlit("\"phase\":\"");
            assert("\"phase\":\""@ =~= head_phase());
        }
        let mut target: Option<String> = None;
        if match_head(s, cursor, "\"app\":\"") {
            proof {
                assert(s@.skip(1).skip(head_app().len() as int) =~= s@.skip(
                    1 + head_app().len() as int,
                ));
            }
            match scan_string_at(s, cursor + 7) {
                Some((value, j)) => {
                    if j < n && s.get_char(j) == ',' {
                        proof {
                            assert(s@.skip(j as int)[0] == s@[j as int]);
                            assert(s@.skip(j as int).drop_first() =~= s@.skip(j as int + 1));
                        }
                        target = Some(value);
                        cursor = j + 1;
                    } else {
                        proof {
                            if j < n {
                                assert(s@.skip(j as int)[0] == s@[j as int]);
                            } else {
                                assert(s@.skip(j as int).len() == 0);
                            }
                        }
                        return Err(corrupt_record_error());
                    }
                },
                None => {
                    return Err(corrupt_record_error());
                },
            }
        }
        let ghost after_app: Seq<char> = s@.skip(cursor as int);
        proof {
            match parse_field(t1, head_app()) {
                Some(p) => {
                    assert(p.1 == after_app);
                    assert(p.0 == match target {
                        Some(v) => Some(v@),
                        None => None::<Seq<char>>,
                    });
                },
                None => {
                    assert(false);
                },
            }
        }
        let mut temporary: Option<String> = None;
        if match_head(s, cursor, "\"update\":\"") {
            proof {
                assert(after_app.skip(head_update().len() as int) =~= s@.skip(
                    cursor as int + head_update().len(),
                ));
            }
            match scan_string_at(s, cursor + 10) {
                Some((value, j)) => {
                    if j < n && s.get_char(j) == ',' {
                        proof {
                            assert(s@.skip(j as int)[0] == s@[j as int]);
                            assert(s@.skip(j as int).drop_first() =~= s@.skip(j as int + 1));
                        }
                        temporary = Some(value);
                        cursor = j + 1;
                    } else {
                        proof {
                            if j < n {
                                assert(s@.skip(j as int)[0] == s@[j as int]);
                            } else {
                                assert(s@.skip(j as int).len() == 0);
                            }
                        }
                        return Err(corrupt_record_error());
                    }
                },
                None => {
                    return Err(corrupt_record_error());
                },
            }
        }
        let ghost after_update: Seq<char> = s@.skip(cursor as int);
        proof {
            match parse_field(after_app, head_update()) {
                Some(p) => {
                    assert(p.1 == after_update);
                    assert(p.0 == match temporary {
                        Some(v) => Some(v@),
                        None => None::<Seq<char>>,
                    });
                },
                None => {
                    assert(false);
                },
            }
        }
        if !match_head(s, cursor, "\"phase\":\"") {
            return Err(corrupt_record_error());
        }
        proof {
            assert(after_update.skip(head_phase().len() as int) =~= s@.skip(
                cursor as int + head_phase().len(),
            ));
        }
        match scan_string_at(s, cursor + 9) {
            Some((name, j)) => {
                if j == n - 1 && s.get_char(j) == '}' {
                    proof {
                        assert(s@.skip(j as int).len() == 1);
                        assert(s@.skip(j as int)[0] == s@[j as int]);
                    }
                    match phase_of_name(name.as_str()) {
                        Some(phase) => Ok(
                            UpdateState {
                                target_application: target,
                                temporary_application: temporary,
                                phase,
                            },
                        ),
                        None => Err(corrupt_record_error()),
                    }
                } else {
                    proof {
                        assert(s@.skip(j as int).len() == n - j);
                        if j < n {
                            assert(s@.skip(j as int)[0] == s@[j as int]);
                        }
                    }
                    Err(corrupt_record_error())
                }
            },
            None => Err(corrupt_record_error()),
        }
    }
}

/// A present field reads back as its content and leaves the rest untouched.
proof fn lemma_parse_field_present(content: Seq<char>, head: Seq<char>, rest: Seq<char>)
    requires
        head.len() > 0,
    ensures
        parse_field(head + spec_escape(content) + seq!['"', ','] + rest, head) == Some(
            (Some(content), rest),
        ),
{
    let t = head + spec_escape(content) + seq!['"', ','] + rest;
    assert(head.is_prefix_of(t)) by {
        assert(t.subrange(0, head.len() as int) =~= head);
    }
    assert(t.skip(head.len() as int) =~= spec_escape(content) + seq!['"'] + (seq![','] + rest));
    lemma_scan_escape(content, seq![','] + rest);
    assert((seq![','] + rest)[0] == ',');
    assert((seq![','] + rest).drop_first() =~= rest);
}

/// Text that differs from a head in its second character holds no such field.
proof fn lemma_parse_field_absent(t: Seq<char>, head: Seq<char>)
    requires
        head.len() >= 2,
        t.len() >= 2,
        t[1] != head[1],
    ensures
        parse_field(t, head) == Some((None::<Seq<char>>, t)),
{
    assert(!head.is_prefix_of(t));
}

/// Each phase's wire name reads back as that phase: the four names are
/// distinct.
proof fn lemma_phase_name_parses(p: UpdatePhase)
    ensures
        spec_phase_of_name(spec_phase_name(p)) == Some(p),
{
    reveal_strlit("no-update");
    reveal_strlit("prepare");
    reveal_strlit("replace");
    reveal_strlit("cleanup");
    match p {
        UpdatePhase::NoUpdate => {},
        UpdatePhase::Prepare => {
            assert(spec_phase_name(UpdatePhase::Prepare).len() == 7);
        },
        UpdatePhase::Replace => {
            assert(spec_phase_name(UpdatePhase::Replace)[0] == 'r');
            assert(spec_phase_name(UpdatePhase::Replace) != spec_phase_name(UpdatePhase::NoUpdate));
            assert(spec_phase_name(UpdatePhase::Replace) != spec_phase_name(UpdatePhase::Prepare));
        },
        UpdatePhase::Cleanup => {
            assert(spec_phase_name(UpdatePhase::Cleanup)[0] == 'c');
            assert(spec_phase_name(UpdatePhase::Cleanup) != spec_phase_name(UpdatePhase::NoUpdate));
            assert(spec_phase_name(UpdatePhase::Cleanup) != spec_phase_name(UpdatePhase::Prepare));
            assert(spec_phase_name(UpdatePhase::Cleanup) != spec_phase_name(UpdatePhase::Replace));
        },
    }
}

/// Writing a record and reading it back yields the record unchanged, whatever
/// the paths hold and whichever phase it is in.
#[verifier::rlimit(60)]
pub proof fn lemma_state_json_round_trip(v: StateView)
    ensures
        spec_parse_state(spec_state_json(v)) == Some(v),
{
    let t = spec_state_json(v);
    let app_part: Seq<char> = match v.target {
        Some(p) => head_app() + spec_escape(p) + seq!['"', ','],
        None => Seq::<char>::empty(),
    };
    let update_part: Seq<char> = match v.temporary {
        Some(p) => head_update() + spec_escape(p) + seq!['"', ','],
        None => Seq::<char>::empty(),
    };
    let phase_part: Seq<char> = head_phase() + spec_escape(spec_phase_name(v.phase)) + seq![
        '"',
        '}',
    ];
    assert(t =~= seq!['{'] + app_part + update_part + phase_part);
    assert(t[0] == '{');
    let t1 = t.drop_first();
    assert(t1 =~= app_part + update_part + phase_part);
    let t2 = update_part + phase_part;
    match v.target {
        Some(p) => {
            lemma_parse_field_present(p, head_app(), t2);
            assert(t1 =~= head_app() + spec_escape(p) + seq!['"', ','] + t2);
        },
        None => {
            assert(t1 =~= t2);
            assert(t2.len() >= 2 && head_app().len() >= 2);
            match v.temporary {
                Some(_) => {
                    assert(t2[1] == 'u');
                },
                None => {
                    assert(t2 =~= phase_part);
                    assert(t2[1] == 'p');
                },
            }
            lemma_parse_field_absent(t1, head_app());
        },
    }
    assert(parse_field(t1, head_app()) == Some((v.target, t2)));
    match v.temporary {
        Some(p) => {
            lemma_parse_field_present(p, head_update(), phase_part);
            assert(t2 =~= head_update() + spec_escape(p) + seq!['"', ','] + phase_part);
        },
        None => {
            assert(t2 =~= phase_part);
            assert(t2[1] == 'p');
            lemma_parse_field_absent(t2, head_update());
        },
    }
    assert(parse_field(t2, head_update()) == Some((v.temporary, phase_part)));
    assert(head_phase().is_prefix_of(phase_part)) by {
        assert(phase_part.subrange(0, 9) =~= head_phase());
    }
    assert(phase_part.skip(9) =~= spec_escape(spec_phase_name(v.phase)) + seq!['"'] + seq!['}']);
    lemma_scan_escape(spec_phase_name(v.phase), seq!['}']);
    lemma_phase_name_parses(v.phase);
    assert(spec_parse_state(t) == Some(v));
}

} // verus!
