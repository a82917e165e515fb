//! The text encodings the library owns: JSON framing for the persisted
//! token record, the credential-exchange request body, and the
//! credential-exchange response.
//!
//! The encoder and the parser are both pinned to the same spec-level
//! grammar, so that writing a record and reading it back is provably the
//! identity, and anything the parser accepts is provably a well-formed
//! encoding.

use vstd::prelude::*;
use vstd::string::*;

use crate::numeral::{
    all_digits, dec_rep, digit_val, digits_val, is_digit_char, lemma_canonical_digits,
    lemma_dec_rep_digits, parse_digits, u64_to_string,
};

verus! {

broadcast use vstd::utf8::char_is_scalar, vstd::utf8::char_u32_cast;

/// Relies on char::from_u32: yields the character with the given code
/// point, or nothing when the code is a surrogate or out of range.
pub assume_specification[ char::from_u32 ](v: u32) -> (r: Option<char>)
    ensures
        match r {
            Some(c) => c == v as char && (v < 0xD800 || (0xE000 <= v && v <= 0x10FFFF)),
            None => !(v < 0xD800 || (0xE000 <= v && v <= 0x10FFFF)),
        },
;

/// The hexadecimal digit character for a value below sixteen.
pub open spec fn hex_digit(d: int) -> char {
    if d < 10 {
        crate::numeral::dec_digit(d)
    } else if d == 10 {
        'a'
    } else if d == 11 {
        'b'
    } else if d == 12 {
        'c'
    } else if d == 13 {
        'd'
    } else if d == 14 {
        'e'
    } else {
        'f'
    }
}

/// True of lower-case hexadecimal digit characters.
pub open spec fn is_hex_char(c: char) -> bool {
    is_digit_char(c) || ('a' <= c && c <= 'f')
}

/// The value of a lower-case hexadecimal digit character.
pub open spec fn hex_val(c: char) -> nat {
    if is_digit_char(c) {
        digit_val(c)
    } else {
        (c as int - 'a' as int + 10) as nat
    }
}

/// The control character written as `\u00..` with the two given digits.
pub open spec fn ctrl_char(hi: char, lo: char) -> char {
    (hex_val(hi) * 16 + hex_val(lo)) as char
}

/// How one character is written inside a JSON string: quote and backslash
/// get a two-character escape, control characters a `\u00..` escape, and
/// everything else stands for itself.
pub open spec fn esc_char(c: char) -> Seq<char> {
    if c == '"' {
        seq!['\\', '"']
    } else if c == '\\' {
        seq!['\\', '\\']
    } else if (c as int) < 32 {
        seq!['\\', 'u', '0', '0', hex_digit(c as int / 16), hex_digit(c as int % 16)]
    } else {
        seq![c]
    }
}

/// How a whole string is written inside a JSON string.
pub open spec fn escape_spec(s: Seq<char>) -> Seq<char>
    decreases s.len(),
{
    if s.len() == 0 {
        Seq::empty()
    } else {
        esc_char(s[0]) + escape_spec(s.skip(1))
    }
}

/// Prefixes a character onto the decoded part of an unescape outcome.
pub open spec fn prepend(c: char, o: Option<(Seq<char>, Seq<char>)>) -> Option<
    (Seq<char>, Seq<char>),
> {
    match o {
        Some((t, r)) => Some((seq![c] + t, r)),
        None => None,
    }
}

/// Reads an escaped JSON string up to and including its closing quote,
/// yielding the decoded text and what follows the quote; `None` on any
/// text that the escape writer of this module would not produce.
pub open spec fn unesc(s: Seq<char>) -> Option<(Seq<char>, Seq<char>)>
    decreases s.len(),
{
    if s.len() == 0 {
        None
    } else if s[0] == '"' {
        Some((Seq::empty(), s.skip(1)))
    } else if s[0] == '\\' {
        if s.len() >= 2 && s[1] == '"' {
            prepend('"', unesc(s.skip(2)))
        } else if s.len() >= 2 && s[1] == '\\' {
            prepend('\\', unesc(s.skip(2)))
        } else if s.len() >= 6 && s[1] == 'u' && s[2] == '0' && s[3] == '0' && (s[4] == '0' || s[4]
            == '1') && is_hex_char(s[5]) {
            if (ctrl_char(s[4], s[5]) as int) < 32 {
                prepend(ctrl_char(s[4], s[5]), unesc(s.skip(6)))
            } else {
                None
            }
        } else {
            None
        }
    } else if (s[0] as int) < 32 {
        None
    } else {
        prepend(s[0], unesc(s.skip(1)))
    }
}

/// Every character's code point lies in the Unicode scalar range.
pub proof fn lemma_char_bounds(c: char)
    ensures
        0 <= c as int <= 0x10FFFF,
        c as int == c as u32 as int,
{
    assert(c as int == c as u32 as int);
    assert(c as u32 <= 0x10FFFF);
}

/// A hexadecimal digit character survives the value/digit round trip.
pub proof fn lemma_hex_roundtrip(c: char)
    requires
        is_hex_char(c),
    ensures
        hex_digit(hex_val(c) as int) == c,
        hex_val(c) < 16,
{
}

/// A value below sixteen survives the digit/value round trip.
pub proof fn lemma_hex_digit_val(d: int)
    requires
        0 <= d < 16,
    ensures
        is_hex_char(hex_digit(d)),
        hex_val(hex_digit(d)) == d,
{
}

/// Unescaping an escaped string finds exactly the string that was
/// escaped and leaves exactly what followed the closing quote.
pub proof fn lemma_unesc_escape(t: Seq<char>, rest: Seq<char>)
    ensures
        unesc(escape_spec(t) + seq!['"'] + rest) == Some((t, rest)),
    decreases t.len(),
{
    let s = escape_spec(t) + seq!['"'] + rest;
    if t.len() == 0 {
        assert(s =~= seq!['"'] + rest);
        assert(s[0] == '"');
        assert(s.skip(1) =~= rest);
    } else {
        let c = t[0];
        let e = esc_char(c);
        let tail = escape_spec(t.skip(1)) + seq!['"'] + rest;
        assert(s =~= e + tail);
        lemma_unesc_escape(t.skip(1), rest);
        if c == '"' {
            assert(s[0] == '\\' && s[1] == '"');
            assert(s.skip(2) =~= tail);
            assert(seq![c] + t.skip(1) =~= t);
        } else if c == '\\' {
            assert(s[0] == '\\' && s[1] == '\\');
            assert(s.skip(2) =~= tail);
            assert(seq![c] + t.skip(1) =~= t);
        } else if (c as int) < 32 {
            lemma_char_bounds(c);
            let hi = hex_digit(c as int / 16);
            let lo = hex_digit(c as int % 16);
            assert(s[0] == '\\' && s[1] == 'u' && s[2] == '0' && s[3] == '0' && s[4] == hi && s[5]
                == lo);
            lemma_hex_digit_val(c as int / 16);
            lemma_hex_digit_val(c as int % 16);
            assert(c as int / 16 < 2);
            assert(hi == '0' || hi == '1');
            assert(hex_val(hi) * 16 + hex_val(lo) == c as int);
            assert(ctrl_char(hi, lo) == c);
            assert(s.skip(6) =~= tail);
            assert(seq![c] + t.skip(1) =~= t);
        } else {
            assert(s[0] == c);
            assert(s.skip(1) =~= tail);
            assert(seq![c] + t.skip(1) =~= t);
        }
    }
}

/// Whatever unescaping accepts was exactly the escape of its result,
/// followed by the closing quote and the leftover.
pub proof fn lemma_unesc_sound(s: Seq<char>)
    requires
        unesc(s) is Some,
    ensures
        s == escape_spec(unesc(s)->Some_0.0) + seq!['"'] + unesc(s)->Some_0.1,
    decreases s.len(),
{
    let (t, r) = unesc(s)->Some_0;
    if s[0] == '"' {
        assert(s =~= escape_spec(Seq::empty()) + seq!['"'] + s.skip(1));
    } else if s[0] == '\\' {
        if s.len() >= 2 && (s[1] == '"' || s[1] == '\\') {
            lemma_unesc_sound(s.skip(2));
            let (t2, r2) = unesc(s.skip(2))->Some_0;
            assert(t =~= seq![s[1]] + t2);
            assert(t[0] == s[1]);
            assert(t.skip(1) =~= t2);
            assert(esc_char(s[1]) =~= seq!['\\', s[1]]);
            assert(escape_spec(t) =~= esc_char(s[1]) + escape_spec(t2));
            assert(s =~= seq!['\\', s[1]] + s.skip(2));
            assert(s =~= escape_spec(t) + seq!['"'] + r);
        } else {
            let c = ctrl_char(s[4], s[5]);
            lemma_unesc_sound(s.skip(6));
            let (t2, r2) = unesc(s.skip(6))->Some_0;
            assert(t =~= seq![c] + t2);
            assert(t.skip(1) =~= t2);
            lemma_hex_roundtrip(s[5]);
            assert(hex_val(s[4]) == 0 || hex_val(s[4]) == 1);
            assert(c as int == hex_val(s[4]) * 16 + hex_val(s[5]));
            assert(c as int / 16 == hex_val(s[4]) && c as int % 16 == hex_val(s[5]))
                by (nonlinear_arith)
                requires
                    c as int == hex_val(s[4]) * 16 + hex_val(s[5]),
                    hex_val(s[4]) < 16,
                    hex_val(s[5]) < 16,
            ;
            assert(hex_digit(c as int / 16) == s[4]) by {
                if hex_val(s[4]) == 0 {
                    assert(s[4] == '0');
                } else {
                    assert(s[4] == '1');
                }
            }
            assert(esc_char(c) =~= seq!['\\', 'u', '0', '0', s[4], s[5]]);
            assert(escape_spec(t) =~= esc_char(c) + escape_spec(t2));
            assert(s =~= seq!['\\', 'u', '0', '0', s[4], s[5]] + s.skip(6));
            assert(s =~= escape_spec(t) + seq!['"'] + r);
        }
    } else {
        lemma_unesc_sound(s.skip(1));
        let (t2, r2) = unesc(s.skip(1))->Some_0;
        assert(t =~= seq![s[0]] + t2);
        assert(t.skip(1) =~= t2);
        assert(esc_char(s[0]) =~= seq![s[0]]);
        assert(escape_spec(t) =~= esc_char(s[0]) + escape_spec(t2));
        assert(s =~= seq![s[0]] + s.skip(1));
        assert(s =~= escape_spec(t) + seq!['"'] + r);
    }
}

/// The hexadecimal digit character for a value below sixteen, as runtime
/// code.
fn hex_digit_exec(d: u32) -> (c: char)
    requires
        d < 16,
    ensures
        c == hex_digit(d as int),
{
    if d < 10 {
        crate::numeral::dec_digit_exec(d as u64)
    } else if d == 10 {
        'a'
    } else if d == 11 {
        'b'
    } else if d == 12 {
        'c'
    } else if d == 13 {
        'd'
    } else if d == 14 {
        'e'
    } else {
        'f'
    }
}

/// Appends the escape of one character.
fn push_escaped(out: &mut String, c: char)
    ensures
        final(out)@ == old(out)@ + esc_char(c),
{
    if c == '"' {
        out.push('\\');
        out.push('"');
        assert(final(out)@ =~= old(out)@ + esc_char(c));
    } else if c == '\\' {
        out.push('\\');
        out.push('\\');
        assert(final(out)@ =~= old(out)@ + esc_char(c));
    } else {
        let v = c as u32;
        if v < 32 {
            out.push('\\');
            out.push('u');
            out.push('0');
            out.push('0');
            out.push(hex_digit_exec(v / 16));
            out.push(hex_digit_exec(v % 16));
            assert(final(out)@ =~= old(out)@ + esc_char(c));
        } else {
            out.push(c);
            assert(final(out)@ =~= old(out)@ + esc_char(c));
        }
    }
}

/// The escape of the suffix of `s` that starts at `i`.
fn escape_from(s: &str, i: usize) -> (r: String)
    requires
        i <= s@.len(),
    ensures
        r@ == escape_spec(s@.skip(i as int)),
    decreases s@.len() - i,
{
    if i == s.unicode_len() {
        let r = String::new();
        assert(s@.skip(i as int) =~= Seq::<char>::empty());
        r
    } else {
        let c = s.get_char(i);
        let mut out = String::new();
        push_escaped(&mut out, c);
        let rest = escape_from(s, i + 1);
        out.append(rest.as_str());
        proof {
            let su = s@.skip(i as int);
            assert(su[0] == c);
            assert(su.skip(1) =~= s@.skip(i + 1));
            assert(out@ =~= escape_spec(su));
        }
        out
    }
}

/// Writes `s` as it appears inside a JSON string.
pub fn escape_str(s: &str) -> (r: String)
    ensures
        r@ == escape_spec(s@),
{
    let r = escape_from(s, 0);
    assert(s@.skip(0) =~= s@);
    r
}

/// True when `pat` occurs in `s` starting at position `at`.
pub fn starts_with_at(s: &str, at: usize, pat: &str) -> (r: bool)
    requires
        at <= s@.len(),
    ensures
        r == (at + pat@.len() <= s@.len() && s@.subrange(at as int, at + pat@.len()) == pat@),
{
    let slen = s.unicode_len();
    let plen = pat.unicode_len();
    if plen > slen - at {
        return false;
    }
    let mut j: usize = 0;
    while j < plen
        invariant
            at + plen <= slen,
            slen == s@.len(),
            plen == pat@.len(),
            j <= plen,
            forall|k: int| 0 <= k < j ==> s@[at + k] == pat@[k],
        decreases plen - j,
    {
        if s.get_char(at + j) != pat.get_char(j) {
            proof {
                let sub = s@.subrange(at as int, at + pat@.len());
                assert(sub[j as int] == s@[at + j]);
            }
            return false;
        }
        j += 1;
    }
    proof {
        assert(s@.subrange(at as int, at + pat@.len()) =~= pat@);
    }
    true
}

/// Reads the escaped JSON string of `s` that starts at `from`, mirroring
/// the spec-level unescape exactly: the decoded text and the position
/// just past the closing quote.
pub fn parse_jstring(s: &str, from: usize) -> (r: Option<(String, usize)>)
    requires
        from <= s@.len(),
    ensures
        ({
            let u = unesc(s@.skip(from as int));
            match r {
                Some(p) => u is Some && p.0@ == u->Some_0.0 && from <= p.1 <= s@.len() && s@.skip(
                    p.1 as int,
                ) == u->Some_0.1,
                None => u is None,
            }
        }),
    decreases s@.len() - from,
{
    let len = s.unicode_len();
    let ghost su = s@.skip(from as int);
    if from == len {
        assert(su =~= Seq::<char>::empty());
        return None;
    }
    let c = s.get_char(from);
    assert(su[0] == c);
    if c == '"' {
        assert(s@.skip(from + 1) =~= su.skip(1));
        Some((String::new(), from + 1))
    } else if c == '\\' {
        if from + 1 == len {
            assert(su.len() == 1);
            return None;
        }
        let c2 = s.get_char(from + 1);
        assert(su[1] == c2);
        if c2 == '"' || c2 == '\\' {
            assert(s@.skip(from + 2) =~= su.skip(2));
            match parse_jstring(s, from + 2) {
                None => None,
                Some((t, end)) => {
                    let mut out = String::new();
                    out.push(c2);
                    out.append(t.as_str());
                    assert(out@ =~= seq![c2] + t@);
                    Some((out, end))
                },
            }
        } else if c2 == 'u' {
            if len - from < 6 {
                assert(su.len() < 6);
                return None;
            }
            let c3 = s.get_char(from + 2);
            let c4 = s.get_char(from + 3);
            let c5 = s.get_char(from + 4);
            let c6 = s.get_char(from + 5);
            assert(su[2] == c3 && su[3] == c4 && su[4] == c5 && su[5] == c6);
            if c3 != '0' || c4 != '0' {
                return None;
            }
            if !(c5 == '0' || c5 == '1') {
                return None;
            }
            let v6 = c6 as u32;
            let lo: u32 = if v6 >= 48 && v6 <= 57 {
                v6 - 48
            } else if v6 >= 97 && v6 <= 102 {
                v6 - 97 + 10
            } else {
                return None;
            };
            assert(is_hex_char(c6) && lo == hex_val(c6));
            let hi: u32 = if c5 == '1' {
                1
            } else {
                0
            };
            assert(hi == hex_val(c5));
            let code = hi * 16 + lo;
            assert(code as int == hex_val(c5) * 16 + hex_val(c6));
            let ch = char::from_u32(code).unwrap();
            assert(ch == ctrl_char(c5, c6));
            assert(s@.skip(from + 6) =~= su.skip(6));
            match parse_jstring(s, from + 6) {
                None => None,
                Some((t, end)) => {
                    let mut out = String::new();
                    out.push(ch);
                    out.append(t.as_str());
                    assert(out@ =~= seq![ch] + t@);
                    Some((out, end))
                },
            }
        } else {
            None
        }
    } else {
        let v = c as u32;
        if v < 32 {
            None
        } else {
            assert(s@.skip(from + 1) =~= su.skip(1));
            match parse_jstring(s, from + 1) {
                None => None,
                Some((t, end)) => {
                    let mut out = String::new();
                    out.push(c);
                    out.append(t.as_str());
                    assert(out@ =~= seq![c] + t@);
                    Some((out, end))
                },
            }
        }
    }
}

/// The opening of every object this library writes: `{"token":"`.
pub open spec fn obj_pre() -> Seq<char> {
    seq!['{', '"', 't', 'o', 'k', 'e', 'n', '"', ':', '"']
}

/// What separates the token from the expiry: `,"expires_at":`.
pub open spec fn obj_mid() -> Seq<char> {
    seq![',', '"', 'e', 'x', 'p', 'i', 'r', 'e', 's', '_', 'a', 't', '"', ':']
}

/// The JSON `null` keyword.
pub open spec fn null_lit() -> Seq<char> {
    seq!['n', 'u', 'l', 'l']
}

/// The persisted encoding of a token record: a JSON object holding the
/// escaped token and either a decimal epoch-seconds expiry or `null`.
pub open spec fn token_rec_enc(token: Seq<char>, expires_at: Option<u64>) -> Seq<char> {
    obj_pre() + escape_spec(token) + seq!['"'] + obj_mid() + (match expires_at {
        Some(e) => dec_rep(e as nat),
        None => null_lit(),
    }) + seq!['}']
}

/// What reading a persisted token record yields: the token and the expiry
/// on a canonical encoding, nothing on anything else.
pub open spec fn token_rec_dec(s: Seq<char>) -> Option<(Seq<char>, Option<u64>)> {
    if s.len() >= 10 && s.take(10) == obj_pre() {
        match unesc(s.skip(10)) {
            Some((tok, rest)) => {
                if rest.len() >= 15 && rest.take(14) == obj_mid() {
                    let tail = rest.skip(14);
                    if tail == null_lit().push('}') {
                        Some((tok, None))
                    } else if tail.len() >= 2 && tail.last() == '}' && all_digits(tail.drop_last())
                        && (tail.len() > 2 ==> tail[0] != '0') && digits_val(tail.drop_last())
                        <= u64::MAX {
                        Some((tok, Some(digits_val(tail.drop_last()) as u64)))
                    } else {
                        None
                    }
                } else {
                    None
                }
            },
            None => None,
        }
    } else {
        None
    }
}

/// Reading back a written token record finds exactly the written token
/// and expiry.
pub proof fn lemma_token_roundtrip(token: Seq<char>, expires_at: Option<u64>)
    ensures
        token_rec_dec(token_rec_enc(token, expires_at)) == Some((token, expires_at)),
{
    let s = token_rec_enc(token, expires_at);
    let num = match expires_at {
        Some(e) => dec_rep(e as nat),
        None => null_lit(),
    };
    if expires_at is Some {
        lemma_dec_rep_digits(expires_at->0 as nat);
    }
    assert(s.take(10) =~= obj_pre());
    let after = obj_mid() + num + seq!['}'];
    assert(s.skip(10) =~= escape_spec(token) + seq!['"'] + after);
    lemma_unesc_escape(token, after);
    assert(after.take(14) =~= obj_mid());
    let tail = after.skip(14);
    assert(tail =~= num + seq!['}']);
    match expires_at {
        None => {
            assert(tail =~= null_lit().push('}'));
        },
        Some(e) => {
            assert(tail[0] == dec_rep(e as nat)[0]);
            assert(is_digit_char(tail[0]));
            assert(tail != null_lit().push('}')) by {
                if tail == null_lit().push('}') {
                    assert(tail[0] == 'n');
                }
            }
            assert(tail.last() == '}');
            assert(tail.drop_last() =~= dec_rep(e as nat));
            assert(token_rec_dec(s) == Some((token, Some(e))));
        },
    }
}

/// Whatever reading accepts was exactly the canonical encoding of what it
/// yields.
pub proof fn lemma_token_dec_sound(s: Seq<char>)
    requires
        token_rec_dec(s) is Some,
    ensures
        s == token_rec_enc(token_rec_dec(s)->Some_0.0, token_rec_dec(s)->Some_0.1),
{
    let (tok, exp) = token_rec_dec(s)->Some_0;
    lemma_unesc_sound(s.skip(10));
    let rest = unesc(s.skip(10))->Some_0.1;
    let tail = rest.skip(14);
    assert(rest =~= rest.take(14) + tail);
    assert(s =~= s.take(10) + s.skip(10));
    if tail == null_lit().push('}') {
        assert(s =~= token_rec_enc(tok, None));
    } else {
        let d = tail.drop_last();
        lemma_canonical_digits(d);
        assert(dec_rep(exp->0 as nat) == d);
        assert(tail =~= d + seq!['}']);
        assert(s =~= token_rec_enc(tok, exp));
    }
}

/// Writes the persisted encoding of a token record.
pub fn encode_token_record(token: &str, expires_at: Option<u64>) -> (r: String)
    ensures
        r@ == token_rec_enc(token@, expires_at),
{
    let mut out = String::new();
    out.append("{\"token\":\"");
    proof {
        reveal_strlit("{\"token\":\"");
        assert("{\"token\":\""@ =~= obj_pre());
    }
    let esc = escape_str(token);
    out.append(esc.as_str());
    out.append("\",\"expires_at\":");
    proof {
        reveal_strlit("\",\"expires_at\":");
        assert("\",\"expires_at\":"@ =~= seq!['"'] + obj_mid());
    }
    match expires_at {
        Some(e) => {
            let num = u64_to_string(e);
            out.append(num.as_str());
        },
        None => {
            out.append("null");
            proof {
                reveal_strlit("null");
                assert("null"@ =~= null_lit());
            }
        },
    }
    out.append("}");
    proof {
        reveal_strlit("}");
        assert("}"@ =~= seq!['}']);
        assert(out@ =~= token_rec_enc(token@, expires_at));
    }
    out
}

/// Reads a persisted token record, mirroring the spec-level reading
/// exactly.
pub fn decode_token_record(s: &str) -> (r: Option<(String, Option<u64>)>)
    ensures
        ({
            let d = token_rec_dec(s@);
            match r {
                Some(p) => d is Some && p.0@ == d->Some_0.0 && p.1 == d->Some_0.1,
                None => d is None,
            }
        }),
{
    proof {
        reveal_strlit("{\"token\":\"");
        assert("{\"token\":\""@ =~= obj_pre());
        reveal_strlit(",\"expires_at\":");
        assert(",\"expires_at\":"@ =~= obj_mid());
    }
    let len = s.unicode_len();
    if !starts_with_at(s, 0, "{\"token\":\"") {
        return None;
    }
    assert(s@.take(10) =~= s@.subrange(0, 10));
    let (tok, end) = match parse_jstring(s, 10) {
        None => {
            return None;
        },
        Some(p) => p,
    };
    let ghost rest = unesc(s@.skip(10))->Some_0.1;
    assert(rest == s@.skip(end as int));
    if !starts_with_at(s, end, ",\"expires_at\":") {
        proof {
            if rest.len() >= 15 && rest.take(14) == obj_mid() {
                assert(rest.take(14) =~= s@.subrange(end as int, end + 14));
            }
        }
        return None;
    }
    assert(rest.take(14) =~= s@.subrange(end as int, end + 14));
    let pos = end + 14;
    let ghost tail = rest.skip(14);
    assert(tail =~= s@.skip(pos as int));
    assert(pos <= len);
    if len - pos == 5 && starts_with_at(s, pos, "null}") {
        proof {
            reveal_strlit("null}");
            assert("null}"@ =~= null_lit().push('}'));
            assert(tail =~= s@.subrange(pos as int, pos + 5));
        }
        return Some((tok, None));
    }
    proof {
        reveal_strlit("null}");
        assert("null}"@ =~= null_lit().push('}'));
        if tail == null_lit().push('}') {
            assert(tail.len() == 5);
            assert(s@.subrange(pos as int, pos + 5) =~= tail);
        }
    }
    if len - pos < 2 {
        return None;
    }
    if s.get_char(len - 1) != '}' {
        assert(tail.last() == s@[len - 1]);
        return None;
    }
    assert(tail.last() == '}');
    assert(tail.drop_last() =~= s@.subrange(pos as int, len - 1));
    let v = match crate::numeral::parse_digits(s, pos, len - 1, 0) {
        None => {
            return None;
        },
        Some(v) => v,
    };
    if len - 1 - pos > 1 && s.get_char(pos) == '0' {
        assert(tail[0] == '0');
        return None;
    }
    assert(tail.len() > 2 ==> tail[0] != '0') by {
        if tail.len() > 2 {
            assert(tail[0] == s@[pos as int]);
        }
    }
    Some((tok, Some(v)))
}

/// The request body of the credential exchange: a JSON object holding
/// the escaped username and password.
pub open spec fn auth_req_enc(username: Seq<char>, password: Seq<char>) -> Seq<char> {
    seq!['{', '"', 'u', 's', 'e', 'r', 'n', 'a', 'm', 'e', '"', ':', '"'] + escape_spec(username)
        + seq!['"', ',', '"', 'p', 'a', 's', 's', 'w', 'o', 'r', 'd', '"', ':', '"']
        + escape_spec(password) + seq!['"', '}']
}

/// Writes the credential-exchange request body.
pub fn encode_auth_request(username: &str, password: &str) -> (r: String)
    ensures
        r@ == auth_req_enc(username@, password@),
{
    let mut out = String::new();
    out.append("{\"username\":\"");
    proof {
        reveal_strlit("{\"username\":\"");
        assert("{\"username\":\""@ =~= seq![
            '{', '"', 'u', 's', 'e', 'r', 'n', 'a', 'm', 'e', '"', ':', '"',
        ]);
    }
    let eu = escape_str(username);
    out.append(eu.as_str());
    out.append("\",\"password\":\"");
    proof {
        reveal_strlit("\",\"password\":\"");
        assert("\",\"password\":\""@ =~= seq![
            '"', ',', '"', 'p', 'a', 's', 's', 'w', 'o', 'r', 'd', '"', ':', '"',
        ]);
    }
    let ep = escape_str(password);
    out.append(ep.as_str());
    out.append("\"}");
    proof {
        reveal_strlit("\"}");
        assert("\"}"@ =~= seq!['"', '}']);
        assert(out@ =~= auth_req_enc(username@, password@));
    }
    out
}

/// True of JSON whitespace.
pub open spec fn is_ws(c: char) -> bool {
    c == ' ' || c == '\t' || c == '\n' || c == '\r'
}

/// The first position at or after `i` holding something other than JSON
/// whitespace, or the end of the text.
pub open spec fn skip_ws(s: Seq<char>, i: int) -> int
    decreases s.len() - i,
{
    if 0 <= i < s.len() && is_ws(s[i]) {
        skip_ws(s, i + 1)
    } else {
        i
    }
}

/// The value of a hexadecimal digit character of either case, or nothing.
pub open spec fn hexv(c: char) -> Option<nat> {
    if '0' <= c && c <= '9' {
        Some((c as int - '0' as int) as nat)
    } else if 'a' <= c && c <= 'f' {
        Some((c as int - 'a' as int + 10) as nat)
    } else if 'A' <= c && c <= 'F' {
        Some((c as int - 'A' as int + 10) as nat)
    } else {
        None
    }
}

/// Prefixes a character onto the decoded part of a wire-string outcome.
pub open spec fn wprep(c: char, o: Option<(Seq<char>, int)>) -> Option<(Seq<char>, int)> {
    match o {
        Some((t, j)) => Some((seq![c] + t, j)),
        None => None,
    }
}

/// Reads the body of a JSON string starting just after its opening
/// quote, honouring the standard escapes (`\" \\ \/ \b \f \n \r \t` and
/// `\uXXXX` for any non-surrogate code unit), up to and including the
/// closing quote; yields the decoded text and the position after the
/// quote.
pub open spec fn wstr_body(s: Seq<char>, i: int) -> Option<(Seq<char>, int)>
    decreases s.len() - i,
{
    if !(0 <= i < s.len()) {
        None
    } else if s[i] == '"' {
        Some((Seq::empty(), i + 1))
    } else if s[i] == '\\' {
        if i + 1 < s.len() {
            let c = s[i + 1];
            if c == '"' || c == '\\' || c == '/' {
                wprep(c, wstr_body(s, i + 2))
            } else if c == 'b' {
                wprep('\u{8}', wstr_body(s, i + 2))
            } else if c == 'f' {
                wprep('\u{c}', wstr_body(s, i + 2))
            } else if c == 'n' {
                wprep('\n', wstr_body(s, i + 2))
            } else if c == 'r' {
                wprep('\r', wstr_body(s, i + 2))
            } else if c == 't' {
                wprep('\t', wstr_body(s, i + 2))
            } else if c == 'u' && i + 6 <= s.len() {
                match (hexv(s[i + 2]), hexv(s[i + 3]), hexv(s[i + 4]), hexv(s[i + 5])) {
                    (Some(a), Some(b), Some(x), Some(d)) => {
                        let v = a * 4096 + b * 256 + x * 16 + d;
                        if 0xD800 <= v < 0xE000 {
                            None
                        } else {
                            wprep((v as u32) as char, wstr_body(s, i + 6))
                        }
                    },
                    _ => None,
                }
            } else {
                None
            }
        } else {
            None
        }
    } else if (s[i] as int) < 32 {
        None
    } else {
        wprep(s[i], wstr_body(s, i + 1))
    }
}

/// The characters of the `token` member name.
pub open spec fn token_key() -> Seq<char> {
    seq!['t', 'o', 'k', 'e', 'n']
}

/// The characters of the `expires_at` member name.
pub open spec fn expires_key() -> Seq<char> {
    seq!['e', 'x', 'p', 'i', 'r', 'e', 's', '_', 'a', 't']
}

/// Reads one object member whose value is a JSON string or `null`,
/// starting at the opening quote of its name: the name, the value
/// (nothing for `null`), and the position after the value.
pub open spec fn wire_member(s: Seq<char>, i: int) -> Option<(Seq<char>, Option<Seq<char>>, int)> {
    if 0 <= i < s.len() && s[i] == '"' {
        match wstr_body(s, i + 1) {
            Some((key, j)) => {
                let k = skip_ws(s, j);
                if k < s.len() && s[k] == ':' {
                    let m = skip_ws(s, k + 1);
                    if m < s.len() && s[m] == '"' {
                        match wstr_body(s, m + 1) {
                            Some((v, e)) => Some((key, Some(v), e)),
                            None => None,
                        }
                    } else if m + 4 <= s.len() && s.subrange(m, m + 4) == null_lit() {
                        Some((key, None, m + 4))
                    } else {
                        None
                    }
                } else {
                    None
                }
            },
            None => None,
        }
    } else {
        None
    }
}

/// What reading a credential-exchange response yields: the token and the
/// optional expiry text of a JSON object of the documented shape — a
/// `token` string member and an optional `expires_at` string-or-null
/// member, in either order, with any whitespace between tokens — and
/// nothing on any other text.
pub open spec fn auth_resp_dec(s: Seq<char>) -> Option<(Seq<char>, Option<Seq<char>>)> {
    let i0 = skip_ws(s, 0);
    if i0 < s.len() && s[i0] == '{' {
        let i1 = skip_ws(s, i0 + 1);
        match wire_member(s, i1) {
            Some((k1, v1, e1)) => {
                let p = skip_ws(s, e1);
                if p < s.len() && s[p] == '}' {
                    if k1 == token_key() && v1 is Some && skip_ws(s, p + 1) == s.len() {
                        Some((v1->0, None))
                    } else {
                        None
                    }
                } else if p < s.len() && s[p] == ',' {
                    let q = skip_ws(s, p + 1);
                    match wire_member(s, q) {
                        Some((k2, v2, e2)) => {
                            let r = skip_ws(s, e2);
                            if r < s.len() && s[r] == '}' && skip_ws(s, r + 1) == s.len() {
                                if k1 == token_key() && v1 is Some && k2 == expires_key() {
                                    Some((v1->0, v2))
                                } else if k1 == expires_key() && k2 == token_key() && v2 is Some {
                                    Some((v2->0, v1))
                                } else {
                                    None
                                }
                            } else {
                                None
                            }
                        },
                        None => None,
                    }
                } else {
                    None
                }
            },
            None => None,
        }
    } else {
        None
    }
}

/// The first position at or after `from` holding something other than
/// JSON whitespace, as runtime code.
fn skip_ws_exec(s: &str, from: usize) -> (r: usize)
    requires
        from <= s@.len(),
    ensures
        r == skip_ws(s@, from as int),
        from <= r <= s@.len(),
    decreases s@.len() - from,
{
    if from == s.unicode_len() {
        from
    } else {
        let c = s.get_char(from);
        if c == ' ' || c == '\t' || c == '\n' || c == '\r' {
            skip_ws_exec(s, from + 1)
        } else {
            from
        }
    }
}

/// The value of a hexadecimal digit character of either case, as
/// runtime code.
fn hexv_exec(c: char) -> (r: Option<u32>)
    ensures
        match r {
            Some(v) => hexv(c) == Some(v as nat) && v < 16,
            None => hexv(c) is None,
        },
{
    let v = c as u32;
    if v >= 48 && v <= 57 {
        Some(v - 48)
    } else if v >= 97 && v <= 102 {
        Some(v - 97 + 10)
    } else if v >= 65 && v <= 70 {
        Some(v - 65 + 10)
    } else {
        None
    }
}

/// Reads the body of a JSON string starting just after its opening
/// quote, mirroring the spec-level reading exactly.
fn parse_wire_string(s: &str, from: usize) -> (r: Option<(String, usize)>)
    requires
        from <= s@.len(),
    ensures
        ({
            let u = wstr_body(s@, from as int);
            match r {
                Some(p) => u is Some && p.0@ == u->Some_0.0 && p.1 == u->Some_0.1 && from < p.1
                    <= s@.len(),
                None => u is None,
            }
        }),
    decreases s@.len() - from,
{
    let len = s.unicode_len();
    if from == len {
        return None;
    }
    let c = s.get_char(from);
    if c == '"' {
        return Some((String::new(), from + 1));
    }
    if c == '\\' {
        if from + 1 == len {
            return None;
        }
        let c2 = s.get_char(from + 1);
        let simple: Option<char> = if c2 == '"' || c2 == '\\' || c2 == '/' {
            Some(c2)
        } else if c2 == 'b' {
            Some('\u{8}')
        } else if c2 == 'f' {
            Some('\u{c}')
        } else if c2 == 'n' {
            Some('\n')
        } else if c2 == 'r' {
            Some('\r')
        } else if c2 == 't' {
            Some('\t')
        } else {
            None
        };
        match simple {
            Some(decoded) => {
                match parse_wire_string(s, from + 2) {
                    None => None,
                    Some((t, end)) => {
                        let mut out = String::new();
                        out.push(decoded);
                        out.append(t.as_str());
                        assert(out@ =~= seq![decoded] + t@);
                        Some((out, end))
                    },
                }
            },
            None => {
                if c2 != 'u' || len - from < 6 {
                    return None;
                }
                let h1 = hexv_exec(s.get_char(from + 2));
                let h2 = hexv_exec(s.get_char(from + 3));
                let h3 = hexv_exec(s.get_char(from + 4));
                let h4 = hexv_exec(s.get_char(from + 5));
                match (h1, h2, h3, h4) {
                    (Some(a), Some(b), Some(x), Some(d)) => {
                        let v: u32 = a * 4096 + b * 256 + x * 16 + d;
                        if v >= 0xD800 && v < 0xE000 {
                            return None;
                        }
                        let decoded = char::from_u32(v).unwrap();
                        match parse_wire_string(s, from + 6) {
                            None => None,
                            Some((t, end)) => {
                                let mut out = String::new();
                                out.push(decoded);
                                out.append(t.as_str());
                                assert(out@ =~= seq![decoded] + t@);
                                Some((out, end))
                            },
                        }
                    },
                    _ => None,
                }
            },
        }
    } else {
        let v = c as u32;
        if v < 32 {
            return None;
        }
        match parse_wire_string(s, from + 1) {
            None => None,
            Some((t, end)) => {
                let mut out = String::new();
                out.push(c);
                out.append(t.as_str());
                assert(out@ =~= seq![c] + t@);
                Some((out, end))
            },
        }
    }
}

/// Reads one object member whose value is a JSON string or `null`,
/// mirroring the spec-level reading exactly.
fn parse_wire_member(s: &str, from: usize) -> (r: Option<(String, Option<String>, usize)>)
    requires
        from <= s@.len(),
    ensures
        ({
            let u = wire_member(s@, from as int);
            match r {
                Some(p) => u is Some && p.0@ == u->Some_0.0 && (match (p.1, u->Some_0.1) {
                    (Some(ps), Some(qs)) => ps@ == qs,
                    (None, None) => true,
                    _ => false,
                }) && p.2 == u->Some_0.2 && from < p.2 <= s@.len(),
                None => u is None,
            }
        }),
{
    let len = s.unicode_len();
    if from == len || s.get_char(from) != '"' {
        return None;
    }
    let (key, j) = match parse_wire_string(s, from + 1) {
        None => {
            return None;
        },
        Some(p) => p,
    };
    let k = skip_ws_exec(s, j);
    if k == len || s.get_char(k) != ':' {
        return None;
    }
    let m = skip_ws_exec(s, k + 1);
    if m < len && s.get_char(m) == '"' {
        match parse_wire_string(s, m + 1) {
            Some((v, e)) => Some((key, Some(v), e)),
            None => None,
        }
    } else {
        proof {
            reveal_strlit("null");
            assert("null"@ =~= null_lit());
        }
        if starts_with_at(s, m, "null") {
            assert(s@.subrange(m as int, m + 4) == null_lit());
            Some((key, None, m + 4))
        } else {
            proof {
                if m + 4 <= s@.len() && s@.subrange(m as int, m + 4) == null_lit() {
                    assert(s@.subrange(m as int, m + 4) == "null"@);
                }
            }
            None
        }
    }
}

/// Reads a credential-exchange response, mirroring the spec-level
/// reading exactly.
pub fn decode_auth_response(s: &str) -> (r: Option<(String, Option<String>)>)
    ensures
        ({
            let d = auth_resp_dec(s@);
            match r {
                Some(p) => d is Some && p.0@ == d->Some_0.0 && (match (p.1, d->Some_0.1) {
                    (Some(ps), Some(qs)) => ps@ == qs,
                    (None, None) => true,
                    _ => false,
                }),
                None => d is None,
            }
        }),
{
    let len = s.unicode_len();
    let ghost tok_key_g = token_key();
    let ghost exp_key_g = expires_key();
    proof {
        reveal_strlit("token");
        assert("token"@ =~= token_key());
        reveal_strlit("expires_at");
        assert("expires_at"@ =~= expires_key());
    }
    let token_name = String::from_str("token");
    let expires_name = String::from_str("expires_at");
    let i0 = skip_ws_exec(s, 0);
    if i0 == len || s.get_char(i0) != '{' {
        return None;
    }
    let i1 = skip_ws_exec(s, i0 + 1);
    let (k1, v1, e1) = match parse_wire_member(s, i1) {
        None => {
            return None;
        },
        Some(p) => p,
    };
    let p = skip_ws_exec(s, e1);
    if p == len {
        return None;
    }
    if s.get_char(p) == '}' {
        if k1 == token_name && v1.is_some() && skip_ws_exec(s, p + 1) == len {
            return Some((v1.unwrap(), None));
        }
        return None;
    }
    if s.get_char(p) != ',' {
        return None;
    }
    let q = skip_ws_exec(s, p + 1);
    let (k2, v2, e2) = match parse_wire_member(s, q) {
        None => {
            return None;
        },
        Some(p2) => p2,
    };
    let r = skip_ws_exec(s, e2);
    if r == len || s.get_char(r) != '}' || skip_ws_exec(s, r + 1) != len {
        return None;
    }
    if k1 == token_name && v1.is_some() && k2 == expires_name {
        Some((v1.unwrap(), v2))
    } else if k1 == expires_name && k2 == token_name && v2.is_some() {
        Some((v2.unwrap(), v1))
    } else {
        None
    }
}

} // verus!
