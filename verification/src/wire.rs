//! The JSON wire forms shared by the HTTP client and server: string
//! escaping, the `{"target": ...}` request body, and the `{"Ok": ...}` /
//! `{"Err": {...}}` response envelope.  Every encoder has a decoder that is
//! proved to accept exactly the encoder's output.

use crate::cmd;
use crate::text;
use crate::Response;
use crate::UrlTarget;
use vstd::prelude::*;
use vstd::string::StringExecFns;

verus! {

/// The lowercase hex digit for `d`.
pub open spec fn hex_digit(d: nat) -> char {
    if d < 10 {
        ((0x30 + d) as u8) as char
    } else {
        ((0x57 + d) as u8) as char
    }
}

/// The hex value of a lowercase hex digit, if it is one.
pub open spec fn hex_val(c: char) -> Option<nat> {
    let u = c as u32;
    if 0x30 <= u <= 0x39 {
        Some((u - 0x30) as nat)
    } else if 0x61 <= u <= 0x66 {
        Some((u - 0x61 + 10) as nat)
    } else {
        None
    }
}

proof fn lemma_hex_digit_val(d: nat)
    requires
        d < 16,
    ensures
        hex_val(hex_digit(d)) == Some(d),
{
}

/// The JSON escaping of one character: `"` and `\` get a backslash escape,
/// a control character a `\u00XX` escape, and every other character stands
/// for itself.
pub open spec fn esc_char(c: char) -> Seq<char> {
    if c == '"' {
        seq!['\\', '"']
    } else if c == '\\' {
        seq!['\\', '\\']
    } else if (c as u32) < 0x20 {
        seq![
            '\\',
            'u',
            '0',
            '0',
            hex_digit(((c as u32) / 16) as nat),
            hex_digit(((c as u32) % 16) as nat),
        ]
    } else {
        seq![c]
    }
}

/// The JSON escaping of a string.
pub open spec fn json_escaped(s: Seq<char>) -> Seq<char>
    decreases s.len(),
{
    if s.len() == 0 {
        Seq::empty()
    } else {
        esc_char(s[0]) + json_escaped(s.drop_first())
    }
}

/// `Some(c)` prepended to a parse result.
pub open spec fn prepend(c: char, r: Option<Seq<char>>) -> Option<Seq<char>> {
    match r {
        Some(s) => Some(seq![c] + s),
        None => None,
    }
}

/// The inverse of `json_escaped`: `Some(s)` exactly when `v` is the escaping
/// of `s`.
pub open spec fn json_unescaped(v: Seq<char>) -> Option<Seq<char>>
    decreases v.len(),
{
    if v.len() == 0 {
        Some(Seq::empty())
    } else if v[0] == '\\' {
        if v.len() >= 2 && v[1] == '"' {
            prepend('"', json_unescaped(v.skip(2)))
        } else if v.len() >= 2 && v[1] == '\\' {
            prepend('\\', json_unescaped(v.skip(2)))
        } else if v.len() >= 6 && v[1] == 'u' && v[2] == '0' && v[3] == '0' && hex_val(v[4]) is Some
            && hex_val(v[5]) is Some {
            let code = 16 * hex_val(v[4])->Some_0 + hex_val(v[5])->Some_0;
            if code < 0x20 {
                prepend(((code as u8) as char), json_unescaped(v.skip(6)))
            } else {
                None
            }
        } else {
            None
        }
    } else if v[0] == '"' || (v[0] as u32) < 0x20 {
        None
    } else {
        prepend(v[0], json_unescaped(v.skip(1)))
    }
}

/// Unescaping inverts escaping: every escaped string parses back to itself.
pub proof fn lemma_unescape_escape(s: Seq<char>)
    ensures
        json_unescaped(json_escaped(s)) == Some(s),
    decreases s.len(),
{
    if s.len() == 0 {
        assert(json_escaped(s) =~= Seq::<char>::empty());
    } else {
        let c = s[0];
        let rest = s.drop_first();
        lemma_unescape_escape(rest);
        let v = json_escaped(s);
        assert(v == esc_char(c) + json_escaped(rest));
        if c == '"' {
            assert(v.skip(2) =~= json_escaped(rest));
            assert(prepend('"', json_unescaped(v.skip(2))) == Some(seq!['"'] + rest));
            assert(seq!['"'] + rest =~= s);
        } else if c == '\\' {
            assert(v.skip(2) =~= json_escaped(rest));
            assert(seq!['\\'] + rest =~= s);
        } else if (c as u32) < 0x20 {
            let code = (c as u32) as nat;
            let h1 = (code / 16) as nat;
            let h2 = (code % 16) as nat;
            lemma_hex_digit_val(h1);
            lemma_hex_digit_val(h2);
            assert(v.skip(6) =~= json_escaped(rest));
            assert(v[0] == '\\' && v[1] == 'u' && v[2] == '0' && v[3] == '0');
            assert(16 * h1 + h2 == code);
            assert(((code as u8) as char) == c) by {
                vstd::utf8::char_u32_cast(c, c as u32);
            }
            assert(seq![c] + rest =~= s);
        } else {
            assert(v[0] == c);
            assert(v.skip(1) =~= json_escaped(rest));
            assert(seq![c] + rest =~= s);
        }
    }
}

/// Unescaping is sound: whatever it accepts is the escaping of its result.
pub proof fn lemma_escape_unescape(v: Seq<char>)
    ensures
        json_unescaped(v) matches Some(u) ==> json_escaped(u) == v,
    decreases v.len(),
{
    if v.len() == 0 {
        let r0 = json_unescaped(v);
        if r0 is Some {
            assert(json_escaped(r0->Some_0) =~= v);
        }
    } else if v[0] == '\\' {
        if v.len() >= 2 && v[1] == '"' {
            lemma_escape_unescape(v.skip(2));
            let r2 = json_unescaped(v.skip(2));
            if r2 is Some {
                let u2 = r2->Some_0;
                assert(json_escaped(seq!['"'] + u2) =~= esc_char('"') + json_escaped(u2)) by {
                    assert((seq!['"'] + u2).drop_first() =~= u2);
                }
                assert(esc_char('"') + v.skip(2) =~= v);
            }
        } else if v.len() >= 2 && v[1] == '\\' {
            lemma_escape_unescape(v.skip(2));
            let r2 = json_unescaped(v.skip(2));
            if r2 is Some {
                let u2 = r2->Some_0;
                assert(json_escaped(seq!['\\'] + u2) =~= esc_char('\\') + json_escaped(u2)) by {
                    assert((seq!['\\'] + u2).drop_first() =~= u2);
                }
                assert(esc_char('\\') + v.skip(2) =~= v);
            }
        } else if v.len() >= 6 && v[1] == 'u' && v[2] == '0' && v[3] == '0' && hex_val(v[4]) is Some
            && hex_val(v[5]) is Some {
            let h1 = hex_val(v[4])->Some_0;
            let h2 = hex_val(v[5])->Some_0;
            let code = 16 * h1 + h2;
            if code < 0x20 {
                lemma_escape_unescape(v.skip(6));
                let r6 = json_unescaped(v.skip(6));
                if r6 is Some {
                    let u6 = r6->Some_0;
                    let c = (code as u8) as char;
                    assert((c as u32) == code);
                    assert(c != '"' && c != '\\');
                    assert(code / 16 == h1 && code % 16 == h2) by {
                        assert(h1 < 2 && h2 < 16);
                    }
                    assert(hex_digit(h1) == v[4] && hex_digit(h2) == v[5]) by {
                        lemma_hex_val_digit(v[4]);
                        lemma_hex_val_digit(v[5]);
                    }
                    assert(json_escaped(seq![c] + u6) =~= esc_char(c) + json_escaped(u6)) by {
                        assert((seq![c] + u6).drop_first() =~= u6);
                    }
                    assert(esc_char(c) + v.skip(6) =~= v);
                }
            }
        }
    } else if v[0] == '"' || (v[0] as u32) < 0x20 {
    } else {
        lemma_escape_unescape(v.skip(1));
        let r1 = json_unescaped(v.skip(1));
        if r1 is Some {
            let u1 = r1->Some_0;
            assert(json_escaped(seq![v[0]] + u1) =~= esc_char(v[0]) + json_escaped(u1)) by {
                assert((seq![v[0]] + u1).drop_first() =~= u1);
            }
            assert(esc_char(v[0]) + v.skip(1) =~= v);
        }
    }
}

proof fn lemma_hex_val_digit(c: char)
    requires
        hex_val(c) is Some,
    ensures
        hex_digit(hex_val(c)->Some_0) == c,
{
    let u = c as u32;
    if 0x30 <= u <= 0x39 {
        assert(((0x30 + (u - 0x30)) as u8) as char == c);
    } else {
        assert(((0x57 + (u - 0x57)) as u8) as char == c);
    }
}

fn hex_digit_exec(d: u8) -> (c: char)
    requires
        d < 16,
    ensures
        c == hex_digit(d as nat),
{
    if d < 10 {
        (0x30 + d) as char
    } else {
        (0x57 + d) as char
    }
}

fn hex_val_exec(c: char) -> (r: Option<u8>)
    ensures
        match r {
            Some(d) => hex_val(c) == Some(d as nat),
            None => hex_val(c) is None,
        },
{
    let u = c as u32;
    if 0x30 <= u && u <= 0x39 {
        Some((u - 0x30) as u8)
    } else if 0x61 <= u && u <= 0x66 {
        Some((u - 0x61 + 10) as u8)
    } else {
        None
    }
}

fn esc_char_exec(c: char) -> (v: Vec<char>)
    ensures
        v@ == esc_char(c),
{
    if c == '"' {
        let v = vec!['\\', '"'];
        proof {
            assert(v@ =~= esc_char(c));
        }
        v
    } else if c == '\\' {
        let v = vec!['\\', '\\'];
        proof {
            assert(v@ =~= esc_char(c));
        }
        v
    } else {
        let code = c as u32;
        if code < 0x20 {
            let hi = (code / 16) as u8;
            let lo = (code % 16) as u8;
            let v = vec!['\\', 'u', '0', '0', hex_digit_exec(hi), hex_digit_exec(lo)];
            proof {
                assert(v@ =~= esc_char(c));
            }
            v
        } else {
            let v = vec![c];
            proof {
                assert(v@ =~= esc_char(c));
            }
            v
        }
    }
}

/// Escaping distributes over extending a string by one character.
proof fn lemma_escaped_snoc(s: Seq<char>, c: char)
    ensures
        json_escaped(s.push(c)) == json_escaped(s) + esc_char(c),
    decreases s.len(),
{
    if s.len() == 0 {
        assert(s.push(c).drop_first() =~= Seq::<char>::empty());
        assert(s.push(c)[0] == c);
        assert(json_escaped(s.push(c)) == esc_char(c) + json_escaped(s.push(c).drop_first()));
        assert(json_escaped(Seq::<char>::empty()) == Seq::<char>::empty());
        assert(json_escaped(s.push(c)) =~= json_escaped(s) + esc_char(c));
    } else {
        lemma_escaped_snoc(s.drop_first(), c);
        assert(s.push(c).drop_first() =~= s.drop_first().push(c));
        assert(s.push(c)[0] == s[0]);
        assert(json_escaped(s.push(c)) == esc_char(s[0]) + json_escaped(s.drop_first().push(c)));
        assert(json_escaped(s) == esc_char(s[0]) + json_escaped(s.drop_first()));
        let a = esc_char(s[0]);
        let b = json_escaped(s.drop_first());
        let e = esc_char(c);
        assert(a + (b + e) =~= (a + b) + e);
        assert(json_escaped(s.push(c)) =~= json_escaped(s) + esc_char(c));
    }
}

/// The JSON escaping of the characters of `s`.
fn escape_chars(s: &Vec<char>) -> (out: Vec<char>)
    ensures
        out@ == json_escaped(s@),
{
    let mut out: Vec<char> = Vec::new();
    let mut i: usize = 0;
    while i < s.len()
        invariant
            i <= s@.len(),
            out@ == json_escaped(s@.take(i as int)),
        decreases s@.len() - i,
    {
        let mut e = esc_char_exec(s[i]);
        out.append(&mut e);
        i = i + 1;
        proof {
            lemma_escaped_snoc(s@.take(i - 1), s@[i - 1]);
            assert(s@.take(i as int) =~= s@.take(i - 1).push(s@[i - 1]));
        }
    }
    proof {
        assert(s@.take(s@.len() as int) =~= s@);
    }
    out
}

/// The inverse of `escape_chars` on the span `v[from..to]`: returns the
/// string whose escaping that span is, or `None` when it is no escaping at
/// all.
fn unescape_chars(v: &Vec<char>, from: usize, to: usize) -> (r: Option<Vec<char>>)
    requires
        from <= to <= v@.len(),
    ensures
        match r {
            Some(u) => json_unescaped(v@.subrange(from as int, to as int)) == Some(u@),
            None => json_unescaped(v@.subrange(from as int, to as int)) is None,
        },
    decreases to - from,
{
    let ghost t = v@.subrange(from as int, to as int);
    if from == to {
        proof {
            assert(t =~= Seq::<char>::empty());
        }
        return Some(Vec::new());
    }
    let c = v[from];
    proof {
        assert(t[0] == c);
    }
    if c == '\\' {
        if to - from > 1 && (v[from + 1] == '"' || v[from + 1] == '\\') {
            let d = v[from + 1];
            proof {
                assert(t[1] == d);
                assert(t.skip(2) =~= v@.subrange(from + 2, to as int));
            }
            match unescape_chars(v, from + 2, to) {
                Some(mut u) => {
                    u.insert(0, d);
                    proof {
                        assert(u@ =~= seq![d] + u@.drop_first());
                    }
                    Some(u)
                },
                None => None,
            }
        } else if to - from > 5 && v[from + 1] == 'u' && v[from + 2] == '0' && v[from + 3] == '0' {
            proof {
                assert(t.len() >= 6);
                assert(t[1] == 'u' && t[2] == '0' && t[3] == '0');
                assert(t[4] == v@[from + 4] && t[5] == v@[from + 5]);
            }
            let h1 = hex_val_exec(v[from + 4]);
            let h2 = hex_val_exec(v[from + 5]);
            match (h1, h2) {
                (Some(a), Some(b)) => {
                    let code: u8 = 16 * a + b;
                    if code < 0x20 {
                        proof {
                            assert(t.skip(6) =~= v@.subrange(from + 6, to as int));
                        }
                        match unescape_chars(v, from + 6, to) {
                            Some(mut u) => {
                                let ch = code as char;
                                u.insert(0, ch);
                                proof {
                                    assert(u@ =~= seq![ch] + u@.drop_first());
                                }
                                Some(u)
                            },
                            None => None,
                        }
                    } else {
                        None
                    }
                },
                _ => None,
            }
        } else {
            proof {
                if t.len() >= 2 && (t[1] == '"' || t[1] == '\\') {
                    assert(v@[from + 1] == t[1]);
                    assert(false);
                }
                if t.len() >= 6 && t[1] == 'u' && t[2] == '0' && t[3] == '0' {
                    assert(v@[from + 1] == 'u' && v@[from + 2] == '0' && v@[from + 3] == '0');
                    assert(false);
                }
            }
            None
        }
    } else if c == '"' {
        None
    } else {
        let code = c as u32;
        if code < 0x20 {
            None
        } else {
            proof {
                assert(t.skip(1) =~= v@.subrange(from + 1, to as int));
            }
            match unescape_chars(v, from + 1, to) {
                Some(mut u) => {
                    u.insert(0, c);
                    proof {
                        assert(u@ =~= seq![c] + u@.drop_first());
                    }
                    Some(u)
                },
                None => None,
            }
        }
    }
}


/// A JSON string literal: the escaped text between double quotes.
pub open spec fn json_string(s: Seq<char>) -> Seq<char> {
    seq!['"'] + json_escaped(s) + seq!['"']
}

/// The characters of the JSON string literal for `s`.
fn json_string_chars(s: &str) -> (v: Vec<char>)
    ensures
        v@ == json_string(s@),
{
    let cs = text::str_chars(s);
    let mut esc = escape_chars(&cs);
    let mut v: Vec<char> = Vec::new();
    v.push('"');
    v.append(&mut esc);
    v.push('"');
    proof {
        assert(v@ =~= json_string(s@));
    }
    v
}

/// Whether `pat` occupies positions `at .. at + pat.len()` of `v`.
fn match_seq_at(v: &Vec<char>, at: usize, pat: &Vec<char>) -> (b: bool)
    requires
        at <= v@.len(),
    ensures
        b == (at + pat@.len() <= v@.len() && v@.subrange(at as int, at + pat@.len()) == pat@),
{
    if v.len() - at < pat.len() {
        return false;
    }
    let m = pat.len();
    let mut i: usize = 0;
    while i < m
        invariant
            i <= m,
            m == pat@.len(),
            at + m <= v@.len(),
            v@.len() <= usize::MAX,
            forall|j: int| 0 <= j < i ==> v@[at + j] == pat@[j],
        decreases m - i,
    {
        if v[at + i] != pat[i] {
            proof {
                assert(v@.subrange(at as int, at + m)[i as int] == v@[at + i]);
            }
            return false;
        }
        i = i + 1;
    }
    proof {
        assert(v@.subrange(at as int, at + m) =~= pat@);
    }
    true
}

/// Parse the span `v[lo..hi]` as a JSON string literal, exactly: the result
/// is the one string whose literal the span is, and `None` when the span is
/// no literal that `json_string` produces.
fn parse_json_string_span(v: &Vec<char>, lo: usize, hi: usize) -> (r: Option<Vec<char>>)
    requires
        lo <= hi <= v@.len(),
    ensures
        match r {
            Some(u) => v@.subrange(lo as int, hi as int) == json_string(u@),
            None => forall|x: Seq<char>| v@.subrange(lo as int, hi as int) != json_string(x),
        },
{
    let ghost w = v@.subrange(lo as int, hi as int);
    if hi - lo < 2 {
        proof {
            assert forall|x: Seq<char>| w != json_string(x) by {
                assert(json_string(x).len() >= 2);
            }
        }
        return None;
    }
    if v[lo] != '"' || v[hi - 1] != '"' {
        proof {
            assert(w[0] == v@[lo as int]);
            assert(w[w.len() - 1] == v@[hi - 1]);
            assert forall|x: Seq<char>| w != json_string(x) by {
                if w == json_string(x) {
                    assert(json_string(x)[0] == '"');
                    assert(json_string(x)[json_string(x).len() - 1] == '"');
                }
            }
        }
        return None;
    }
    let ghost mid = v@.subrange(lo + 1, hi - 1);
    proof {
        assert(mid =~= w.subrange(1, w.len() - 1));
    }
    match unescape_chars(v, lo + 1, hi - 1) {
        Some(u) => {
            proof {
                lemma_escape_unescape(mid);
                assert(json_escaped(u@) == mid);
                assert(w =~= json_string(u@));
            }
            Some(u)
        },
        None => {
            proof {
                assert forall|x: Seq<char>| w != json_string(x) by {
                    if w == json_string(x) {
                        assert(json_string(x).subrange(1, json_string(x).len() - 1)
                            =~= json_escaped(x));
                        assert(mid == json_escaped(x));
                        lemma_unescape_escape(x);
                        assert(json_unescaped(mid) is Some);
                    }
                }
            }
            None
        },
    }
}


/// Parse `v` as exactly `pre`, then one JSON string literal, then `suf`:
/// the result is the one string so wrapped, `None` when `v` has no such
/// form.
fn parse_between(v: &Vec<char>, pre: &Vec<char>, suf: &Vec<char>) -> (r: Option<Vec<char>>)
    ensures
        match r {
            Some(u) => v@ == pre@ + json_string(u@) + suf@,
            None => forall|x: Seq<char>| v@ != pre@ + json_string(x) + suf@,
        },
{
    let n = v.len();
    let np = pre.len();
    let ns = suf.len();
    if !match_seq_at(v, 0, pre) {
        proof {
            assert forall|x: Seq<char>| v@ != pre@ + json_string(x) + suf@ by {
                if v@ == pre@ + json_string(x) + suf@ {
                    assert(v@.subrange(0, pre@.len() as int) =~= pre@);
                }
            }
        }
        return None;
    }
    if n - np < 2 || n - np - 2 < ns {
        proof {
            assert forall|x: Seq<char>| v@ != pre@ + json_string(x) + suf@ by {
                if v@ == pre@ + json_string(x) + suf@ {
                    assert(v@.len() == pre@.len() + json_string(x).len() + suf@.len());
                    assert(json_string(x).len() >= 2);
                }
            }
        }
        return None;
    }
    if !match_seq_at(v, n - ns, suf) {
        proof {
            assert forall|x: Seq<char>| v@ != pre@ + json_string(x) + suf@ by {
                if v@ == pre@ + json_string(x) + suf@ {
                    assert(v@.subrange(v@.len() - suf@.len(), v@.len() as int) =~= suf@);
                }
            }
        }
        return None;
    }
    match parse_json_string_span(v, np, n - ns) {
        Some(u) => {
            proof {
                assert(v@ =~= pre@ + json_string(u@) + suf@);
            }
            Some(u)
        },
        None => {
            proof {
                assert forall|x: Seq<char>| v@ != pre@ + json_string(x) + suf@ by {
                    if v@ == pre@ + json_string(x) + suf@ {
                        assert(v@.subrange(pre@.len() as int, v@.len() - suf@.len())
                            =~= json_string(x));
                    }
                }
            }
            None
        },
    }
}

/// Mathematical model of a `Response`.
pub type ResponseModel = Result<Seq<char>, cmd::ErrorModel>;

/// The model of a response value.
pub open spec fn response_model(r: &Response) -> ResponseModel {
    match r {
        Ok(s) => Ok(s@),
        Err(e) => Err(e@),
    }
}

/// The opening of a success envelope, `{"Ok":`.
pub open spec fn ok_prefix() -> Seq<char> {
    seq!['{', '"', 'O', 'k', '"', ':']
}

/// The opening of an error envelope, `{"Err":{"`.
pub open spec fn err_prefix() -> Seq<char> {
    seq!['{', '"', 'E', 'r', 'r', '"', ':', '{', '"']
}

/// The opening of a URL request body, `{"target":`.
pub open spec fn target_prefix() -> Seq<char> {
    seq!['{', '"', 't', 'a', 'r', 'g', 'e', 't', '"', ':']
}

/// The wire name of an error variant.
pub open spec fn variant_name(e: cmd::ErrorModel) -> Seq<char> {
    match e {
        cmd::ErrorModel::CouldNotRun(_) => seq!['C', 'o', 'u', 'l', 'd', 'N', 'o', 't', 'R', 'u', 'n'],
        cmd::ErrorModel::CreateDirectory(_) => seq![
            'C', 'r', 'e', 'a', 't', 'e', 'D', 'i', 'r', 'e', 'c', 't', 'o', 'r', 'y',
        ],
        cmd::ErrorModel::OpenFile(_) => seq!['O', 'p', 'e', 'n', 'F', 'i', 'l', 'e'],
        cmd::ErrorModel::WriteFile(_) => seq!['W', 'r', 'i', 't', 'e', 'F', 'i', 'l', 'e'],
    }
}

/// The message an error variant carries.
pub open spec fn err_msg(e: cmd::ErrorModel) -> Seq<char> {
    match e {
        cmd::ErrorModel::CouldNotRun(m) => m,
        cmd::ErrorModel::CreateDirectory(m) => m,
        cmd::ErrorModel::OpenFile(m) => m,
        cmd::ErrorModel::WriteFile(m) => m,
    }
}

/// The JSON envelope every endpoint returns: `{"Ok": "<string>"}` on
/// success, `{"Err": {"<Variant>": "<msg>"}}` on error.
pub open spec fn envelope_json(r: ResponseModel) -> Seq<char> {
    match r {
        Ok(s) => ok_prefix() + json_string(s) + seq!['}'],
        Err(e) => err_prefix() + variant_name(e) + seq!['"', ':'] + json_string(err_msg(e))
            + seq!['}', '}'],
    }
}

/// The JSON request body for a URL target: `{"target": "<url>"}`.
pub open spec fn url_body_json(target: Seq<char>) -> Seq<char> {
    target_prefix() + json_string(target) + seq!['}']
}

/// Encode a response as its JSON envelope.
pub fn encode_envelope(r: &Response) -> (s: String)
    ensures
        s@ == envelope_json(response_model(r)),
{
    match r {
        Ok(msg) => {
            let lit = text::chars_string(&json_string_chars(msg.as_str()));
            let s = String::from_str("{\"Ok\":").concat(lit.as_str()).concat("}");
            proof {
                reveal_strlit("{\"Ok\":");
                reveal_strlit("}");
                assert("{\"Ok\":"@ =~= ok_prefix());
                assert("}"@ =~= seq!['}']);
                assert(s@ =~= envelope_json(response_model(r)));
            }
            s
        },
        Err(e) => {
            let head: &str;
            let msg: &String;
            match e {
                cmd::Error::CouldNotRun(m) => {
                    head = "{\"Err\":{\"CouldNotRun\":";
                    msg = m;
                },
                cmd::Error::CreateDirectory(m) => {
                    head = "{\"Err\":{\"CreateDirectory\":";
                    msg = m;
                },
                cmd::Error::OpenFile(m) => {
                    head = "{\"Err\":{\"OpenFile\":";
                    msg = m;
                },
                cmd::Error::WriteFile(m) => {
                    head = "{\"Err\":{\"WriteFile\":";
                    msg = m;
                },
            }
            proof {
                reveal_strlit("{\"Err\":{\"CouldNotRun\":");
                reveal_strlit("{\"Err\":{\"CreateDirectory\":");
                reveal_strlit("{\"Err\":{\"OpenFile\":");
                reveal_strlit("{\"Err\":{\"WriteFile\":");
                assert(head@ =~= err_prefix() + variant_name(e@) + seq!['"', ':']);
                assert(msg@ == err_msg(e@));
            }
            let lit = text::chars_string(&json_string_chars(msg.as_str()));
            let s = String::from_str(head).concat(lit.as_str()).concat("}}");
            proof {
                reveal_strlit("}}");
                assert("}}"@ =~= seq!['}', '}']);
                assert(s@ =~= envelope_json(response_model(r)));
            }
            s
        },
    }
}

/// Decode a JSON envelope, exactly: the result is the one response whose
/// envelope `s` is, and `None` when `s` is no envelope at all.
pub fn decode_envelope(s: &str) -> (r: Option<Response>)
    ensures
        match r {
            Some(resp) => s@ == envelope_json(response_model(&resp)),
            None => forall|m: ResponseModel| s@ != envelope_json(m),
        },
{
    let v = text::str_chars(s);
    let okp = vec!['{', '"', 'O', 'k', '"', ':'];
    let closer = vec!['}'];
    let closer2 = vec!['}', '}'];
    proof {
        assert(okp@ =~= ok_prefix());
        assert(closer@ =~= seq!['}']);
        assert(closer2@ =~= seq!['}', '}']);
    }
    match parse_between(&v, &okp, &closer) {
        Some(u) => {
            let msg = text::chars_string(&u);
            return Some(Ok(msg));
        },
        None => {},
    }
    let mut cnr = vec!['{', '"', 'E', 'r', 'r', '"', ':', '{', '"'];
    let mut tail_cnr = vec!['C', 'o', 'u', 'l', 'd', 'N', 'o', 't', 'R', 'u', 'n', '"', ':'];
    cnr.append(&mut tail_cnr);
    proof {
        assert(cnr@ =~= err_prefix() + seq![
            'C', 'o', 'u', 'l', 'd', 'N', 'o', 't', 'R', 'u', 'n',
        ] + seq!['"', ':']);
    }
    match parse_between(&v, &cnr, &closer2) {
        Some(u) => {
            let msg = text::chars_string(&u);
            return Some(Err(cmd::Error::CouldNotRun(msg)));
        },
        None => {},
    }
    let mut cdir = vec!['{', '"', 'E', 'r', 'r', '"', ':', '{', '"'];
    let mut tail_cdir = vec![
        'C', 'r', 'e', 'a', 't', 'e', 'D', 'i', 'r', 'e', 'c', 't', 'o', 'r', 'y', '"', ':',
    ];
    cdir.append(&mut tail_cdir);
    proof {
        assert(cdir@ =~= err_prefix() + seq![
            'C', 'r', 'e', 'a', 't', 'e', 'D', 'i', 'r', 'e', 'c', 't', 'o', 'r', 'y',
        ] + seq!['"', ':']);
    }
    match parse_between(&v, &cdir, &closer2) {
        Some(u) => {
            let msg = text::chars_string(&u);
            return Some(Err(cmd::Error::CreateDirectory(msg)));
        },
        None => {},
    }
    let mut opf = vec!['{', '"', 'E', 'r', 'r', '"', ':', '{', '"'];
    let mut tail_opf = vec!['O', 'p', 'e', 'n', 'F', 'i', 'l', 'e', '"', ':'];
    opf.append(&mut tail_opf);
    proof {
        assert(opf@ =~= err_prefix() + seq!['O', 'p', 'e', 'n', 'F', 'i', 'l', 'e'] + seq![
            '"', ':',
        ]);
    }
    match parse_between(&v, &opf, &closer2) {
        Some(u) => {
            let msg = text::chars_string(&u);
            return Some(Err(cmd::Error::OpenFile(msg)));
        },
        None => {},
    }
    let mut wrf = vec!['{', '"', 'E', 'r', 'r', '"', ':', '{', '"'];
    let mut tail_wrf = vec!['W', 'r', 'i', 't', 'e', 'F', 'i', 'l', 'e', '"', ':'];
    wrf.append(&mut tail_wrf);
    proof {
        assert(wrf@ =~= err_prefix() + seq!['W', 'r', 'i', 't', 'e', 'F', 'i', 'l', 'e'] + seq![
            '"', ':',
        ]);
    }
    match parse_between(&v, &wrf, &closer2) {
        Some(u) => {
            let msg = text::chars_string(&u);
            return Some(Err(cmd::Error::WriteFile(msg)));
        },
        None => {},
    }
    proof {
        assert forall|m: ResponseModel| s@ != envelope_json(m) by {
            if s@ == envelope_json(m) {
                if m is Err {
                    let e = m->Err_0;
                    assert(envelope_json(m) == err_prefix() + variant_name(e) + seq!['"', ':']
                        + json_string(err_msg(e)) + seq!['}', '}']);
                }
            }
        }
    }
    None
}

/// Encode a URL target as the request body `{"target": "<url>"}`.
pub fn encode_url_target(t: &UrlTarget) -> (s: String)
    ensures
        s@ == url_body_json(t@.target),
{
    let lit = text::chars_string(&json_string_chars(t.target.as_str()));
    let s = String::from_str("{\"target\":").concat(lit.as_str()).concat("}");
    proof {
        reveal_strlit("{\"target\":");
        reveal_strlit("}");
        assert("{\"target\":"@ =~= target_prefix());
        assert("}"@ =~= seq!['}']);
        assert(s@ =~= url_body_json(t@.target));
    }
    s
}

/// Decode a URL request body, exactly: the result is the one target whose
/// body `s` is, and `None` when `s` is no such body.
pub fn decode_url_target(s: &str) -> (r: Option<UrlTarget>)
    ensures
        match r {
            Some(t) => s@ == url_body_json(t@.target),
            None => forall|x: Seq<char>| s@ != url_body_json(x),
        },
{
    let v = text::str_chars(s);
    let pre = vec!['{', '"', 't', 'a', 'r', 'g', 'e', 't', '"', ':'];
    let closer = vec!['}'];
    proof {
        assert(pre@ =~= target_prefix());
        assert(closer@ =~= seq!['}']);
    }
    match parse_between(&v, &pre, &closer) {
        Some(u) => {
            let target = text::chars_string(&u);
            Some(UrlTarget { target })
        },
        None => None,
    }
}


/// The envelope holds exactly one of success or error: a success envelope
/// is never an error envelope.
pub proof fn lemma_envelope_exclusive(m1: ResponseModel, m2: ResponseModel)
    requires
        m1 is Ok,
        m2 is Err,
    ensures
        envelope_json(m1) != envelope_json(m2),
{
    if envelope_json(m1) == envelope_json(m2) {
        assert(envelope_json(m1)[2] == 'O');
        assert(envelope_json(m2)[2] == 'E');
    }
}

/// Recover the escaped text of a JSON string literal.
proof fn lemma_json_string_injective(x1: Seq<char>, x2: Seq<char>)
    requires
        json_string(x1) == json_string(x2),
    ensures
        x1 == x2,
{
    assert(json_string(x1).subrange(1, json_string(x1).len() - 1) =~= json_escaped(x1));
    assert(json_string(x2).subrange(1, json_string(x2).len() - 1) =~= json_escaped(x2));
    assert(json_escaped(x1) == json_escaped(x2));
    lemma_unescape_escape(x1);
    lemma_unescape_escape(x2);
}

/// Envelope encoding is injective: equal envelopes carry equal responses,
/// so an envelope decodes one way at most.
pub proof fn lemma_envelope_injective(m1: ResponseModel, m2: ResponseModel)
    requires
        envelope_json(m1) == envelope_json(m2),
    ensures
        m1 == m2,
{
    let w = envelope_json(m1);
    if m1 is Ok && m2 is Ok {
        let x1 = m1->Ok_0;
        let x2 = m2->Ok_0;
        assert(w.subrange(6, w.len() - 1) =~= json_string(x1));
        assert(w.subrange(6, w.len() - 1) =~= json_string(x2));
        lemma_json_string_injective(x1, x2);
    } else if m1 is Err && m2 is Err {
        let e1 = m1->Err_0;
        let e2 = m2->Err_0;
        assert(w[9] == variant_name(e1)[0] && w[10] == variant_name(e1)[1]);
        assert(w[9] == variant_name(e2)[0] && w[10] == variant_name(e2)[1]);
        assert(variant_name(e1) == variant_name(e2));
        let l = variant_name(e1).len() as int;
        assert(w.subrange(11 + l, w.len() - 2) =~= json_string(err_msg(e1)));
        assert(w.subrange(11 + l, w.len() - 2) =~= json_string(err_msg(e2)));
        lemma_json_string_injective(err_msg(e1), err_msg(e2));
    } else if m1 is Ok {
        lemma_envelope_exclusive(m1, m2);
    } else {
        lemma_envelope_exclusive(m2, m1);
    }
}

/// URL request bodies are injective: equal bodies carry equal targets.
pub proof fn lemma_url_body_injective(x1: Seq<char>, x2: Seq<char>)
    requires
        url_body_json(x1) == url_body_json(x2),
    ensures
        x1 == x2,
{
    let w = url_body_json(x1);
    assert(w.subrange(10, w.len() - 1) =~= json_string(x1));
    assert(w.subrange(10, w.len() - 1) =~= json_string(x2));
    lemma_json_string_injective(x1, x2);
}

} // verus!
