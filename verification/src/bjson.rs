//! The strict bounded JSON codec for the verifier wire protocol.
//!
//! This is deliberately not a general JSON library: the protocol carries flat
//! objects of strings and byte-hex fields only, and the decoder enforces that
//! shape with fixed limits: total length, nesting depth of exactly one object,
//! no numbers, no floats, no duplicates, no trailing garbage. Malformed input
//! fails closed into a named error.
use vstd::prelude::*;
use vstd::utf8::{decode_utf8, encode_utf8, valid_utf8};

use crate::text::{utf8_text, same_text, copy_range, skip_ws_back, lemma_lead_ws_bound, trim, lemma_encode_len, lemma_encode_concat, chars_of, push_char, push_text, is_white, lead_ws, trail_ws, skip_ws};

verus! {

/// Decoder/encoder failures. Deterministic, non-disciplinary.
#[derive(Debug, Clone, Copy, PartialEq, Eq)]
pub enum JsonError {
    /// The input exceeded the fixed size ceiling.
    TooLarge,
    /// The input is not a flat object of the allowed member kinds.
    Malformed(&'static str),
    /// A required member was absent or duplicated.
    Member(&'static str),
    /// A value violated its field's own bound.
    Value(&'static str),
}

/// The hard ceiling for any encoded object on the wire.
pub const MAX_WIRE: usize = 64 * 1024;
/// The member-count ceiling for any object.
pub const MAX_MEMBERS: usize = 32;
/// The string-value length ceiling (bytes, UTF-8).
pub const MAX_STRING: usize = 512;
/// The hex-value length ceiling (characters; two per byte).
pub const MAX_HEX: usize = 8192;

/// A decoded protocol value.
#[derive(Debug, Clone, PartialEq, Eq)]
pub enum Value {
    Str(String),
    Hex(Vec<u8>),
}

/// The mathematical content of a protocol value.
pub enum SpecValue {
    Str(Seq<char>),
    Hex(Seq<u8>),
}

impl View for Value {
    type V = SpecValue;

    open spec fn view(&self) -> SpecValue {
        match self {
            Value::Str(text) => SpecValue::Str(text@),
            Value::Hex(bytes) => SpecValue::Hex(bytes@),
        }
    }
}

/// One decoded member: its key's characters and its value.
pub type SpecMember = (Seq<char>, SpecValue);

/// The content of a decoded member list.
pub open spec fn members_view(members: Seq<(String, Value)>) -> Seq<SpecMember> {
    members.map_values(|member: (String, Value)| (member.0@, member.1@))
}

// ---------------------------------------------------------------------------
// The wire grammar, stated over the decoded characters.
// ---------------------------------------------------------------------------

/// The body of a string literal after its opening quote: the decoded content
/// and the number of characters consumed, closing quote included. Only the
/// escapes `\\` and `\"` exist; control characters are refused.
pub open spec fn str_body(s: Seq<char>) -> Option<(Seq<char>, nat)>
    decreases s.len(),
{
    if s.len() == 0 {
        None
    } else if s[0] == '"' {
        Some((Seq::<char>::empty(), 1nat))
    } else if s[0] == '\\' {
        if s.len() < 2 {
            None
        } else if s[1] == '\\' || s[1] == '"' {
            match str_body(s.skip(2)) {
                Some((content, n)) => Some((seq![s[1]] + content, n + 2)),
                None => None,
            }
        } else {
            None
        }
    } else if (s[0] as u32) < 0x20 {
        None
    } else {
        match str_body(s.skip(1)) {
            Some((content, n)) => Some((seq![s[0]] + content, n + 1)),
            None => None,
        }
    }
}

/// One string literal at the start of `s` whose content, UTF-8 encoded, fits
/// in `limit` bytes: the content and the characters consumed.
pub open spec fn spec_parse_string(s: Seq<char>, limit: nat) -> Option<(Seq<char>, nat)> {
    if s.len() > 0 && s[0] == '"' {
        match str_body(s.drop_first()) {
            Some((content, n)) => if encode_utf8(content).len() > limit {
                None
            } else {
                Some((content, n + 1))
            },
            None => None,
        }
    } else {
        None
    }
}


/// Shifts a string-body result by characters already consumed.
pub open spec fn lift_body(prefix: Seq<char>, k: nat, o: Option<(Seq<char>, nat)>) -> Option<(Seq<char>, nat)> {
    match o {
        Some((content, n)) => Some((prefix + content, n + k)),
        None => None,
    }
}

/// Parses one string literal starting at `t[start]`; returns the decoded
/// content and the index just past the closing quote. Escapes other than
/// `\\` and `\"` are rejected; control characters are rejected.
pub fn parse_string(t: &Vec<char>, start: usize, limit: usize) -> (r: Option<(String, usize)>)
    requires
        start <= t.len(),
        t.len() <= MAX_WIRE,
    ensures
        match spec_parse_string(t@.skip(start as int), limit as nat) {
            None => r is None,
            Some((content, n)) => r matches Some((s, e)) && s@ == content && e == start + n,
        },
{
    if start >= t.len() || t[start] != '"' {
        return None;
    }
    assert(t@.skip(start as int).drop_first() =~= t@.skip(start + 1));
    let mut out = String::new();
    let mut i = start + 1;
    assert(out@ + Seq::<char>::empty() =~= Seq::<char>::empty());
    loop
        invariant
            start + 1 <= i <= t.len(),
            t@[start as int] == '"',
            t.len() <= MAX_WIRE,
            out@.len() <= i - start - 1,
            t@.skip(start as int).drop_first() == t@.skip(start + 1),
            t@.skip(start as int).len() > 0 && t@.skip(start as int)[0] == '"',
            str_body(t@.skip(start + 1)) == lift_body(out@, (i - start - 1) as nat, str_body(t@.skip(i as int))),
        decreases t.len() - i,
    {
        if i >= t.len() {
            assert(t@.skip(i as int).len() == 0);
            return None;
        }
        let c = t[i];
        let ghost s = t@.skip(i as int);
        assert(s[0] == c);
        if c == '"' {
            assert(out@ + Seq::<char>::empty() =~= out@);
            proof {
                lemma_encode_len(out@);
            }
            if out.as_str().len() > limit {
                return None;
            }
            return Some((out, i + 1));
        }
        if c == '\\' {
            if i + 1 >= t.len() {
                return None;
            }
            let d = t[i + 1];
            assert(s[1] == d);
            if d == '\\' || d == '"' {
                proof {
                    assert(s.skip(2) =~= t@.skip(i + 2));
                    match str_body(t@.skip(i + 2)) {
                        Some((content, n)) => {
                            assert(out@.push(d) + content =~= out@ + (seq![d] + content));
                        },
                        None => {},
                    }
                }
                push_char(&mut out, d);
                i = i + 2;
                continue;
            } else {
                return None;
            }
        }
        if (c as u32) < 0x20 {
            return None;
        }
        proof {
            assert(s.skip(1) =~= t@.skip(i + 1));
            match str_body(t@.skip(i + 1)) {
                Some((content, n)) => {
                    assert(out@.push(c) + content =~= out@ + (seq![c] + content));
                },
                None => {},
            }
        }
        push_char(&mut out, c);
        i = i + 1;
    }
}

/// A string literal never consumes more characters than its input holds.
pub broadcast proof fn lemma_str_body_bound(s: Seq<char>)
    ensures
        #[trigger] str_body(s) matches Some((content, n)) ==> 1 <= n <= s.len() && content.len()
            < n,
    decreases s.len(),
{
    if s.len() > 0 && s[0] != '"' {
        if s[0] == '\\' {
            if s.len() >= 2 {
                lemma_str_body_bound(s.skip(2));
            }
        } else {
            lemma_str_body_bound(s.skip(1));
        }
    }
}

pub broadcast proof fn lemma_parse_string_bound(s: Seq<char>, limit: nat)
    ensures
        #[trigger] spec_parse_string(s, limit) matches Some((content, n)) ==> 2 <= n <= s.len()
            && content.len() < n,
{
    if s.len() > 0 {
        lemma_str_body_bound(s.drop_first());
    }
}

/// Whether a key names a byte-hex member.
pub open spec fn ends_with_hex(key: Seq<char>) -> bool {
    &&& key.len() >= 4
    &&& key[key.len() - 4] == '_'
    &&& key[key.len() - 3] == 'h'
    &&& key[key.len() - 2] == 'e'
    &&& key[key.len() - 1] == 'x'
}

/// The content ceiling for the value of `key`.
pub open spec fn value_limit(key: Seq<char>) -> nat {
    if ends_with_hex(key) {
        MAX_HEX as nat
    } else {
        MAX_STRING as nat
    }
}

/// The value of one lowercase hex digit.
pub open spec fn nibble_of(c: char) -> Option<u8> {
    let v = c as u32;
    if 0x30 <= v <= 0x39 {
        Some((v - 0x30) as u8)
    } else if 0x61 <= v <= 0x66 {
        Some((v - 0x61 + 10) as u8)
    } else {
        None
    }
}

/// Every character is a lowercase hex digit.
pub open spec fn is_hex_text(raw: Seq<char>) -> bool {
    forall|i: int| 0 <= i < raw.len() ==> (#[trigger] nibble_of(raw[i])) is Some
}

/// The bytes spelled by pairs of hex digits.
pub open spec fn hex_decode(raw: Seq<char>) -> Seq<u8>
    decreases raw.len(),
{
    if raw.len() < 2 {
        Seq::<u8>::empty()
    } else {
        seq![(nibble_of(raw[0]).unwrap() * 16 + nibble_of(raw[1]).unwrap()) as u8] + hex_decode(
            raw.skip(2),
        )
    }
}

/// The value a member with this key and raw content decodes to.
pub open spec fn spec_member_value(key: Seq<char>, raw: Seq<char>) -> Result<SpecValue, JsonError> {
    if ends_with_hex(key) {
        let length = encode_utf8(raw).len();
        if length > MAX_HEX || length % 2 != 0 {
            Err(JsonError::Value("hex length"))
        } else if !is_hex_text(raw) {
            Err(JsonError::Value("hex digit"))
        } else {
            Ok(SpecValue::Hex(hex_decode(raw)))
        }
    } else {
        Ok(SpecValue::Str(raw))
    }
}

/// Some member already carries `key`.
pub open spec fn has_key(members: Seq<SpecMember>, key: Seq<char>) -> bool {
    exists|i: int| 0 <= i < members.len() && (#[trigger] members[i]).0 == key
}

/// The members of an object body `s` (starting at a key), appended to `acc`.
pub open spec fn parse_members(s: Seq<char>, acc: Seq<SpecMember>) -> Result<
    Seq<SpecMember>,
    JsonError,
>
    decreases s.len(),
    via parse_members_decreases
{
    let r = s.skip(lead_ws(s) as int);
    match spec_parse_string(r, MAX_STRING as nat) {
        None => Err(JsonError::Malformed("member key")),
        Some((key, n)) => {
            let a0 = r.skip(n as int);
            let a = a0.skip(lead_ws(a0) as int);
            if a.len() == 0 || a[0] != ':' {
                Err(JsonError::Malformed("separator"))
            } else {
                let b0 = a.drop_first();
                let b = b0.skip(lead_ws(b0) as int);
                match spec_parse_string(b, value_limit(key)) {
                    None => Err(JsonError::Malformed("member value")),
                    Some((raw, m)) => match spec_member_value(key, raw) {
                        Err(e) => Err(e),
                        Ok(v) => if has_key(acc, key) {
                            Err(JsonError::Member("duplicate"))
                        } else if acc.len() + 1 > MAX_MEMBERS {
                            Err(JsonError::Member("too many"))
                        } else {
                            let c0 = b.skip(m as int);
                            let c = c0.skip(lead_ws(c0) as int);
                            if c.len() > 0 && c[0] == ',' {
                                parse_members(c.drop_first(), acc.push((key, v)))
                            } else if c.len() == 0 {
                                Ok(acc.push((key, v)))
                            } else {
                                Err(JsonError::Malformed("trailing content"))
                            }
                        },
                    },
                }
            }
        },
    }
}

#[via_fn]
proof fn parse_members_decreases(s: Seq<char>, acc: Seq<SpecMember>) {
    broadcast use lemma_lead_ws_bound, lemma_parse_string_bound;

}

/// The members of one flat object held in the characters `t`.
pub open spec fn spec_decode_text(t: Seq<char>) -> Result<Seq<SpecMember>, JsonError> {
    let a = t.skip(lead_ws(t) as int);
    if a.len() == 0 || a[0] != '{' {
        Err(JsonError::Malformed("not an object"))
    } else {
        let b = a.drop_first();
        if b.len() == 0 || b.last() != '}' {
            Err(JsonError::Malformed("unterminated object"))
        } else {
            let u = trim(b.drop_last());
            if u.len() == 0 {
                Ok(Seq::<SpecMember>::empty())
            } else {
                parse_members(u, Seq::<SpecMember>::empty())
            }
        }
    }
}

/// What `decode_object` returns for `bytes`.
pub open spec fn spec_decode(bytes: Seq<u8>) -> Result<Seq<SpecMember>, JsonError> {
    if bytes.len() > MAX_WIRE {
        Err(JsonError::TooLarge)
    } else if !valid_utf8(bytes) {
        Err(JsonError::Malformed("utf-8"))
    } else {
        spec_decode_text(decode_utf8(bytes))
    }
}

/// The value of one lowercase hex digit.
pub fn nibble(c: char) -> (r: Option<u8>)
    ensures
        r == nibble_of(c),
{
    let v = c as u32;
    if 0x30 <= v && v <= 0x39 {
        Some((v - 0x30) as u8)
    } else if 0x61 <= v && v <= 0x66 {
        Some((v - 0x61 + 10) as u8)
    } else {
        None
    }
}

/// Whether `key` names a byte-hex member.
fn key_is_hex(key: &String) -> (r: bool)
    ensures
        r == ends_with_hex(key@),
{
    let k = chars_of(key.as_str());
    let n = k.len();
    n >= 4 && k[n - 4] == '_' && k[n - 3] == 'h' && k[n - 2] == 'e' && k[n - 1] == 'x'
}

/// Decodes the value of a member whose key is `key`.
fn member_value(key: &String, raw: String) -> (r: Result<Value, JsonError>)
    requires
        raw@.len() <= MAX_WIRE,
    ensures
        match spec_member_value(key@, raw@) {
            Ok(v) => r matches Ok(value) && value@ == v,
            Err(e) => r == Err::<Value, JsonError>(e),
        },
{
    if !key_is_hex(key) {
        return Ok(Value::Str(raw));
    }
    proof {
        lemma_encode_len(raw@);
    }
    let length = raw.as_str().len();
    if length > MAX_HEX || length % 2 != 0 {
        return Err(JsonError::Value("hex length"));
    }
    let digits = chars_of(raw.as_str());
    let mut decoded: Vec<u8> = Vec::new();
    let mut i: usize = 0;
    // Every digit must be valid; the first failure decides.
    while i < digits.len()
        invariant
            digits@ == raw@,
            i <= digits.len(),
            forall|j: int| 0 <= j < i ==> (#[trigger] nibble_of(digits@[j])) is Some,
            ends_with_hex(key@),
            length == encode_utf8(raw@).len(),
            length <= MAX_HEX,
            length % 2 == 0,
        decreases digits.len() - i,
    {
        if nibble(digits[i]).is_none() {
            assert(nibble_of(raw@[i as int]) is None);
            assert(!is_hex_text(raw@));
            assert(length == encode_utf8(raw@).len());
            return Err(JsonError::Value("hex digit"));
        }
        i = i + 1;
    }
    assert(is_hex_text(raw@));
    proof {
        lemma_hex_text_even(raw@);
    }
    let mut i: usize = 0;
    assert(raw@.skip(0) =~= raw@);
    assert(decoded@ + hex_decode(raw@.skip(0)) =~= hex_decode(raw@));
    while i + 1 < digits.len()
        invariant
            digits@ == raw@,
            is_hex_text(raw@),
            digits.len() % 2 == 0,
            i <= digits.len(),
            i % 2 == 0,
            hex_decode(raw@) == decoded@ + hex_decode(raw@.skip(i as int)),
        decreases digits.len() - i,
    {
        let high = nibble(digits[i]).unwrap();
        let low = nibble(digits[i + 1]).unwrap();
        proof {
            assert(nibble_of(digits@[i as int]) is Some);
            assert(nibble_of(digits@[i + 1]) is Some);
            let rest = raw@.skip(i as int);
            assert(rest[0] == digits@[i as int]);
            assert(rest[1] == digits@[i + 1]);
            assert(rest.skip(2) =~= raw@.skip(i + 2));
        }
        decoded.push(high * 16 + low);
        i = i + 2;
        proof {
            let b = (nibble_of(digits@[i - 2]).unwrap() * 16 + nibble_of(digits@[i - 1]).unwrap()) as u8;
            assert(decoded@ + hex_decode(raw@.skip(i as int)) =~= (decoded@.drop_last() + seq![b]) + hex_decode(raw@.skip(i as int)));
            assert(decoded@.drop_last() + (seq![b] + hex_decode(raw@.skip(i as int))) =~= (decoded@.drop_last() + seq![b]) + hex_decode(raw@.skip(i as int)));
        }
    }
    assert(raw@.skip(i as int).len() == 0);
    assert(decoded@ + hex_decode(raw@.skip(i as int)) =~= decoded@);
    Ok(Value::Hex(decoded))
}

/// A text of hex digits is ASCII, so its byte length is its length.
pub proof fn lemma_hex_text_even(raw: Seq<char>)
    requires
        is_hex_text(raw),
    ensures
        encode_utf8(raw).len() == raw.len(),
    decreases raw.len(),
{
    if raw.len() > 0 {
        assert(nibble_of(raw[0]) is Some);
        assert forall|i: int| 0 <= i < raw.drop_first().len() implies (#[trigger] nibble_of(
            raw.drop_first()[i],
        )) is Some by {
            assert(nibble_of(raw[i + 1]) is Some);
        }
        lemma_hex_text_even(raw.drop_first());
    }
}

/// Whether some member already carries `key`.
fn holds_key(members: &Vec<(String, Value)>, key: &String) -> (r: bool)
    ensures
        r == has_key(members_view(members@), key@),
{
    let mut j: usize = 0;
    while j < members.len()
        invariant
            j <= members.len(),
            forall|i: int| 0 <= i < j ==> (#[trigger] members@[i]).0@ != key@,
        decreases members.len() - j,
    {
        if members[j].0 == *key {
            assert(members_view(members@)[j as int].0 == key@);
            return true;
        }
        j = j + 1;
    }
    assert forall|i: int| 0 <= i < members_view(members@).len() implies (
    #[trigger] members_view(members@)[i]).0 != key@ by {
        assert(members@[i].0@ != key@);
    }
    false
}

/// Decodes one flat JSON object into ordered (key, value) pairs.
/// The only permitted shapes are `"key":"string"` and
/// `"key":"<lowercase hex>"` for keys ending in `_hex`.
#[verifier::rlimit(80)]
pub fn decode_object(bytes: &[u8]) -> (r: Result<Vec<(String, Value)>, JsonError>)
    ensures
        match spec_decode(bytes@) {
            Ok(ms) => r matches Ok(members) && members_view(members@) == ms,
            Err(e) => r == Err::<Vec<(String, Value)>, JsonError>(e),
        },
{
    if bytes.len() > MAX_WIRE {
        return Err(JsonError::TooLarge);
    }
    let text = match utf8_text(bytes) {
        Some(text) => text,
        None => return Err(JsonError::Malformed("utf-8")),
    };
    proof {
        vstd::utf8::encode_utf8_decode_utf8(text@);
        lemma_encode_len(text@);
    }
    let t = chars_of(text);
    assert(t@ == decode_utf8(bytes@));
    let ghost tv = t@;
    assert(tv.skip(0) =~= tv);
    let a = skip_ws(&t, 0);
    if a >= t.len() || t[a] != '{' {
        return Err(JsonError::Malformed("not an object"));
    }
    assert(tv.skip(a as int).drop_first() =~= tv.skip(a + 1));
    if a + 1 >= t.len() || t[t.len() - 1] != '}' {
        return Err(JsonError::Malformed("unterminated object"));
    }
    let inner = copy_range(&t, a + 1, t.len() - 1);
    assert(tv.skip(a + 1).drop_last() =~= inner@);
    assert(inner@.skip(0) =~= inner@);
    let lo = skip_ws(&inner, 0);
    let x = copy_range(&inner, lo, inner.len());
    assert(x@ =~= inner@.skip(lo as int));
    assert(x@.take(x.len() as int) =~= x@);
    let hi = skip_ws_back(&x, x.len());
    let u = copy_range(&x, 0, hi);
    assert(u@ =~= x@.take(hi as int));
    assert(u@ == trim(inner@));
    let mut members: Vec<(String, Value)> = Vec::new();
    if u.len() == 0 {
        assert(members_view(members@) =~= Seq::<SpecMember>::empty());
        return Ok(members);
    }
    let mut pos: usize = 0;
    assert(u@.skip(0) =~= u@);
    assert(members_view(members@) =~= Seq::<SpecMember>::empty());
    loop
        invariant
            spec_decode(bytes@) == parse_members(u@.skip(pos as int), members_view(members@)),
            pos <= u.len(),
            u.len() <= MAX_WIRE,
            members.len() <= MAX_MEMBERS,
        decreases u.len() - pos,
    {
        let ghost s = u@.skip(pos as int);
        let r0 = skip_ws(&u, pos);
        assert(s.skip(lead_ws(s) as int) =~= u@.skip(r0 as int));
        let (key, e1) = match parse_string(&u, r0, MAX_STRING) {
            Some(found) => found,
            None => return Err(JsonError::Malformed("member key")),
        };
        proof {
            lemma_parse_string_bound(u@.skip(r0 as int), MAX_STRING as nat);
            assert(u@.skip(r0 as int).skip(e1 - r0) =~= u@.skip(e1 as int));
        }
        let a0 = skip_ws(&u, e1);
        assert(u@.skip(e1 as int).skip(lead_ws(u@.skip(e1 as int)) as int) =~= u@.skip(a0 as int));
        if a0 >= u.len() || u[a0] != ':' {
            return Err(JsonError::Malformed("separator"));
        }
        assert(u@.skip(a0 as int).drop_first() =~= u@.skip(a0 + 1));
        let b0 = skip_ws(&u, a0 + 1);
        assert(u@.skip(a0 + 1).skip(lead_ws(u@.skip(a0 + 1)) as int) =~= u@.skip(b0 as int));
        let limit = if key_is_hex(&key) {
            MAX_HEX
        } else {
            MAX_STRING
        };
        let (raw, e2) = match parse_string(&u, b0, limit) {
            Some(found) => found,
            None => return Err(JsonError::Malformed("member value")),
        };
        proof {
            lemma_parse_string_bound(u@.skip(b0 as int), limit as nat);
            assert(u@.skip(b0 as int).skip(e2 - b0) =~= u@.skip(e2 as int));
        }
        let value = match member_value(&key, raw) {
            Ok(value) => value,
            Err(error) => return Err(error),
        };
        if holds_key(&members, &key) {
            return Err(JsonError::Member("duplicate"));
        }
        let ghost before = members@;
        members.push((key, value));
        assert(members_view(members@) =~= members_view(before).push((key@, value@)));
        if members.len() > MAX_MEMBERS {
            return Err(JsonError::Member("too many"));
        }
        let c0 = skip_ws(&u, e2);
        assert(u@.skip(e2 as int).skip(lead_ws(u@.skip(e2 as int)) as int) =~= u@.skip(c0 as int));
        if c0 < u.len() && u[c0] == ',' {
            assert(u@.skip(c0 as int).drop_first() =~= u@.skip(c0 + 1));
            pos = c0 + 1;
            continue;
        }
        if c0 == u.len() {
            return Ok(members);
        }
        return Err(JsonError::Malformed("trailing content"));
    }
}

/// The escaped form of one character inside a string literal.
pub open spec fn escape_char(c: char) -> Seq<char> {
    if c == '\\' {
        seq!['\\', '\\']
    } else if c == '"' {
        seq!['\\', '"']
    } else {
        seq![c]
    }
}

/// `s` with every backslash and quote escaped.
pub open spec fn escape_spec(s: Seq<char>) -> Seq<char>
    decreases s.len(),
{
    if s.len() == 0 {
        Seq::<char>::empty()
    } else {
        escape_spec(s.drop_last()) + escape_char(s.last())
    }
}

/// The lowercase hex digit for a value below sixteen.
pub open spec fn hex_digit(n: u8) -> char {
    if n < 10 {
        ((0x30 + n) as u8) as char
    } else {
        ((0x61 + n - 10) as u8) as char
    }
}

/// Two lowercase hex digits per byte.
pub open spec fn hex_text(b: Seq<u8>) -> Seq<char>
    decreases b.len(),
{
    if b.len() == 0 {
        Seq::<char>::empty()
    } else {
        hex_text(b.drop_last()) + seq![hex_digit(b.last() / 16), hex_digit(b.last() % 16)]
    }
}

/// The text of one value inside its quotes.
pub open spec fn value_text(v: SpecValue) -> Seq<char> {
    match v {
        SpecValue::Str(s) => escape_spec(s),
        SpecValue::Hex(b) => hex_text(b),
    }
}

/// The text of one member: `"key":"value"`.
pub open spec fn member_text(m: SpecMember) -> Seq<char> {
    seq!['"'] + escape_spec(m.0) + seq!['"', ':', '"'] + value_text(m.1) + seq!['"']
}

/// The members' texts separated by commas.
pub open spec fn members_text(ms: Seq<SpecMember>) -> Seq<char>
    decreases ms.len(),
{
    if ms.len() == 0 {
        Seq::<char>::empty()
    } else if ms.len() == 1 {
        member_text(ms[0])
    } else {
        members_text(ms.drop_last()) + seq![','] + member_text(ms.last())
    }
}

/// The encoding of a flat object.
pub open spec fn encode_spec(ms: Seq<SpecMember>) -> Seq<char> {
    seq!['{'] + members_text(ms) + seq!['}']
}

/// The content of an encoder input.
pub open spec fn input_view(members: Seq<(&str, Value)>) -> Seq<SpecMember> {
    members.map_values(|member: (&str, Value)| (member.0@, member.1@))
}

/// Appends `text` to `out` with backslashes and quotes escaped.
fn push_escaped(out: &mut String, text: &str)
    ensures
        final(out)@ == old(out)@ + escape_spec(text@),
{
    let chars = chars_of(text);
    let mut i: usize = 0;
    assert(text@.take(0) =~= Seq::<char>::empty());
    assert(out@ + escape_spec(Seq::<char>::empty()) =~= out@);
    while i < chars.len()
        invariant
            chars@ == text@,
            i <= chars.len(),
            out@ == old(out)@ + escape_spec(text@.take(i as int)),
        decreases chars.len() - i,
    {
        let c = chars[i];
        assert(text@.take(i + 1).drop_last() =~= text@.take(i as int));
        if c == '\\' {
            push_char(out, '\\');
            push_char(out, '\\');
        } else if c == '"' {
            push_char(out, '\\');
            push_char(out, '"');
        } else {
            push_char(out, c);
        }
        i = i + 1;
        assert(out@ =~= old(out)@ + escape_spec(text@.take(i as int)));
    }
    assert(text@.take(i as int) =~= text@);
}

/// `text` with every backslash and quote escaped.
pub fn escape(text: &str) -> (r: String)
    ensures
        r@ == escape_spec(text@),
{
    let mut out = String::new();
    push_escaped(&mut out, text);
    assert(out@ =~= escape_spec(text@));
    out
}

/// The lowercase hex digit for a value below sixteen.
fn digit(n: u8) -> (c: char)
    requires
        n < 16,
    ensures
        c == hex_digit(n),
{
    if n < 10 {
        (0x30 + n) as char
    } else {
        (0x61 + n - 10) as char
    }
}

/// Appends two lowercase hex digits per byte.
fn push_hex(out: &mut String, bytes: &Vec<u8>)
    ensures
        final(out)@ == old(out)@ + hex_text(bytes@),
{
    let mut i: usize = 0;
    assert(bytes@.take(0) =~= Seq::<u8>::empty());
    assert(out@ + hex_text(Seq::<u8>::empty()) =~= out@);
    while i < bytes.len()
        invariant
            i <= bytes.len(),
            out@ == old(out)@ + hex_text(bytes@.take(i as int)),
        decreases bytes.len() - i,
    {
        let b = bytes[i];
        assert(bytes@.take(i + 1).drop_last() =~= bytes@.take(i as int));
        push_char(out, digit(b / 16));
        push_char(out, digit(b % 16));
        i = i + 1;
        assert(out@ =~= old(out)@ + hex_text(bytes@.take(i as int)));
    }
    assert(bytes@.take(i as int) =~= bytes@);
}

/// Encodes one flat object of string/hex members.
pub fn encode_object(members: &[(&str, Value)]) -> (r: String)
    ensures
        r@ == encode_spec(input_view(members@)),
{
    let mut output = String::new();
    push_char(&mut output, '{');
    let mut index: usize = 0;
    assert(input_view(members@).take(0) =~= Seq::<SpecMember>::empty());
    while index < members.len()
        invariant
            index <= members.len(),
            output@ == seq!['{'] + members_text(input_view(members@).take(index as int)),
        decreases members.len() - index,
    {
        let ghost before = output@;
        let (key, value) = &members[index];
        if index > 0 {
            push_char(&mut output, ',');
        }
        push_char(&mut output, '"');
        let escaped_key = escape(key);
        push_text(&mut output, escaped_key.as_str());
        push_char(&mut output, '"');
        push_char(&mut output, ':');
        push_char(&mut output, '"');
        match value {
            Value::Str(text) => push_escaped(&mut output, text.as_str()),
            Value::Hex(bytes) => push_hex(&mut output, bytes),
        }
        push_char(&mut output, '"');
        proof {
            let ms = input_view(members@);
            let m = ms[index as int];
            assert(m == (key@, value@));
            assert(ms.take(index + 1).drop_last() =~= ms.take(index as int));
            assert(ms.take(index + 1).last() == m);
            if index == 0 {
                assert(output@ =~= seq!['{'] + member_text(m));
            } else {
                assert(output@ =~= seq!['{'] + (members_text(ms.take(index as int)) + seq![',']
                    + member_text(m)));
            }
        }
        index = index + 1;
    }
    push_char(&mut output, '}');
    assert(input_view(members@).take(index as int) =~= input_view(members@));
    output
}

/// The first index at or after `i` whose member carries `key`.
pub open spec fn find_key(ms: Seq<SpecMember>, key: Seq<char>, i: int) -> Option<int>
    decreases ms.len() - i,
{
    if i < 0 || i >= ms.len() {
        None
    } else if ms[i].0 == key {
        Some(i)
    } else {
        find_key(ms, key, i + 1)
    }
}

/// The index of the first member carrying `key`.
fn first_index(members: &[(String, Value)], key: &str) -> (r: Option<usize>)
    ensures
        r is None <==> find_key(members_view(members@), key@, 0) is None,
        r matches Some(j) ==> j < members.len() && find_key(members_view(members@), key@, 0) == Some(
            j as int,
        ),
{
    let mut j: usize = 0;
    while j < members.len()
        invariant
            j <= members.len(),
            find_key(members_view(members@), key@, 0) == find_key(members_view(members@), key@, j as int),
            members_view(members@).len() == members.len(),
        decreases members.len() - j,
    {
        assert(members_view(members@)[j as int].0 == members@[j as int].0@);
        if same_text(members[j].0.as_str(), key) {
            return Some(j);
        }
        j = j + 1;
    }
    None
}

/// What `require_str` returns for the members `ms` and the key `key`.
pub open spec fn spec_require_str(ms: Seq<SpecMember>, key: Seq<char>) -> Result<Seq<char>, JsonError> {
    match find_key(ms, key, 0) {
        None => Err(JsonError::Member("missing member")),
        Some(i) => match ms[i].1 {
            SpecValue::Str(text) => Ok(text),
            SpecValue::Hex(_) => Err(JsonError::Value("wrong member kind")),
        },
    }
}

/// What `require_hex` returns for the members `ms` and the key `key`.
pub open spec fn spec_require_hex(ms: Seq<SpecMember>, key: Seq<char>) -> Result<Seq<u8>, JsonError> {
    match find_key(ms, key, 0) {
        None => Err(JsonError::Member("missing member")),
        Some(i) => match ms[i].1 {
            SpecValue::Hex(bytes) => Ok(bytes),
            SpecValue::Str(_) => Err(JsonError::Value("wrong member kind")),
        },
    }
}

/// Extracts exactly one string member.
pub fn require_str<'a>(members: &'a [(String, Value)], key: &str) -> (r: Result<&'a str, JsonError>)
    ensures
        match spec_require_str(members_view(members@), key@) {
            Ok(text) => r matches Ok(found) && found@ == text,
            Err(e) => r == Err::<&str, JsonError>(e),
        },
{
    match first_index(members, key) {
        None => Err(JsonError::Member("missing member")),
        Some(j) => {
            assert(members_view(members@)[j as int] == (members@[j as int].0@, members@[j as int].1@));
            match &members[j].1 {
                Value::Str(text) => {
                    assert(members@[j as int].1@ == SpecValue::Str(text@));
                    let found = text.as_str();
                    assert(found@ == text@);
                    Ok(found)
                },
                Value::Hex(bytes) => {
                    assert(members@[j as int].1@ == SpecValue::Hex(bytes@));
                    Err(JsonError::Value("wrong member kind"))
                },
            }
        },
    }
}

/// Extracts exactly one hex member.
pub fn require_hex<'a>(members: &'a [(String, Value)], key: &str) -> (r: Result<&'a [u8], JsonError>)
    ensures
        match spec_require_hex(members_view(members@), key@) {
            Ok(bytes) => r matches Ok(found) && found@ == bytes,
            Err(e) => r == Err::<&[u8], JsonError>(e),
        },
{
    match first_index(members, key) {
        None => Err(JsonError::Member("missing member")),
        Some(j) => {
            assert(members_view(members@)[j as int] == (members@[j as int].0@, members@[j as int].1@));
            match &members[j].1 {
                Value::Hex(bytes) => Ok(bytes.as_slice()),
                Value::Str(_) => Err(JsonError::Value("wrong member kind")),
            }
        },
    }
}

/// The text that `message` returns for an error.
pub open spec fn error_message(e: JsonError) -> Seq<char> {
    match e {
        JsonError::TooLarge => "request body exceeds the protocol ceiling"@,
        JsonError::Malformed(detail) => "malformed protocol object: "@ + detail@,
        JsonError::Member(detail) => "protocol member error: "@ + detail@,
        JsonError::Value(detail) => "protocol value error: "@ + detail@,
    }
}

impl JsonError {
    /// The human-readable description of this error.
    pub fn message(&self) -> (r: String)
        ensures
            r@ == error_message(*self),
    {
        let mut out = String::new();
        match self {
            JsonError::TooLarge => push_text(&mut out, "request body exceeds the protocol ceiling"),
            JsonError::Malformed(detail) => {
                push_text(&mut out, "malformed protocol object: ");
                push_text(&mut out, detail);
            },
            JsonError::Member(detail) => {
                push_text(&mut out, "protocol member error: ");
                push_text(&mut out, detail);
            },
            JsonError::Value(detail) => {
                push_text(&mut out, "protocol value error: ");
                push_text(&mut out, detail);
            },
        }
        assert(out@ =~= error_message(*self));
        out
    }
}

} // verus!
