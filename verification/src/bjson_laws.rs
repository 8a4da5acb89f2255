//! What the flat-object codec promises across its two directions.
use vstd::prelude::*;
use vstd::utf8::{encode_utf8, valid_utf8, decode_utf8};

use crate::bjson::{SpecMember, SpecValue, MAX_STRING, MAX_HEX, MAX_MEMBERS, MAX_WIRE, JsonError, ends_with_hex, escape_spec, escape_char, str_body, hex_text, hex_digit, hex_decode, nibble_of, spec_parse_string, parse_members, spec_decode, spec_decode_text, encode_spec, members_text, member_text, value_text, spec_member_value, has_key, value_limit, is_hex_text, lemma_hex_text_even};
use crate::text::{is_white, lead_ws, trail_ws, trim, trim_start, lemma_lead_ws_bound, lemma_trail_ws_bound, lemma_encode_concat};

verus! {

/// No character of `s` is a control character.
pub open spec fn plain_text(s: Seq<char>) -> bool {
    forall|i: int| 0 <= i < s.len() ==> (#[trigger] s[i] as u32) >= 0x20
}

/// A member that the decoder accepts back exactly as it was encoded.
pub open spec fn encodable_member(m: SpecMember) -> bool {
    &&& plain_text(m.0)
    &&& encode_utf8(m.0).len() <= MAX_STRING
    &&& match m.1 {
        SpecValue::Str(text) => {
            &&& !ends_with_hex(m.0)
            &&& plain_text(text)
            &&& encode_utf8(text).len() <= MAX_STRING
        },
        SpecValue::Hex(bytes) => {
            &&& ends_with_hex(m.0)
            &&& 2 * bytes.len() <= MAX_HEX
        },
    }
}

/// A member list that the decoder accepts back exactly as it was encoded:
/// bounded, each member encodable, and no key repeated.
pub open spec fn encodable(ms: Seq<SpecMember>) -> bool {
    &&& ms.len() <= MAX_MEMBERS
    &&& forall|i: int| 0 <= i < ms.len() ==> encodable_member(#[trigger] ms[i])
    &&& forall|i: int, j: int| 0 <= i < j < ms.len() ==> (#[trigger] ms[i]).0 != (#[trigger] ms[j]).0
}

proof fn lemma_escape_concat(a: Seq<char>, b: Seq<char>)
    ensures
        escape_spec(a + b) == escape_spec(a) + escape_spec(b),
    decreases b.len(),
{
    if b.len() == 0 {
        assert(a + b =~= a);
        assert(escape_spec(a) + escape_spec(b) =~= escape_spec(a));
    } else {
        assert((a + b).drop_last() =~= a + b.drop_last());
        assert((a + b).last() == b.last());
        lemma_escape_concat(a, b.drop_last());
        assert(escape_spec(a + b) =~= escape_spec(a) + escape_spec(b));
    }
}

/// The escaped form of `x` read front to back.
proof fn lemma_escape_first(x: Seq<char>)
    requires
        x.len() > 0,
    ensures
        escape_spec(x) == escape_char(x[0]) + escape_spec(x.drop_first()),
{
    assert(x =~= seq![x[0]] + x.drop_first());
    lemma_escape_concat(seq![x[0]], x.drop_first());
    assert(seq![x[0]].drop_last() =~= Seq::<char>::empty());
    assert(escape_spec(Seq::<char>::empty()) =~= Seq::<char>::empty());
    assert(escape_spec(seq![x[0]]) == escape_spec(seq![x[0]].drop_last()) + escape_char(x[0]));
    assert(escape_spec(seq![x[0]]) =~= escape_char(x[0]));
}

/// A string literal reads back the text that was escaped into it.
proof fn lemma_read_escaped(x: Seq<char>, rest: Seq<char>)
    requires
        plain_text(x),
    ensures
        str_body(escape_spec(x) + seq!['"'] + rest) == Some((x, escape_spec(x).len() + 1)),
    decreases x.len(),
{
    let s = escape_spec(x) + seq!['"'] + rest;
    if x.len() == 0 {
        assert(escape_spec(x) =~= Seq::<char>::empty());
        assert(s[0] == '"');
        assert(x =~= Seq::<char>::empty());
    } else {
        lemma_escape_first(x);
        let c = x[0];
        let tail = x.drop_first();
        assert(plain_text(tail)) by {
            assert forall|i: int| 0 <= i < tail.len() implies (#[trigger] tail[i] as u32) >= 0x20 by {
                assert(tail[i] == x[i + 1]);
            }
        }
        lemma_read_escaped(tail, rest);
        assert((c as u32) >= 0x20);
        let e = escape_char(c);
        assert(s =~= e + (escape_spec(tail) + seq!['"'] + rest));
        assert(s.skip(e.len() as int) =~= escape_spec(tail) + seq!['"'] + rest);
        assert(seq![c] + tail =~= x);
    }
}

/// Text without backslashes and quotes escapes to itself.
proof fn lemma_escape_identity(x: Seq<char>)
    requires
        forall|i: int| 0 <= i < x.len() ==> #[trigger] x[i] != '\\' && x[i] != '"',
    ensures
        escape_spec(x) == x,
    decreases x.len(),
{
    if x.len() > 0 {
        lemma_escape_identity(x.drop_last());
        assert(escape_spec(x) =~= x);
    }
}

proof fn lemma_hex_digit(n: u8)
    requires
        n < 16,
    ensures
        nibble_of(hex_digit(n)) == Some(n),
        hex_digit(n) != '\\',
        hex_digit(n) != '"',
        (hex_digit(n) as u32) >= 0x20,
{
    if n < 10 {
        let b = (0x30 + n) as u8;
        assert((b as char) as u32 == b as u32);
    } else {
        let b = (0x61 + n - 10) as u8;
        assert((b as char) as u32 == b as u32);
    }
}

/// Two hex digits per byte: every character is a digit, and they read back.
proof fn lemma_hex_text(b: Seq<u8>)
    ensures
        hex_text(b).len() == 2 * b.len(),
        forall|i: int| 0 <= i < hex_text(b).len() ==> {
            &&& (#[trigger] nibble_of(hex_text(b)[i])) is Some
            &&& hex_text(b)[i] != '\\'
            &&& hex_text(b)[i] != '"'
            &&& (hex_text(b)[i] as u32) >= 0x20
        },
        hex_decode(hex_text(b)) == b,
    decreases b.len(),
{
    if b.len() > 0 {
        let front = b.drop_last();
        let last = b.last();
        lemma_hex_text(front);
        lemma_hex_digit(last / 16);
        lemma_hex_digit(last % 16);
        let pair = seq![hex_digit(last / 16), hex_digit(last % 16)];
        assert(hex_text(b) == hex_text(front) + pair);
        assert forall|i: int| 0 <= i < hex_text(b).len() implies {
            &&& (#[trigger] nibble_of(hex_text(b)[i])) is Some
            &&& hex_text(b)[i] != '\\'
            &&& hex_text(b)[i] != '"'
            &&& (hex_text(b)[i] as u32) >= 0x20
        } by {
            if i < hex_text(front).len() {
                assert(hex_text(b)[i] == hex_text(front)[i]);
                assert(nibble_of(hex_text(front)[i]) is Some);
            } else {
                assert(hex_text(b)[i] == pair[i - hex_text(front).len()]);
            }
        }
        lemma_hex_decode_concat(hex_text(front), pair);
        assert(pair.skip(2) =~= Seq::<char>::empty());
        assert(hex_decode(Seq::<char>::empty()) =~= Seq::<u8>::empty());
        assert(pair[0] == hex_digit(last / 16));
        assert(pair[1] == hex_digit(last % 16));
        assert(hex_decode(pair) =~= seq![((last / 16) * 16 + last % 16) as u8]);
        assert(((last / 16) * 16 + last % 16) as u8 == last);
        assert(b =~= front + seq![last]);
    }
}

proof fn lemma_hex_decode_concat(x: Seq<char>, y: Seq<char>)
    requires
        x.len() % 2 == 0,
    ensures
        hex_decode(x + y) == hex_decode(x) + hex_decode(y),
    decreases x.len(),
{
    if x.len() == 0 {
        assert(x + y =~= y);
        assert(hex_decode(x) + hex_decode(y) =~= hex_decode(y));
    } else {
        assert((x + y).skip(2) =~= x.skip(2) + y);
        lemma_hex_decode_concat(x.skip(2), y);
        assert((x + y)[0] == x[0]);
        assert((x + y)[1] == x[1]);
        assert(hex_decode(x + y) =~= hex_decode(x) + hex_decode(y));
    }
}

/// The member list's text read front to back.
proof fn lemma_members_text_first(ms: Seq<SpecMember>)
    requires
        ms.len() >= 2,
    ensures
        members_text(ms) == member_text(ms[0]) + seq![','] + members_text(ms.drop_first()),
    decreases ms.len(),
{
    if ms.len() == 2 {
        assert(ms.drop_last().len() == 1);
        assert(ms.drop_first().len() == 1);
        assert(members_text(ms.drop_first()) == member_text(ms.drop_first()[0]));
        assert(members_text(ms.drop_last()) == member_text(ms.drop_last()[0]));
        assert(ms.drop_last()[0] == ms[0]);
        assert(ms.drop_first()[0] == ms.last());
        assert(members_text(ms) == members_text(ms.drop_last()) + seq![','] + member_text(ms.last()));
    } else {
        lemma_members_text_first(ms.drop_last());
        assert(ms.drop_last().drop_first() =~= ms.drop_first().drop_last());
        assert(ms.drop_first().last() == ms.last());
        assert(members_text(ms) =~= member_text(ms[0]) + seq![','] + members_text(ms.drop_first()));
    }
}

/// A string literal opening a text with no leading whitespace.
proof fn lemma_no_lead(s: Seq<char>)
    requires
        s.len() > 0,
        s[0] == '"' || s[0] == ':' || s[0] == ',' || s[0] == '{',
    ensures
        lead_ws(s) == 0,
        s.skip(0) == s,
{
    assert(!is_white(s[0]));
    assert(s.skip(0) =~= s);
}

/// The raw content that an encoded value's literal holds.
pub open spec fn raw_text(v: SpecValue) -> Seq<char> {
    match v {
        SpecValue::Str(text) => text,
        SpecValue::Hex(bytes) => hex_text(bytes),
    }
}

/// The value literal of an encodable member reads back to its value.
proof fn lemma_value_literal(m: SpecMember, tail: Seq<char>)
    requires
        encodable_member(m),
    ensures
        spec_parse_string(seq!['"'] + value_text(m.1) + seq!['"'] + tail, value_limit(m.0)) == Some(
            (raw_text(m.1), value_text(m.1).len() + 2),
        ),
        spec_member_value(m.0, raw_text(m.1)) == Ok::<SpecValue, JsonError>(m.1),
{
    let v = value_text(m.1);
    let s = seq!['"'] + value_text(m.1) + seq!['"'] + tail;
    assert(s.drop_first() =~= v + seq!['"'] + tail);
    match m.1 {
        SpecValue::Str(text) => {
            lemma_read_escaped(text, tail);
        },
        SpecValue::Hex(bytes) => {
            let h = hex_text(bytes);
            lemma_hex_text(bytes);
            assert forall|i: int| 0 <= i < h.len() implies #[trigger] h[i] != '\\' && h[i] != '"' by {
                assert(nibble_of(h[i]) is Some);
            }
            lemma_escape_identity(h);
            assert(plain_text(h)) by {
                assert forall|i: int| 0 <= i < h.len() implies (#[trigger] h[i] as u32) >= 0x20 by {
                    assert(nibble_of(h[i]) is Some);
                }
            }
            lemma_read_escaped(h, tail);
            assert(is_hex_text(h));
            lemma_hex_text_even(h);
        },
    }
}

/// The key literal of an encodable member reads back to its key.
proof fn lemma_key_literal(m: SpecMember, rest: Seq<char>)
    requires
        encodable_member(m),
    ensures
        spec_parse_string(seq!['"'] + escape_spec(m.0) + seq!['"'] + rest, MAX_STRING as nat) == Some(
            (m.0, escape_spec(m.0).len() + 2),
        ),
{
    let s = seq!['"'] + escape_spec(m.0) + seq!['"'] + rest;
    assert(s.drop_first() =~= escape_spec(m.0) + seq!['"'] + rest);
    lemma_read_escaped(m.0, rest);
}

/// The decoder reads back one encoded member followed by `tail`.
#[verifier::rlimit(40)]
proof fn lemma_parse_one(m: SpecMember, tail: Seq<char>, acc: Seq<SpecMember>)
    requires
        encodable_member(m),
        !has_key(acc, m.0),
        acc.len() + 1 <= MAX_MEMBERS,
        tail.len() == 0 || tail[0] == ',',
    ensures
        parse_members(member_text(m) + tail, acc) == (if tail.len() == 0 {
            Ok::<Seq<SpecMember>, JsonError>(acc.push(m))
        } else {
            parse_members(tail.drop_first(), acc.push(m))
        }),
{
    let key = m.0;
    let ek = escape_spec(key);
    let v = value_text(m.1);
    let s = member_text(m) + tail;
    let b0 = seq!['"'] + v + seq!['"'] + tail;
    let rest1 = seq![':'] + b0;
    assert(s =~= seq!['"'] + ek + seq!['"'] + rest1);
    lemma_no_lead(s);
    lemma_key_literal(m, rest1);
    let a0 = s.skip(ek.len() + 2int);
    assert(a0 =~= rest1);
    lemma_no_lead(rest1);
    assert(rest1.drop_first() =~= b0);
    lemma_no_lead(b0);
    lemma_value_literal(m, tail);
    let c0 = b0.skip(v.len() + 2int);
    assert(c0 =~= tail);
    if tail.len() > 0 {
        assert(!is_white(tail[0]));
    }
    assert(tail.skip(lead_ws(tail) as int) =~= tail);
    assert((key, m.1) == m);
}

/// The decoder reads back the members from index `k` on, after `ms.take(k)`.
proof fn lemma_parse_from(ms: Seq<SpecMember>, k: int)
    requires
        encodable(ms),
        0 <= k < ms.len(),
    ensures
        parse_members(members_text(ms.skip(k)), ms.take(k)) == Ok::<Seq<SpecMember>, JsonError>(ms),
    decreases ms.len() - k,
{
    let rest = ms.skip(k);
    let m = ms[k];
    assert(rest[0] == m);
    assert(encodable_member(m));
    assert(!has_key(ms.take(k), m.0)) by {
        if has_key(ms.take(k), m.0) {
            let i = choose|i: int| 0 <= i < ms.take(k).len() && (#[trigger] ms.take(k)[i]).0 == m.0;
            assert(ms.take(k)[i] == ms[i]);
        }
    }
    assert(ms.take(k).push(m) =~= ms.take(k + 1));
    if rest.len() == 1 {
        assert(members_text(rest) =~= member_text(m) + Seq::<char>::empty());
        lemma_parse_one(m, Seq::<char>::empty(), ms.take(k));
        assert(ms.take(k + 1) =~= ms);
    } else {
        lemma_members_text_first(rest);
        assert(rest.drop_first() =~= ms.skip(k + 1));
        let tail = seq![','] + members_text(ms.skip(k + 1));
        assert(members_text(rest) =~= member_text(m) + tail);
        lemma_parse_one(m, tail, ms.take(k));
        assert(tail.drop_first() =~= members_text(ms.skip(k + 1)));
        lemma_parse_from(ms, k + 1);
    }
}

/// Round trip: decoding the UTF-8 bytes of an encoded member list gives back
/// exactly that list, whenever each member fits the decoder's limits, no key
/// repeats, and the encoding fits on the wire.
pub proof fn lemma_round_trip(ms: Seq<SpecMember>)
    requires
        encodable(ms),
        encode_utf8(encode_spec(ms)).len() <= MAX_WIRE,
    ensures
        spec_decode(encode_utf8(encode_spec(ms))) == Ok::<Seq<SpecMember>, JsonError>(ms),
{
    let t = encode_spec(ms);
    vstd::utf8::encode_utf8_valid_utf8(t);
    vstd::utf8::encode_utf8_decode_utf8(t);
    let body = members_text(ms);
    lemma_no_lead(t);
    assert(t.drop_first() =~= body + seq!['}']);
    assert((body + seq!['}']).drop_last() =~= body);
    if ms.len() == 0 {
        assert(body =~= Seq::<char>::empty());
        assert(lead_ws(body) == 0);
        assert(trim(body) =~= Seq::<char>::empty());
        assert(ms =~= Seq::<SpecMember>::empty());
    } else {
        lemma_members_text_bounds(ms);
        lemma_no_lead(body);
        assert(!is_white(body.last()));
        assert(trail_ws(body) == 0);
        assert(body.take(body.len() as int) =~= body);
        assert(trim(body) == body);
        assert(ms.skip(0) =~= ms);
        assert(ms.take(0) =~= Seq::<SpecMember>::empty());
        lemma_parse_from(ms, 0);
    }
}

/// A non-empty member list's text opens and closes with a quote.
proof fn lemma_members_text_bounds(ms: Seq<SpecMember>)
    requires
        ms.len() > 0,
    ensures
        members_text(ms).len() > 0,
        members_text(ms)[0] == '"',
        members_text(ms).last() == '"',
    decreases ms.len(),
{
    if ms.len() > 1 {
        lemma_members_text_bounds(ms.drop_last());
    }
}

/// The number of UTF-8 bytes that `s` takes.
pub open spec fn utf8_len(s: Seq<char>) -> nat {
    encode_utf8(s).len()
}

proof fn lemma_utf8_len_concat(a: Seq<char>, b: Seq<char>)
    ensures
        utf8_len(a + b) == utf8_len(a) + utf8_len(b),
{
    lemma_encode_concat(a, b);
}

proof fn lemma_utf8_len_split(s: Seq<char>, i: int)
    requires
        0 <= i <= s.len(),
    ensures
        utf8_len(s) == utf8_len(s.take(i)) + utf8_len(s.skip(i)),
{
    assert(s =~= s.take(i) + s.skip(i));
    lemma_utf8_len_concat(s.take(i), s.skip(i));
}

proof fn lemma_first_split(s: Seq<char>)
    requires
        s.len() > 0,
    ensures
        utf8_len(s) == utf8_len(seq![s[0]]) + utf8_len(s.drop_first()),
{
    assert(s =~= seq![s[0]] + s.drop_first());
    lemma_utf8_len_concat(seq![s[0]], s.drop_first());
}

proof fn lemma_escape_single(c: char)
    ensures
        escape_spec(seq![c]) == escape_char(c),
{
    let x = seq![c];
    assert(x.drop_last() =~= Seq::<char>::empty());
    assert(escape_spec(x.drop_last()) =~= Seq::<char>::empty());
    assert(escape_spec(x) == escape_spec(x.drop_last()) + escape_char(x.last()));
    assert(escape_spec(x) =~= escape_char(c));
}

/// The body of a string literal is the escaped form of what it decodes to,
/// followed by the closing quote.
proof fn lemma_body_escapes(s: Seq<char>)
    ensures
        str_body(s) matches Some((content, n)) ==> 1 <= n <= s.len() && s[n - 1] == '"'
            && escape_spec(content) == s.take(n - 1),
    decreases s.len(),
{
    if s.len() > 0 && s[0] != '"' {
        if s[0] == '\\' {
            if s.len() >= 2 && (s[1] == '\\' || s[1] == '"') {
                lemma_body_escapes(s.skip(2));
                if let Some((content, n)) = str_body(s.skip(2)) {
                    let c = seq![s[1]] + content;
                    lemma_escape_concat(seq![s[1]], content);
                    lemma_escape_single(s[1]);
                    assert(escape_char(s[1]) =~= s.take(2));
                    assert(s.take(n + 1int) =~= s.take(2) + s.skip(2).take(n - 1));
                }
            }
        } else if (s[0] as u32) >= 0x20 {
            lemma_body_escapes(s.skip(1));
            if let Some((content, n)) = str_body(s.skip(1)) {
                lemma_escape_concat(seq![s[0]], content);
                lemma_escape_single(s[0]);
                assert(escape_char(s[0]) =~= s.take(1));
                assert(s.take(n as int) =~= s.take(1) + s.skip(1).take(n - 1));
            }
        }
    } else if s.len() > 0 {
        assert(s.take(0) =~= Seq::<char>::empty());
        assert(escape_spec(Seq::<char>::empty()) =~= Seq::<char>::empty());
    }
}

/// A parsed string literal is exactly the quoted escaped form of its content.
proof fn lemma_literal_text(s: Seq<char>, limit: nat)
    ensures
        spec_parse_string(s, limit) matches Some((content, n)) ==> 2 <= n <= s.len() && s.take(
            n as int,
        ) == seq!['"'] + escape_spec(content) + seq!['"'],
{
    if s.len() > 0 && s[0] == '"' {
        lemma_body_escapes(s.drop_first());
        if let Some((content, n)) = spec_parse_string(s, limit) {
            let k = (n - 1) as int;
            assert(s.drop_first()[k - 1] == '"');
            assert(s.take(n as int) =~= seq!['"'] + s.drop_first().take(k - 1) + seq!['"']);
        }
    }
}

proof fn lemma_hex_text_concat(x: Seq<u8>, y: Seq<u8>)
    ensures
        hex_text(x + y) == hex_text(x) + hex_text(y),
    decreases y.len(),
{
    if y.len() == 0 {
        assert(x + y =~= x);
        assert(hex_text(x) + hex_text(y) =~= hex_text(x));
    } else {
        assert((x + y).drop_last() =~= x + y.drop_last());
        lemma_hex_text_concat(x, y.drop_last());
        assert(hex_text(x + y) =~= hex_text(x) + hex_text(y));
    }
}

proof fn lemma_digit_of_nibble(c: char)
    requires
        nibble_of(c) is Some,
    ensures
        nibble_of(c)->0 < 16,
        hex_digit(nibble_of(c)->0) == c,
{
    let v = c as u32;
    let n = nibble_of(c)->0;
    if 0x30 <= v <= 0x39 {
        let b = (0x30 + n) as u8;
        assert((b as char) as u32 == b as u32);
    } else {
        let b = (0x61 + n - 10) as u8;
        assert((b as char) as u32 == b as u32);
    }
}

/// Lowercase hex digits of even length decode and re-encode to themselves.
proof fn lemma_hex_round(raw: Seq<char>)
    requires
        is_hex_text(raw),
        raw.len() % 2 == 0,
    ensures
        hex_text(hex_decode(raw)) == raw,
    decreases raw.len(),
{
    if raw.len() == 0 {
        assert(hex_text(Seq::<u8>::empty()) =~= raw);
    } else {
        let rest = raw.skip(2);
        assert(is_hex_text(rest)) by {
            assert forall|i: int| 0 <= i < rest.len() implies (#[trigger] nibble_of(rest[i])) is Some by {
                assert(rest[i] == raw[i + 2]);
                assert(nibble_of(raw[i + 2]) is Some);
            }
        }
        lemma_hex_round(rest);
        assert(nibble_of(raw[0]) is Some);
        assert(nibble_of(raw[1]) is Some);
        lemma_digit_of_nibble(raw[0]);
        lemma_digit_of_nibble(raw[1]);
        let high = nibble_of(raw[0])->0;
        let low = nibble_of(raw[1])->0;
        let byte = (high * 16 + low) as u8;
        assert(byte / 16 == high && byte % 16 == low);
        assert(hex_decode(raw) == seq![byte] + hex_decode(rest));
        lemma_hex_text_concat(seq![byte], hex_decode(rest));
        let one = seq![byte];
        assert(one.drop_last() =~= Seq::<u8>::empty());
        assert(hex_text(one.drop_last()) =~= Seq::<char>::empty());
        assert(one.last() == byte);
        assert(hex_text(one) == hex_text(one.drop_last()) + seq![
            hex_digit(one.last() / 16),
            hex_digit(one.last() % 16),
        ]);
        assert(hex_digit(high) == raw[0]);
        assert(hex_digit(low) == raw[1]);
        assert(hex_text(one) =~= seq![raw[0], raw[1]]);
        assert(raw =~= seq![raw[0], raw[1]] + rest);
    }
}

/// A decoded value's encoded text is the escaped raw content it came from.
proof fn lemma_value_reencodes(key: Seq<char>, raw: Seq<char>)
    requires
        spec_member_value(key, raw) is Ok,
    ensures
        value_text(spec_member_value(key, raw)->Ok_0) == escape_spec(raw),
{
    if ends_with_hex(key) {
        lemma_hex_text_even(raw);
        lemma_hex_round(raw);
        assert forall|i: int| 0 <= i < raw.len() implies #[trigger] raw[i] != '\\' && raw[i] != '"' by {
            assert(nibble_of(raw[i]) is Some);
        }
        lemma_escape_identity(raw);
    }
}

proof fn lemma_skip_ws_shorter(s: Seq<char>)
    ensures
        utf8_len(s.skip(lead_ws(s) as int)) <= utf8_len(s),
{
    lemma_lead_ws_bound(s);
    lemma_utf8_len_split(s, lead_ws(s) as int);
}


/// Members parsed from `s` re-encode to no more bytes than `s` takes.
#[verifier::rlimit(60)]
proof fn lemma_members_reencode(s: Seq<char>, acc: Seq<SpecMember>)
    requires
        parse_members(s, acc) is Ok,
    ensures
        parse_members(s, acc)->Ok_0.len() > acc.len(),
        parse_members(s, acc)->Ok_0.take(acc.len() as int) == acc,
        utf8_len(members_text(parse_members(s, acc)->Ok_0.skip(acc.len() as int))) <= utf8_len(s),
    decreases s.len(),
{
    broadcast use lemma_lead_ws_bound;

    let r = s.skip(lead_ws(s) as int);
    lemma_skip_ws_shorter(s);
    lemma_literal_text(r, MAX_STRING as nat);
    let (key, n) = spec_parse_string(r, MAX_STRING as nat)->0;
    let a0 = r.skip(n as int);
    lemma_utf8_len_split(r, n as int);
    let a = a0.skip(lead_ws(a0) as int);
    lemma_skip_ws_shorter(a0);
    let b0 = a.drop_first();
    lemma_first_split(a);
    let b = b0.skip(lead_ws(b0) as int);
    lemma_skip_ws_shorter(b0);
    lemma_literal_text(b, value_limit(key));
    let (raw, m) = spec_parse_string(b, value_limit(key))->0;
    lemma_utf8_len_split(b, m as int);
    let v = spec_member_value(key, raw)->Ok_0;
    lemma_value_reencodes(key, raw);
    let c0 = b.skip(m as int);
    let c = c0.skip(lead_ws(c0) as int);
    lemma_skip_ws_shorter(c0);
    let mem = (key, v);
    assert(member_text(mem) =~= r.take(n as int) + seq![':'] + b.take(m as int));
    lemma_utf8_len_concat(r.take(n as int), seq![':']);
    lemma_utf8_len_concat(r.take(n as int) + seq![':'], b.take(m as int));
    let res = parse_members(s, acc)->Ok_0;
    if c.len() > 0 && c[0] == ',' {
        let rest = c.drop_first();
        lemma_first_split(c);
        lemma_members_reencode(rest, acc.push(mem));
        let tail = res.skip(acc.len() + 1int);
        assert(res.take(acc.len() + 1int) == acc.push(mem));
        assert(res.take(acc.len() as int) =~= acc) by {
            assert(res.take(acc.len() as int) =~= res.take(acc.len() + 1int).take(acc.len() as int));
        }
        let mine = res.skip(acc.len() as int);
        assert(mine[0] == mem) by {
            assert(res.take(acc.len() + 1int)[acc.len() as int] == mem);
        }
        assert(mine.drop_first() =~= tail);
        lemma_members_text_first(mine);
        lemma_utf8_len_concat(member_text(mem), seq![',']);
        lemma_utf8_len_concat(member_text(mem) + seq![','], members_text(tail));
    } else {
        assert(res == acc.push(mem));
        assert(res.take(acc.len() as int) =~= acc);
        assert(res.skip(acc.len() as int) =~= seq![mem]);
    }
}

proof fn lemma_trim_shorter(x: Seq<char>)
    ensures
        utf8_len(trim(x)) <= utf8_len(x),
{
    let t = trim_start(x);
    lemma_skip_ws_shorter(x);
    lemma_trail_ws_bound(t);
    lemma_utf8_len_split(t, t.len() - trail_ws(t));
}

/// Re-encoding what was decoded takes no more bytes than the input did: the
/// encoder writes back the member literals the input held, without the
/// whitespace around them.
pub proof fn lemma_reencode_within_input(bytes: Seq<u8>)
    requires
        spec_decode(bytes) is Ok,
    ensures
        encode_utf8(encode_spec(spec_decode(bytes)->Ok_0)).len() <= bytes.len(),
        encode_utf8(encode_spec(spec_decode(bytes)->Ok_0)).len() <= MAX_WIRE,
{
    let t = decode_utf8(bytes);
    vstd::utf8::decode_utf8_encode_utf8(bytes);
    assert(utf8_len(t) == bytes.len());
    let a = t.skip(lead_ws(t) as int);
    lemma_skip_ws_shorter(t);
    let b = a.drop_first();
    lemma_first_split(a);
    let body = b.drop_last();
    lemma_utf8_len_split(b, b.len() - 1);
    assert(b.take(b.len() - 1) =~= body);
    let u = trim(body);
    lemma_trim_shorter(body);
    let ms = spec_decode(bytes)->Ok_0;
    let e = encode_spec(ms);
    lemma_utf8_len_concat(seq!['{'] + members_text(ms), seq!['}']);
    lemma_utf8_len_concat(seq!['{'], members_text(ms));
    assert(b.skip(b.len() - 1) =~= seq!['}']);
    assert(seq![a[0]] =~= seq!['{']);
    assert(e =~= seq!['{'] + members_text(ms) + seq!['}']);
    if u.len() == 0 {
        assert(ms =~= Seq::<SpecMember>::empty());
        assert(members_text(ms) =~= Seq::<char>::empty());
    } else {
        lemma_members_reencode(u, Seq::<SpecMember>::empty());
        assert(ms.skip(0) =~= ms);
    }
}

proof fn lemma_plain_cons(c: char, x: Seq<char>)
    requires
        (c as u32) >= 0x20,
        plain_text(x),
    ensures
        plain_text(seq![c] + x),
{
    let y = seq![c] + x;
    assert forall|i: int| 0 <= i < y.len() implies (#[trigger] y[i] as u32) >= 0x20 by {
        if i > 0 {
            assert(y[i] == x[i - 1]);
        }
    }
}

/// What a string literal's body decodes to holds no control character.
proof fn lemma_body_plain(s: Seq<char>)
    ensures
        str_body(s) matches Some((content, n)) ==> plain_text(content),
    decreases s.len(),
{
    if s.len() > 0 && s[0] != '"' {
        if s[0] == '\\' {
            if s.len() >= 2 && (s[1] == '\\' || s[1] == '"') {
                lemma_body_plain(s.skip(2));
                if let Some((content, n)) = str_body(s.skip(2)) {
                    lemma_plain_cons(s[1], content);
                }
            }
        } else if (s[0] as u32) >= 0x20 {
            lemma_body_plain(s.skip(1));
            if let Some((content, n)) = str_body(s.skip(1)) {
                lemma_plain_cons(s[0], content);
            }
        }
    }
}

proof fn lemma_hex_decode_len(raw: Seq<char>)
    requires
        raw.len() % 2 == 0,
    ensures
        2 * hex_decode(raw).len() == raw.len(),
    decreases raw.len(),
{
    if raw.len() >= 2 {
        lemma_hex_decode_len(raw.skip(2));
    }
}

/// A member parsed from an object body is encodable.
proof fn lemma_member_encodable(key: Seq<char>, n: nat, r: Seq<char>, raw: Seq<char>, m: nat, b: Seq<char>)
    requires
        spec_parse_string(r, MAX_STRING as nat) == Some((key, n)),
        spec_parse_string(b, value_limit(key)) == Some((raw, m)),
        spec_member_value(key, raw) is Ok,
    ensures
        encodable_member((key, spec_member_value(key, raw)->Ok_0)),
{
    lemma_body_plain(r.drop_first());
    lemma_body_plain(b.drop_first());
    if ends_with_hex(key) {
        lemma_hex_text_even(raw);
        lemma_hex_decode_len(raw);
    }
}

/// Members parsed from an object body, after an encodable prefix, are
/// encodable.
proof fn lemma_members_encodable(s: Seq<char>, acc: Seq<SpecMember>)
    requires
        encodable(acc),
        parse_members(s, acc) is Ok,
    ensures
        encodable(parse_members(s, acc)->Ok_0),
    decreases s.len(),
{
    broadcast use lemma_lead_ws_bound, crate::bjson::lemma_parse_string_bound;

    let r = s.skip(lead_ws(s) as int);
    let (key, n) = spec_parse_string(r, MAX_STRING as nat)->0;
    let a0 = r.skip(n as int);
    let a = a0.skip(lead_ws(a0) as int);
    let b0 = a.drop_first();
    let b = b0.skip(lead_ws(b0) as int);
    let (raw, m) = spec_parse_string(b, value_limit(key))->0;
    let v = spec_member_value(key, raw)->Ok_0;
    lemma_member_encodable(key, n, r, raw, m, b);
    let next = acc.push((key, v));
    assert forall|i: int, j: int| 0 <= i < j < next.len() implies (#[trigger] next[i]).0 != (
    #[trigger] next[j]).0 by {
        if j == acc.len() && next[i].0 == key {
            assert(acc[i] == next[i]);
            assert(has_key(acc, key));
        }
        if j < acc.len() {
            assert(next[i] == acc[i] && next[j] == acc[j]);
        }
    }
    assert forall|i: int| 0 <= i < next.len() implies encodable_member(#[trigger] next[i]) by {
        if i < acc.len() {
            assert(next[i] == acc[i]);
        }
    }
    assert(encodable(next));
    let c0 = b.skip(m as int);
    let c = c0.skip(lead_ws(c0) as int);
    if c.len() > 0 && c[0] == ',' {
        lemma_members_encodable(c.drop_first(), next);
    }
}

/// A decoded object is well formed: it has at most the member ceiling of
/// members, no key appears twice, no key or text holds a control character
/// or exceeds the string ceiling, byte members are exactly those whose key
/// ends in `_hex` and fit the hex ceiling.
pub proof fn lemma_decoded_encodable(bytes: Seq<u8>)
    requires
        spec_decode(bytes) is Ok,
    ensures
        encodable(spec_decode(bytes)->Ok_0),
{
    let t = decode_utf8(bytes);
    let a = t.skip(lead_ws(t) as int);
    let u = trim(a.drop_first().drop_last());
    if u.len() > 0 {
        lemma_members_encodable(u, Seq::<SpecMember>::empty());
    }
}

/// Decoding is stable under re-encoding: encoding what was decoded and
/// decoding that again gives back the same members.
pub proof fn lemma_decode_reencode_decode(bytes: Seq<u8>)
    requires
        spec_decode(bytes) is Ok,
    ensures
        spec_decode(encode_utf8(encode_spec(spec_decode(bytes)->Ok_0))) == spec_decode(bytes),
{
    lemma_decoded_encodable(bytes);
    lemma_reencode_within_input(bytes);
    lemma_round_trip(spec_decode(bytes)->Ok_0);
}

/// `s` read outside any string literal, with the whitespace dropped: what
/// lies inside a literal, its quotes and escapes included, is kept as it is.
pub open spec fn strip_outside(s: Seq<char>) -> Seq<char>
    decreases s.len(),
{
    if s.len() == 0 {
        Seq::<char>::empty()
    } else if is_white(s[0]) {
        strip_outside(s.drop_first())
    } else if s[0] == '"' {
        seq!['"'] + strip_inside(s.drop_first())
    } else {
        seq![s[0]] + strip_outside(s.drop_first())
    }
}

/// `s` read inside a string literal, up to and including its closing quote,
/// then outside again.
pub open spec fn strip_inside(s: Seq<char>) -> Seq<char>
    decreases s.len(),
{
    if s.len() == 0 {
        Seq::<char>::empty()
    } else if s[0] == '\\' && s.len() >= 2 {
        seq![s[0], s[1]] + strip_inside(s.skip(2))
    } else if s[0] == '"' {
        seq!['"'] + strip_outside(s.drop_first())
    } else {
        seq![s[0]] + strip_inside(s.drop_first())
    }
}

proof fn lemma_lead_white(s: Seq<char>)
    ensures
        forall|i: int| 0 <= i < lead_ws(s) ==> is_white(#[trigger] s[i]),
    decreases s.len(),
{
    lemma_lead_ws_bound(s);
    if s.len() > 0 && is_white(s[0]) {
        lemma_lead_white(s.drop_first());
        assert forall|i: int| 0 <= i < lead_ws(s) implies is_white(#[trigger] s[i]) by {
            if i > 0 {
                assert(s[i] == s.drop_first()[i - 1]);
            }
        }
    }
}

proof fn lemma_trail_white(s: Seq<char>)
    ensures
        forall|i: int| s.len() - trail_ws(s) <= i < s.len() ==> is_white(#[trigger] s[i]),
    decreases s.len(),
{
    lemma_trail_ws_bound(s);
    if s.len() > 0 && is_white(s.last()) {
        lemma_trail_white(s.drop_last());
        assert forall|i: int| s.len() - trail_ws(s) <= i < s.len() implies is_white(#[trigger] s[i]) by {
            if i < s.len() - 1 {
                assert(s[i] == s.drop_last()[i]);
            }
        }
    }
}

/// Whitespace in front of `y` is dropped.
proof fn lemma_strip_white(w: Seq<char>, y: Seq<char>)
    requires
        forall|i: int| 0 <= i < w.len() ==> is_white(#[trigger] w[i]),
    ensures
        strip_outside(w + y) == strip_outside(y),
    decreases w.len(),
{
    if w.len() == 0 {
        assert(w + y =~= y);
    } else {
        assert((w + y)[0] == w[0]);
        assert((w + y).drop_first() =~= w.drop_first() + y);
        assert forall|i: int| 0 <= i < w.drop_first().len() implies is_white(
            #[trigger] w.drop_first()[i],
        ) by {
            assert(w.drop_first()[i] == w[i + 1]);
        }
        lemma_strip_white(w.drop_first(), y);
    }
}

/// Whitespace dropped from the front of `s`, as the decoder skips it.
proof fn lemma_strip_lead(s: Seq<char>, z: Seq<char>)
    ensures
        strip_outside(s + z) == strip_outside(s.skip(lead_ws(s) as int) + z),
{
    lemma_lead_ws_bound(s);
    lemma_lead_white(s);
    let k = lead_ws(s) as int;
    let w = s.take(k);
    assert forall|i: int| 0 <= i < w.len() implies is_white(#[trigger] w[i]) by {
        assert(w[i] == s[i]);
    }
    assert(s + z =~= w + (s.skip(k) + z));
    lemma_strip_white(w, s.skip(k) + z);
}

/// The body of a string literal is kept as it is, closing quote included.
proof fn lemma_strip_body(b: Seq<char>, y: Seq<char>)
    requires
        str_body(b) is Some,
    ensures
        strip_inside(b.take((str_body(b)->0).1 as int) + y) == b.take((str_body(b)->0).1 as int)
            + strip_outside(y),
    decreases b.len(),
{
    let n = (str_body(b)->0).1 as int;
    let x = b.take(n) + y;
    lemma_body_escapes(b);
    assert(1 <= n <= b.len());
    assert(x[0] == b[0]);
    if b[0] == '"' {
        assert(n == 1);
        assert(x[0] == '"');
        assert(x.drop_first() =~= y);
        assert(b.take(1) =~= seq!['"']);
    } else if b[0] == '\\' {
        let rest = b.skip(2);
        lemma_strip_body(rest, y);
        let k = (str_body(rest)->0).1 as int;
        assert(n == k + 2);
        assert(x[0] == '\\' && x.len() >= 2);
        assert(x.skip(2) =~= rest.take(k) + y);
        assert(b.take(n) =~= seq![b[0], b[1]] + rest.take(k));
        assert(seq![x[0], x[1]] =~= seq![b[0], b[1]]);
    } else {
        let rest = b.skip(1);
        lemma_strip_body(rest, y);
        let k = (str_body(rest)->0).1 as int;
        assert(n == k + 1);
        assert(x[0] == b[0]);
        assert(x.drop_first() =~= rest.take(k) + y);
        assert(b.take(n) =~= seq![b[0]] + rest.take(k));
    }
}

/// A string literal is kept as it is.
proof fn lemma_strip_literal(r: Seq<char>, limit: nat, y: Seq<char>)
    requires
        spec_parse_string(r, limit) is Some,
    ensures
        strip_outside(r.take((spec_parse_string(r, limit)->0).1 as int) + y) == r.take(
            (spec_parse_string(r, limit)->0).1 as int,
        ) + strip_outside(y),
{
    let n = (spec_parse_string(r, limit)->0).1 as int;
    let b = r.drop_first();
    let x = r.take(n) + y;
    lemma_literal_text(r, limit);
    lemma_strip_body(b, y);
    assert((str_body(b)->0).1 == n - 1);
    assert(x[0] == '"');
    assert(!is_white('"'));
    assert(x.drop_first() =~= b.take(n - 1) + y);
    assert(r.take(n) =~= seq!['"'] + b.take(n - 1));
}

/// A punctuation character outside a literal is kept.
proof fn lemma_strip_mark(c: char, y: Seq<char>)
    requires
        c == ':' || c == ',' || c == '}' || c == '{',
    ensures
        strip_outside(seq![c] + y) == seq![c] + strip_outside(y),
{
    let x = seq![c] + y;
    assert(x[0] == c);
    assert(!is_white(c));
    assert(x.drop_first() =~= y);
}

/// Members parsed from `s` are what `s` reads as outside literals with its
/// whitespace dropped.
#[verifier::rlimit(80)]
proof fn lemma_strip_members(s: Seq<char>, acc: Seq<SpecMember>, z: Seq<char>)
    requires
        parse_members(s, acc) is Ok,
    ensures
        strip_outside(s + z) == members_text(parse_members(s, acc)->Ok_0.skip(acc.len() as int))
            + strip_outside(z),
    decreases s.len(),
{
    broadcast use lemma_lead_ws_bound;

    lemma_members_reencode(s, acc);
    let r = s.skip(lead_ws(s) as int);
    lemma_literal_text(r, MAX_STRING as nat);
    let (key, n) = spec_parse_string(r, MAX_STRING as nat)->0;
    let a0 = r.skip(n as int);
    let a = a0.skip(lead_ws(a0) as int);
    let b0 = a.drop_first();
    let b = b0.skip(lead_ws(b0) as int);
    lemma_literal_text(b, value_limit(key));
    let (raw, m) = spec_parse_string(b, value_limit(key))->0;
    let v = spec_member_value(key, raw)->Ok_0;
    lemma_value_reencodes(key, raw);
    let c0 = b.skip(m as int);
    let c = c0.skip(lead_ws(c0) as int);
    let mem = (key, v);
    assert(member_text(mem) =~= r.take(n as int) + seq![':'] + b.take(m as int));
    let res = parse_members(s, acc)->Ok_0;

    let rz = if c.len() > 0 && c[0] == ',' {
        members_text(res.skip(acc.len() + 1int)) + strip_outside(z)
    } else {
        strip_outside(z)
    };
    // After the value literal.
    lemma_strip_lead(c0, z);
    if c.len() > 0 && c[0] == ',' {
        let rest = c.drop_first();
        lemma_members_reencode(rest, acc.push(mem));
        lemma_strip_members(rest, acc.push(mem), z);
        assert(c + z =~= seq![','] + (rest + z));
        lemma_strip_mark(',', rest + z);
        assert(strip_outside(c + z) == seq![','] + rz);
    } else {
        assert(c.len() == 0);
        assert(c + z =~= z);
    }
    // The value literal.
    assert(b + z =~= b.take(m as int) + (c0 + z));
    lemma_strip_literal(b, value_limit(key), c0 + z);
    lemma_strip_lead(b0, z);
    // The separator.
    assert(a + z =~= seq![':'] + (b0 + z));
    lemma_strip_mark(':', b0 + z);
    lemma_strip_lead(a0, z);
    // The key literal.
    assert(r + z =~= r.take(n as int) + (a0 + z));
    lemma_strip_literal(r, MAX_STRING as nat, a0 + z);
    lemma_strip_lead(s, z);
    let head = r.take(n as int) + seq![':'] + b.take(m as int);
    let tail_text = if c.len() > 0 && c[0] == ',' {
        seq![','] + rz
    } else {
        rz
    };
    assert(strip_outside(s + z) =~= head + tail_text);
    if c.len() > 0 && c[0] == ',' {
        let tail = res.skip(acc.len() + 1int);
        let mine = res.skip(acc.len() as int);
        assert(res.take(acc.len() + 1int) == acc.push(mem));
        assert(mine[0] == mem) by {
            assert(res.take(acc.len() + 1int)[acc.len() as int] == mem);
        }
        assert(mine.drop_first() =~= tail);
        assert(tail.len() >= 1);
        lemma_members_text_first(mine);
        assert(head + tail_text =~= member_text(mem) + seq![','] + members_text(tail)
            + strip_outside(z));
    } else {
        assert(res == acc.push(mem));
        assert(res.skip(acc.len() as int) =~= seq![mem]);
        assert(members_text(seq![mem]) == member_text(mem));
    }
}

/// Re-encoding a decoded object gives back the input text with the
/// whitespace outside its string literals removed, and nothing else changed.
pub proof fn lemma_reencode_strips_whitespace(bytes: Seq<u8>)
    requires
        spec_decode(bytes) is Ok,
    ensures
        encode_spec(spec_decode(bytes)->Ok_0) == strip_outside(decode_utf8(bytes)),
{
    let t = decode_utf8(bytes);
    let ms = spec_decode(bytes)->Ok_0;
    lemma_lead_ws_bound(t);
    let a = t.skip(lead_ws(t) as int);
    let b = a.drop_first();
    let body = b.drop_last();
    let tb = trim_start(body);
    lemma_trail_ws_bound(tb);
    let k = tb.len() - trail_ws(tb);
    let u = tb.take(k);
    let w = tb.skip(k);
    let close = seq!['}'];
    assert(u == trim(body));
    assert(strip_outside(t) == strip_outside(a)) by {
        lemma_strip_lead(t, Seq::<char>::empty());
        assert(t + Seq::<char>::empty() =~= t);
        assert(a + Seq::<char>::empty() =~= a);
    }
    assert(strip_outside(a) == seq!['{'] + strip_outside(body + close)) by {
        assert(a =~= seq!['{'] + (body + close));
        lemma_strip_mark('{', body + close);
    }
    assert(strip_outside(body + close) == strip_outside(u + (w + close))) by {
        lemma_strip_lead(body, close);
        assert(tb + close =~= u + (w + close));
    }
    assert(strip_outside(w + close) == close) by {
        lemma_trail_white(tb);
        assert forall|i: int| 0 <= i < w.len() implies is_white(#[trigger] w[i]) by {
            assert(w[i] == tb[k + i]);
        }
        lemma_strip_white(w, close);
        lemma_strip_mark('}', Seq::<char>::empty());
        assert(close + Seq::<char>::empty() =~= close);
    }
    if u.len() == 0 {
        assert(u + (w + close) =~= w + close);
        assert(ms =~= Seq::<SpecMember>::empty());
        assert(members_text(ms) =~= Seq::<char>::empty());
    } else {
        assert(ms == parse_members(u, Seq::<SpecMember>::empty())->Ok_0);
        lemma_strip_members(u, Seq::<SpecMember>::empty(), w + close);
        assert(ms.skip(0) =~= ms);
    }
    assert(encode_spec(ms) =~= strip_outside(t));
}

} // verus!
