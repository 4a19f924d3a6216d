use vstd::prelude::*;

use crate::buffer::bytes_view;

verus! {

/// The character of the standard base64 alphabet (RFC 4648, table 1) for a
/// six-bit value.
pub open spec fn base64_char(v: int) -> char {
    if v < 26 {
        (65 + v) as char
    } else if v < 52 {
        (97 + v - 26) as char
    } else if v < 62 {
        (48 + v - 52) as char
    } else if v == 62 {
        '+'
    } else {
        '/'
    }
}

/// Standard padded base64 (RFC 4648, section 4): each group of three bytes
/// becomes four characters, six bits each; a last group of one or two bytes
/// is filled with zero bits and padded with `=` to four characters.
pub open spec fn base64_standard_encode(bytes: Seq<u8>) -> Seq<char>
    decreases bytes.len(),
{
    if bytes.len() == 0 {
        Seq::empty()
    } else if bytes.len() == 1 {
        let a = bytes[0] as int;
        seq![base64_char(a / 4), base64_char((a % 4) * 16), '=', '=']
    } else if bytes.len() == 2 {
        let a = bytes[0] as int;
        let b = bytes[1] as int;
        seq![base64_char(a / 4), base64_char((a % 4) * 16 + b / 16), base64_char((b % 16) * 4), '=']
    } else {
        let a = bytes[0] as int;
        let b = bytes[1] as int;
        let c = bytes[2] as int;
        seq![
            base64_char(a / 4),
            base64_char((a % 4) * 16 + b / 16),
            base64_char((b % 16) * 4 + c / 64),
            base64_char(c % 64),
        ] + base64_standard_encode(bytes.subrange(3, bytes.len() as int))
    }
}

/// Standard base64 decoding with canonical padding and no stray bits: the
/// bytes whose standard padded base64 is the text, `None` where no bytes
/// have it. By `lemma_base64_encode_injective` there is at most one such
/// byte string.
pub open spec fn base64_standard_decode(text: Seq<char>) -> Option<Seq<u8>> {
    if exists|b: Seq<u8>| #[trigger] base64_standard_encode(b) == text {
        Some(choose|b: Seq<u8>| #[trigger] base64_standard_encode(b) == text)
    } else {
        None
    }
}

/// Length of the padded base64 text of `n` bytes: four characters for every
/// started group of three bytes.
pub open spec fn base64_encoded_len(n: nat) -> nat {
    4 * ((n + 2) / 3)
}

/// Whether the base64 text of `n` bytes has a length that a `usize` holds,
/// computed as the engine computes it (full groups first, then the padded
/// last group).
pub open spec fn base64_len_fits(n: nat) -> bool {
    &&& (n / 3) * 4 <= usize::MAX
    &&& (if n % 3 > 0 { (n / 3) * 4 + 4 <= usize::MAX } else { true })
}

/// The base64 text of `n` bytes has four characters for every started group
/// of three bytes.
pub proof fn lemma_base64_encoded_len(bytes: Seq<u8>)
    ensures
        base64_standard_encode(bytes).len() == base64_encoded_len(bytes.len()),
    decreases bytes.len(),
{
    if bytes.len() > 2 {
        lemma_base64_encoded_len(bytes.subrange(3, bytes.len() as int));
    }
}

/// Distinct six-bit values have distinct base64 characters, none of them
/// the padding character `=`.
proof fn lemma_base64_char(u: int, v: int)
    requires
        0 <= u < 64,
        0 <= v < 64,
    ensures
        base64_char(u) == base64_char(v) ==> u == v,
        base64_char(u) != '=',
{
}

/// The characters of one group determine its bytes.
proof fn lemma_group_bytes(a: u8, b: u8, c: u8, x: u8, y: u8, z: u8)
    requires
        a / 4 == x / 4,
        (a % 4) * 16 + b / 16 == (x % 4) * 16 + y / 16,
        (b % 16) * 4 + c / 64 == (y % 16) * 4 + z / 64,
        c % 64 == z % 64,
    ensures
        a == x && b == y && c == z,
{
    assert(a == x && b == y && c == z) by (bit_vector)
        requires
            a / 4 == x / 4,
            (a % 4) * 16 + b / 16 == (x % 4) * 16 + y / 16,
            (b % 16) * 4 + c / 64 == (y % 16) * 4 + z / 64,
            c % 64 == z % 64,
    ;
}

/// The characters of a short last group determine its bytes.
proof fn lemma_short_group_bytes(a: u8, b: u8, x: u8, y: u8)
    ensures
        (a / 4 == x / 4 && (a % 4) * 16 == (x % 4) * 16) ==> a == x,
        (a / 4 == x / 4 && (a % 4) * 16 + b / 16 == (x % 4) * 16 + y / 16 && (b % 16) * 4 == (y % 16) * 4)
            ==> a == x && b == y,
{
    assert((a / 4 == x / 4 && (a % 4) * 16 == (x % 4) * 16) ==> a == x) by (bit_vector);
    assert((a / 4 == x / 4 && (a % 4) * 16 + b / 16 == (x % 4) * 16 + y / 16 && (b % 16) * 4 == (y % 16)
        * 4) ==> a == x && b == y) by (bit_vector);
}

/// Law: standard padded base64 is one-to-one: two byte strings with the
/// same text are equal.
pub proof fn lemma_base64_encode_injective(b1: Seq<u8>, b2: Seq<u8>)
    requires
        base64_standard_encode(b1) == base64_standard_encode(b2),
    ensures
        b1 == b2,
    decreases b1.len(),
{
    let t = base64_standard_encode(b1);
    lemma_base64_encoded_len(b1);
    lemma_base64_encoded_len(b2);
    if b1.len() == 0 || b2.len() == 0 {
        assert(b1.len() == 0 && b2.len() == 0);
        assert(b1 =~= b2);
        return;
    }
    let a = b1[0] as int;
    let x = b2[0] as int;
    lemma_base64_char(a / 4, x / 4);
    lemma_base64_char((a % 4) * 16, (x % 4) * 16);
    if b1.len() >= 3 && b2.len() >= 3 {
        let (b, c, y, z) = (b1[1] as int, b1[2] as int, b2[1] as int, b2[2] as int);
        assert(t[0] == base64_char(a / 4) && t[0] == base64_char(x / 4));
        assert(t[1] == base64_char((a % 4) * 16 + b / 16) && t[1] == base64_char((x % 4) * 16 + y / 16));
        assert(t[2] == base64_char((b % 16) * 4 + c / 64) && t[2] == base64_char((y % 16) * 4 + z / 64));
        assert(t[3] == base64_char(c % 64) && t[3] == base64_char(z % 64));
        lemma_base64_char((a % 4) * 16 + b / 16, (x % 4) * 16 + y / 16);
        lemma_base64_char((b % 16) * 4 + c / 64, (y % 16) * 4 + z / 64);
        lemma_base64_char(c % 64, z % 64);
        lemma_group_bytes(b1[0], b1[1], b1[2], b2[0], b2[1], b2[2]);
        let r1 = b1.subrange(3, b1.len() as int);
        let r2 = b2.subrange(3, b2.len() as int);
        assert(base64_standard_encode(r1) =~= t.subrange(4, t.len() as int));
        assert(base64_standard_encode(r2) =~= t.subrange(4, t.len() as int));
        lemma_base64_encode_injective(r1, r2);
        assert(b1.len() == r1.len() + 3 && b2.len() == r2.len() + 3);
        assert forall|i: int| 0 <= i < b1.len() implies b1[i] == b2[i] by {
            if i >= 3 {
                assert(b1[i] == r1[i - 3]);
                assert(b2[i] == r2[i - 3]);
            }
        }
        assert(b1 =~= b2);
        return;
    }
    if b1.len() >= 3 || b2.len() >= 3 {
        // the other string has one or two bytes, so both texts are four
        // characters long and the longer string has exactly three bytes
        let l = if b1.len() >= 3 { b1 } else { b2 };
        assert(l.len() == 3);
        lemma_base64_char(l[2] as int % 64, 0);
        assert(t[3] != '=');
        assert(false);
        return;
    }
    assert(b1.len() <= 2 && b2.len() <= 2);
    if b1.len() != b2.len() {
        let two = if b1.len() == 2 { b1 } else { b2 };
        lemma_base64_char((two[1] as int % 16) * 4, 0);
        assert(t[2] != '=');
        assert(false);
        return;
    }
    if b1.len() == 1 {
        lemma_short_group_bytes(b1[0], b1[0], b2[0], b2[0]);
        assert(b1 =~= b2);
    } else {
        let (b, y) = (b1[1] as int, b2[1] as int);
        lemma_base64_char((a % 4) * 16 + b / 16, (x % 4) * 16 + y / 16);
        lemma_base64_char((b % 16) * 4, (y % 16) * 4);
        lemma_short_group_bytes(b1[0], b1[1], b2[0], b2[1]);
        assert(b1 =~= b2);
    }
}

/// Law: decoding the standard padded base64 of a byte string gives the
/// byte string back.
pub proof fn lemma_base64_round_trip(bytes: Seq<u8>)
    ensures
        base64_standard_decode(base64_standard_encode(bytes)) == Some(bytes),
{
    let t = base64_standard_encode(bytes);
    assert(exists|b: Seq<u8>| #[trigger] base64_standard_encode(b) == t);
    let c = choose|b: Seq<u8>| #[trigger] base64_standard_encode(b) == t;
    lemma_base64_encode_injective(c, bytes);
}

/// `base64::Engine::encode` on `base64::engine::general_purpose::STANDARD`
/// (standard alphabet, padding on). Trusted: the text is the standard padded
/// base64 of the bytes. The engine panics when the text length overflows
/// `usize`; `requires` leaves those inputs out.
#[verifier::external_body]
fn base64_encode(bytes: &[u8]) -> (text: String)
    requires
        base64_len_fits(bytes@.len()),
    ensures
        text@ == base64_standard_encode(bytes@),
{
    base64::Engine::encode(&base64::engine::general_purpose::STANDARD, bytes)
}

/// `base64::Engine::decode` on `base64::engine::general_purpose::STANDARD`
/// (canonical padding required, no trailing bits allowed), with its error
/// dropped. Trusted: the engine accepts exactly the standard padded base64
/// texts and gives back the bytes they encode.
#[verifier::external_body]
fn base64_decode(text: &str) -> (res: Option<Vec<u8>>)
    ensures
        res matches Some(v) ==> base64_standard_decode(text@) == Some(v@),
        res is None ==> base64_standard_decode(text@) is None,
{
    base64::Engine::decode(&base64::engine::general_purpose::STANDARD, text).ok()
}

/// A JSON string literal holding `t`. Base64 text needs no escaping.
pub open spec fn json_quoted(t: Seq<char>) -> Seq<char> {
    "\""@ + t + "\""@
}

/// The items of a JSON array of strings, separated by commas, without the
/// brackets.
pub open spec fn json_string_items(items: Seq<Seq<char>>) -> Seq<char>
    decreases items.len(),
{
    if items.len() == 0 {
        Seq::empty()
    } else if items.len() == 1 {
        json_quoted(items[0])
    } else {
        json_string_items(items.drop_last()) + ","@ + json_quoted(items.last())
    }
}

/// The base64 texts of a list of byte strings, in order.
pub open spec fn base64_texts(payload: Seq<Seq<u8>>) -> Seq<Seq<char>> {
    payload.map_values(|b: Seq<u8>| base64_standard_encode(b))
}

/// Every byte string of the list has a base64 text whose length fits.
pub open spec fn payload_encodable(payload: Seq<Seq<u8>>) -> bool {
    forall|i: int| 0 <= i < payload.len() ==> base64_len_fits(#[trigger] payload[i].len())
}

/// The compact JSON text of a `Payload` message: an object with the single
/// field `payload`, an array of the base64 texts of the byte strings.
pub open spec fn payload_json(payload: Seq<Seq<u8>>) -> Seq<char> {
    "{\"payload\":["@ + json_string_items(base64_texts(payload)) + "]}"@
}

/// The compact JSON text of an `Init` message: the partner's public key,
/// itself a `Payload`, under the field `public_key`.
pub open spec fn init_json(public_key: Seq<Seq<u8>>) -> Seq<char> {
    "{\"public_key\":"@ + payload_json(public_key) + "}"@
}

/// The views of a list of strings.
pub open spec fn strings_view(texts: Seq<String>) -> Seq<Seq<char>> {
    texts.map_values(|t: String| t@)
}

/// The byte strings that a list of base64 texts decodes to, or `None` where
/// one of them is refused.
pub open spec fn decode_all(texts: Seq<Seq<char>>) -> Option<Seq<Seq<u8>>> {
    if forall|i: int| 0 <= i < texts.len() ==> (#[trigger] base64_standard_decode(texts[i])) is Some {
        Some(texts.map_values(|t: Seq<char>| base64_standard_decode(t).unwrap()))
    } else {
        None
    }
}

/// The base64 texts of a list of byte strings, in order. Decoding them gives
/// the byte strings back.
pub fn encode_payload_texts(payload: &Vec<Vec<u8>>) -> (texts: Vec<String>)
    requires
        payload_encodable(bytes_view(payload@)),
    ensures
        strings_view(texts@) == base64_texts(bytes_view(payload@)),
        decode_all(strings_view(texts@)) == Some(bytes_view(payload@)),
{
    let mut texts: Vec<String> = Vec::new();
    let n = payload.len();
    for i in 0..n
        invariant
            n == payload@.len(),
            payload_encodable(bytes_view(payload@)),
            texts@.len() == i,
            forall|j: int| 0 <= j < i ==> #[trigger] texts@[j]@ == base64_standard_encode(payload@[j]@),
            forall|j: int| 0 <= j < i ==> base64_standard_decode(#[trigger] texts@[j]@) == Some(payload@[j]@),
    {
        assert(base64_len_fits(bytes_view(payload@)[i as int].len()));
        let text = base64_encode(payload[i].as_slice());
        proof {
            lemma_base64_round_trip(payload@[i as int]@);
        }
        texts.push(text);
    }
    let ghost tv = strings_view(texts@);
    assert(tv =~= base64_texts(bytes_view(payload@)));
    assert(forall|i: int| 0 <= i < tv.len() ==> base64_standard_decode(tv[i]) == Some(payload@[i]@));
    assert(tv.map_values(|t: Seq<char>| base64_standard_decode(t).unwrap()) =~= bytes_view(payload@));
    texts
}

/// The byte strings that a list of base64 texts holds; `None` as soon as one
/// text is not base64.
pub fn decode_payload_texts(texts: &Vec<String>) -> (payload: Option<Vec<Vec<u8>>>)
    ensures
        payload matches Some(p) ==> decode_all(strings_view(texts@)) == Some(bytes_view(p@)),
        payload is None ==> decode_all(strings_view(texts@)) is None,
{
    let ghost tv = strings_view(texts@);
    let mut out: Vec<Vec<u8>> = Vec::new();
    let n = texts.len();
    for i in 0..n
        invariant
            n == texts@.len(),
            tv == strings_view(texts@),
            out@.len() == i,
            forall|j: int| 0 <= j < i ==> base64_standard_decode(tv[j]) == Some(#[trigger] out@[j]@),
    {
        match base64_decode(texts[i].as_str()) {
            Some(v) => {
                out.push(v);
            },
            None => {
                assert(base64_standard_decode(tv[i as int]) is None);
                return None;
            },
        }
    }
    assert forall|i: int| 0 <= i < tv.len() implies (#[trigger] base64_standard_decode(tv[i])) is Some by {
        assert(base64_standard_decode(tv[i]) == Some(out@[i]@));
    }
    assert(tv.map_values(|t: Seq<char>| base64_standard_decode(t).unwrap()) =~= bytes_view(out@));
    Some(out)
}

/// Appends to `out` the items of a JSON string array holding `texts`.
fn append_json_string_items(out: &mut String, texts: &Vec<String>)
    ensures
        final(out)@ == old(out)@ + json_string_items(strings_view(texts@)),
{
    let ghost start = out@;
    let ghost all = strings_view(texts@);
    let n = texts.len();
    for i in 0..n
        invariant
            n == texts@.len(),
            all == strings_view(texts@),
            out@ == start + json_string_items(all.take(i as int)),
    {
        assert(all.take(i + 1).drop_last() =~= all.take(i as int));
        assert(all.take(i + 1).last() == texts@[i as int]@);
        if i > 0 {
            out.append(",");
        }
        out.append("\"");
        out.append(texts[i].as_str());
        out.append("\"");
        proof {
            if i == 0 {
                assert(all.take(0) =~= Seq::<Seq<char>>::empty());
                assert(json_string_items(all.take(0)) =~= Seq::<char>::empty());
            }
            assert(out@ =~= start + json_string_items(all.take(i + 1)));
        }
    }
    assert(all.take(n as int) =~= all);
}

/// Appends to `out` the items of the JSON string array for `payload`.
fn append_payload_items(out: &mut String, payload: &Vec<Vec<u8>>)
    requires
        payload_encodable(bytes_view(payload@)),
    ensures
        final(out)@ == old(out)@ + json_string_items(base64_texts(bytes_view(payload@))),
        decode_all(base64_texts(bytes_view(payload@))) == Some(bytes_view(payload@)),
{
    let texts = encode_payload_texts(payload);
    append_json_string_items(out, &texts);
}

/// The JSON body of a `Payload` message for the given byte strings, as the
/// server's REST gateway reads it.
pub fn encode_payload_json(payload: &Vec<Vec<u8>>) -> (body: String)
    requires
        payload_encodable(bytes_view(payload@)),
    ensures
        body@ == payload_json(bytes_view(payload@)),
        decode_all(base64_texts(bytes_view(payload@))) == Some(bytes_view(payload@)),
{
    let mut out = String::from_str("{\"payload\":[");
    append_payload_items(&mut out, payload);
    out.append("]}");
    out
}

/// The JSON body of an `Init` message carrying the partner's public key.
pub fn encode_init_json(public_key: &Vec<Vec<u8>>) -> (body: String)
    requires
        payload_encodable(bytes_view(public_key@)),
    ensures
        body@ == init_json(bytes_view(public_key@)),
        decode_all(base64_texts(bytes_view(public_key@))) == Some(bytes_view(public_key@)),
{
    let mut out = String::from_str("{\"public_key\":{\"payload\":[");
    append_payload_items(&mut out, public_key);
    out.append("]}}");
    proof {
        reveal_strlit("{\"public_key\":{\"payload\":[");
        reveal_strlit("{\"public_key\":");
        reveal_strlit("{\"payload\":[");
        reveal_strlit("]}}");
        reveal_strlit("]}");
        reveal_strlit("}");
        assert(out@ =~= init_json(bytes_view(public_key@)));
    }
    out
}


/// The pieces of a text between its commas, in order: one piece more than
/// there are commas.
pub open spec fn split_commas(s: Seq<char>) -> Seq<Seq<char>>
    decreases s.len(),
{
    if s.len() == 0 {
        seq![Seq::<char>::empty()]
    } else {
        let rest = split_commas(s.drop_first());
        if s[0] == ',' {
            seq![Seq::<char>::empty()] + rest
        } else {
            rest.update(0, seq![s[0]] + rest[0])
        }
    }
}

/// The text holds no comma.
pub open spec fn comma_free(s: Seq<char>) -> bool {
    forall|i: int| 0 <= i < s.len() ==> s[i] != ','
}

/// A JSON string literal of `t`, written out character by character.
pub open spec fn quoted_item(t: Seq<char>) -> Seq<char> {
    seq!['"'] + t + seq!['"']
}

/// The items of a JSON array text: what lies between the array's opening
/// text `prefix` and its closing text `suffix`.
pub open spec fn array_inner(body: Seq<char>, prefix: Seq<char>, suffix: Seq<char>) -> Seq<char> {
    body.subrange(prefix.len() as int, body.len() - suffix.len())
}

proof fn lemma_split_commas_nonempty(s: Seq<char>)
    ensures
        split_commas(s).len() >= 1,
    decreases s.len(),
{
    if s.len() > 0 {
        lemma_split_commas_nonempty(s.drop_first());
    }
}

proof fn lemma_split_comma_free(s: Seq<char>)
    requires
        comma_free(s),
    ensures
        split_commas(s) == seq![s],
    decreases s.len(),
{
    if s.len() > 0 {
        lemma_split_comma_free(s.drop_first());
        assert(seq![s[0]] + s.drop_first() =~= s);
        assert(seq![s.drop_first()].update(0, seq![s[0]] + s.drop_first()) =~= seq![s]);
    } else {
        assert(s =~= Seq::<char>::empty());
    }
}

proof fn lemma_split_at_comma(a: Seq<char>, b: Seq<char>)
    ensures
        split_commas(a + seq![','] + b) == split_commas(a) + split_commas(b),
    decreases a.len(),
{
    lemma_split_commas_nonempty(b);
    if a.len() == 0 {
        assert(a + seq![','] + b =~= seq![','] + b);
        assert((seq![','] + b).drop_first() =~= b);
        assert(split_commas(a) == seq![Seq::<char>::empty()]);
    } else {
        let s = a + seq![','] + b;
        assert(s.drop_first() =~= a.drop_first() + seq![','] + b);
        lemma_split_at_comma(a.drop_first(), b);
        lemma_split_commas_nonempty(a.drop_first());
        assert(s[0] == a[0]);
        if a[0] == ',' {
            assert(split_commas(s) =~= split_commas(a) + split_commas(b));
        } else {
            let ra = split_commas(a.drop_first());
            assert((ra + split_commas(b)).update(0, seq![a[0]] + ra[0]) =~= ra.update(0, seq![a[0]] + ra[0])
                + split_commas(b));
        }
    }
}

proof fn lemma_json_quoted_is_quoted_item(t: Seq<char>)
    ensures
        json_quoted(t) == quoted_item(t),
{
    reveal_strlit("\"");
    assert(json_quoted(t) =~= quoted_item(t));
}

proof fn lemma_split_string_items(items: Seq<Seq<char>>)
    requires
        items.len() >= 1,
        forall|i: int| 0 <= i < items.len() ==> comma_free(#[trigger] items[i]),
    ensures
        split_commas(json_string_items(items)) == items.map_values(|t: Seq<char>| quoted_item(t)),
    decreases items.len(),
{
    let last = items.last();
    lemma_json_quoted_is_quoted_item(last);
    assert(comma_free(items[items.len() - 1]));
    assert(comma_free(quoted_item(last)));
    lemma_split_comma_free(quoted_item(last));
    if items.len() == 1 {
        assert(items.map_values(|t: Seq<char>| quoted_item(t)) =~= seq![quoted_item(last)]);
    } else {
        let init = items.drop_last();
        assert forall|i: int| 0 <= i < init.len() implies comma_free(#[trigger] init[i]) by {
            assert(init[i] == items[i]);
        }
        lemma_split_string_items(init);
        lemma_split_at_comma(json_string_items(init), json_quoted(last));
        assert(json_string_items(items) == json_string_items(init) + ","@ + json_quoted(last));
        reveal_strlit(",");
        assert(json_string_items(init) + ","@ + json_quoted(last) =~= json_string_items(init) + seq![',']
            + json_quoted(last));
        assert(items.map_values(|t: Seq<char>| quoted_item(t)) =~= init.map_values(|t: Seq<char>| quoted_item(t))
            + seq![quoted_item(last)]);
    }
}

proof fn lemma_base64_char_not_comma(v: int)
    requires
        0 <= v < 64,
    ensures
        base64_char(v) != ',',
{
}

/// Base64 text holds no comma.
pub proof fn lemma_base64_comma_free(bytes: Seq<u8>)
    ensures
        comma_free(base64_standard_encode(bytes)),
    decreases bytes.len(),
{
    let t = base64_standard_encode(bytes);
    if bytes.len() == 0 {
        return;
    }
    let a = bytes[0] as int;
    lemma_base64_char_not_comma(a / 4);
    lemma_base64_char_not_comma((a % 4) * 16);
    if bytes.len() >= 2 {
        let b = bytes[1] as int;
        lemma_base64_char_not_comma((a % 4) * 16 + b / 16);
        lemma_base64_char_not_comma((b % 16) * 4);
        if bytes.len() >= 3 {
            let c = bytes[2] as int;
            lemma_base64_char_not_comma((b % 16) * 4 + c / 64);
            lemma_base64_char_not_comma(c % 64);
            let r = bytes.subrange(3, bytes.len() as int);
            lemma_base64_comma_free(r);
            assert forall|i: int| 0 <= i < t.len() implies t[i] != ',' by {
                if i >= 4 {
                    assert(t[i] == base64_standard_encode(r)[i - 4]);
                }
            }
        }
    }
}

/// The JSON array items, split at their commas, of a list of byte strings:
/// one quoted base64 text per byte string, in order.
proof fn lemma_items_of_payload(p: Seq<Seq<u8>>)
    requires
        p.len() >= 1,
    ensures
        split_commas(json_string_items(base64_texts(p)))
            == Seq::new(p.len(), |i: int| quoted_item(base64_standard_encode(p[i]))),
{
    let texts = base64_texts(p);
    assert forall|i: int| 0 <= i < texts.len() implies comma_free(#[trigger] texts[i]) by {
        lemma_base64_comma_free(p[i]);
    }
    lemma_split_string_items(texts);
    assert(texts.map_values(|t: Seq<char>| quoted_item(t)) =~= Seq::new(
        p.len(),
        |i: int| quoted_item(base64_standard_encode(p[i])),
    ));
}

/// Law: the JSON body of a `Payload` lists every byte string: it is the
/// object opening `{"payload":[`, the array items and the closing `]}`; the
/// items, split at their commas, are exactly one quoted standard base64
/// text per byte string, in order (none for an empty list).
pub proof fn lemma_payload_json_lists_every_buffer(p: Seq<Seq<u8>>)
    ensures
        payload_json(p).len() >= "{\"payload\":["@.len() + "]}"@.len(),
        payload_json(p).take("{\"payload\":["@.len() as int) == "{\"payload\":["@,
        payload_json(p).skip(payload_json(p).len() - "]}"@.len()) == "]}"@,
        p.len() == 0 ==> array_inner(payload_json(p), "{\"payload\":["@, "]}"@).len() == 0,
        p.len() >= 1 ==> split_commas(array_inner(payload_json(p), "{\"payload\":["@, "]}"@))
            == Seq::new(p.len(), |i: int| quoted_item(base64_standard_encode(p[i]))),
{
    let pre = "{\"payload\":["@;
    let suf = "]}"@;
    let items = json_string_items(base64_texts(p));
    let body = payload_json(p);
    assert(body == pre + items + suf);
    assert(body.take(pre.len() as int) =~= pre);
    assert(body.skip(body.len() - suf.len()) =~= suf);
    assert(array_inner(body, pre, suf) =~= items);
    if p.len() >= 1 {
        lemma_items_of_payload(p);
    } else {
        assert(base64_texts(p).len() == 0);
    }
}

/// Law: the JSON body of an `Init` message carries the whole public key: it
/// is the opening `{"public_key":{"payload":[`, the array items and the
/// closing `]}}`; the items, split at their commas, are exactly one quoted
/// standard base64 text per byte string of the key, in order.
pub proof fn lemma_init_json_carries_whole_key(pk: Seq<Seq<u8>>)
    ensures
        init_json(pk).len() >= "{\"public_key\":{\"payload\":["@.len() + "]}}"@.len(),
        init_json(pk).take("{\"public_key\":{\"payload\":["@.len() as int) == "{\"public_key\":{\"payload\":["@,
        init_json(pk).skip(init_json(pk).len() - "]}}"@.len()) == "]}}"@,
        pk.len() == 0 ==> array_inner(init_json(pk), "{\"public_key\":{\"payload\":["@, "]}}"@).len() == 0,
        pk.len() >= 1 ==> split_commas(array_inner(init_json(pk), "{\"public_key\":{\"payload\":["@, "]}}"@))
            == Seq::new(pk.len(), |i: int| quoted_item(base64_standard_encode(pk[i]))),
{
    reveal_strlit("{\"public_key\":{\"payload\":[");
    reveal_strlit("{\"public_key\":");
    reveal_strlit("{\"payload\":[");
    reveal_strlit("]}}");
    reveal_strlit("]}");
    reveal_strlit("}");
    let pre = "{\"public_key\":{\"payload\":["@;
    let suf = "]}}"@;
    let items = json_string_items(base64_texts(pk));
    let body = init_json(pk);
    assert(body =~= pre + items + suf);
    assert(body.take(pre.len() as int) =~= pre);
    assert(body.skip(body.len() - suf.len()) =~= suf);
    assert(array_inner(body, pre, suf) =~= items);
    if pk.len() >= 1 {
        lemma_items_of_payload(pk);
    } else {
        assert(base64_texts(pk).len() == 0);
    }
}


/// Law: the six-bit values 0 to 63 map, in order, onto the standard base64
/// alphabet of RFC 4648: `A`-`Z`, `a`-`z`, `0`-`9`, `+`, `/`.
pub proof fn lemma_base64_alphabet(v: int)
    requires
        0 <= v < 64,
    ensures
        base64_char(v) == "ABCDEFGHIJKLMNOPQRSTUVWXYZabcdefghijklmnopqrstuvwxyz0123456789+/"@[v],
{
    reveal_strlit("ABCDEFGHIJKLMNOPQRSTUVWXYZabcdefghijklmnopqrstuvwxyz0123456789+/");
}

/// The test vectors of RFC 4648, section 10, for standard padded base64.
pub proof fn lemma_base64_rfc_vectors()
    ensures
        base64_standard_encode(Seq::empty()) == Seq::<char>::empty(),
        base64_standard_encode(seq![102u8]) == "Zg=="@,
        base64_standard_encode(seq![102u8, 111u8]) == "Zm8="@,
        base64_standard_encode(seq![102u8, 111u8, 111u8]) == "Zm9v"@,
        base64_standard_encode(seq![102u8, 111u8, 111u8, 98u8]) == "Zm9vYg=="@,
        base64_standard_encode(seq![102u8, 111u8, 111u8, 98u8, 97u8]) == "Zm9vYmE="@,
        base64_standard_encode(seq![102u8, 111u8, 111u8, 98u8, 97u8, 114u8]) == "Zm9vYmFy"@,
{
    reveal_strlit("Zg==");
    reveal_strlit("Zm8=");
    reveal_strlit("Zm9v");
    reveal_strlit("Zm9vYg==");
    reveal_strlit("Zm9vYmE=");
    reveal_strlit("Zm9vYmFy");
    let f = seq![102u8];
    let fo = seq![102u8, 111u8];
    let foo = seq![102u8, 111u8, 111u8];
    let foob = seq![102u8, 111u8, 111u8, 98u8];
    let fooba = seq![102u8, 111u8, 111u8, 98u8, 97u8];
    let foobar = seq![102u8, 111u8, 111u8, 98u8, 97u8, 114u8];
    assert(base64_standard_encode(f) =~= "Zg=="@);
    assert(base64_standard_encode(fo) =~= "Zm8="@);
    let e = Seq::<u8>::empty();
    assert(base64_standard_encode(e) =~= Seq::<char>::empty());
    assert(foo.subrange(3, 3) =~= e);
    assert(base64_standard_encode(foo) =~= "Zm9v"@);
    assert(foob.subrange(3, 4) =~= seq![98u8]);
    assert(base64_standard_encode(seq![98u8]) =~= "Yg=="@) by {
        reveal_strlit("Yg==");
    }
    reveal_strlit("Yg==");
    assert(base64_standard_encode(foob) =~= "Zm9vYg=="@);
    assert(fooba.subrange(3, 5) =~= seq![98u8, 97u8]);
    reveal_strlit("YmE=");
    assert(base64_standard_encode(seq![98u8, 97u8]) =~= "YmE="@);
    assert(base64_standard_encode(fooba) =~= "Zm9vYmE="@);
    assert(foobar.subrange(3, 6) =~= seq![98u8, 97u8, 114u8]);
    reveal_strlit("YmFy");
    assert(seq![98u8, 97u8, 114u8].subrange(3, 3) =~= e);
    assert(base64_standard_encode(seq![98u8, 97u8, 114u8]) =~= "YmFy"@);
    assert(base64_standard_encode(foobar) =~= "Zm9vYmFy"@);
}

} // verus!
