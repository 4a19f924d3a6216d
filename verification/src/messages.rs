use vstd::prelude::*;

use crate::buffer::{buffers_from_payload, buffers_view, le_bytes, payload_from_buffers, tag_feature, ByteBuffer};
use crate::codec::{
    base64_texts,
    base64_len_fits,
    decode_all, decode_payload_texts, encode_init_json, init_json, payload_encodable, payload_json,
    strings_view,
};
use crate::rest::{route_url, rest_route_path, RestRequest, RestRoute};

verus! {

/// Whether the base64 text of `n` bytes has a length that a `usize` holds.
fn len_fits(n: usize) -> (ok: bool)
    ensures
        ok == base64_len_fits(n as nat),
{
    let q = n / 3;
    if q > usize::MAX / 4 {
        return false;
    }
    let c = q * 4;
    if n % 3 > 0 {
        c <= usize::MAX - 4
    } else {
        true
    }
}

/// Whether every buffer of a list can be written as base64 text, which the
/// upload requests need.
pub fn buffers_encodable(data: &Vec<ByteBuffer>) -> (ok: bool)
    ensures
        ok == payload_encodable(buffers_view(data@)),
{
    let n = data.len();
    for i in 0..n
        invariant
            n == data@.len(),
            forall|j: int| 0 <= j < i ==> base64_len_fits(#[trigger] data@[j]@.len()),
    {
        if !len_fits(data[i].buffer.len()) {
            assert(buffers_view(data@)[i as int] == data@[i as int]@);
            return false;
        }
    }
    assert forall|j: int| 0 <= j < buffers_view(data@).len() implies base64_len_fits(
        #[trigger] buffers_view(data@)[j].len(),
    ) by {
        assert(buffers_view(data@)[j] == data@[j]@);
    }
    true
}

/// The JSON body of the key exchange: the partner's homomorphic-encryption
/// public key, a list of buffers, as an `Init` message.
pub fn key_exchange_body(public_key: &Vec<ByteBuffer>) -> (body: String)
    requires
        payload_encodable(buffers_view(public_key@)),
    ensures
        body@ == init_json(buffers_view(public_key@)),
        decode_all(base64_texts(buffers_view(public_key@))) == Some(buffers_view(public_key@)),
{
    let payload = payload_from_buffers(public_key);
    encode_init_json(&payload)
}

/// The buffers that a received `Payload` holds, given the base64 texts of
/// its `payload` field; `None` as soon as one text is not base64.
pub fn buffers_from_texts(texts: &Vec<String>) -> (res: Option<Vec<ByteBuffer>>)
    ensures
        res matches Some(b) ==> decode_all(strings_view(texts@)) == Some(buffers_view(b@)),
        res is None ==> decode_all(strings_view(texts@)) is None,
{
    match decode_payload_texts(texts) {
        Some(payload) => Some(buffers_from_payload(&payload)),
        None => None,
    }
}

/// The encrypted sums of the features, one list of buffers per feature, in
/// the order the company sent them, given the base64 texts of each sum's
/// `payload` field. Every sum carries a payload (a sum without one has no
/// value to decrypt); `None` as soon as one text is not base64.
pub fn encrypted_sums(sums: &Vec<Option<Vec<String>>>) -> (res: Option<Vec<Vec<ByteBuffer>>>)
    requires
        forall|i: int| 0 <= i < sums@.len() ==> (#[trigger] sums@[i]) is Some,
    ensures
        res is Some <==> (forall|i: int| 0 <= i < sums@.len()
            ==> (#[trigger] decode_all(strings_view(sums@[i].unwrap()@))) is Some),
        res matches Some(r) ==> r@.len() == sums@.len() && (forall|i: int| 0 <= i < sums@.len()
            ==> decode_all(strings_view(sums@[i].unwrap()@)) == Some(#[trigger] buffers_view(r@[i]@))),
{
    let mut out: Vec<Vec<ByteBuffer>> = Vec::new();
    let n = sums.len();
    for i in 0..n
        invariant
            n == sums@.len(),
            forall|j: int| 0 <= j < sums@.len() ==> (#[trigger] sums@[j]) is Some,
            out@.len() == i,
            forall|j: int| 0 <= j < i ==> decode_all(strings_view(sums@[j].unwrap()@))
                == Some(#[trigger] buffers_view(out@[j]@)),
    {
        let texts = sums[i].as_ref().unwrap();
        match buffers_from_texts(texts) {
            Some(b) => {
                out.push(b);
            },
            None => {
                assert(decode_all(strings_view(sums@[i as int].unwrap()@)) is None);
                return None;
            },
        }
    }
    assert forall|i: int| 0 <= i < sums@.len() implies (#[trigger] decode_all(
        strings_view(sums@[i].unwrap()@),
    )) is Some by {
        assert(decode_all(strings_view(sums@[i].unwrap()@)) == Some(buffers_view(out@[i]@)));
    }
    Some(out)
}

/// The upload of feature column `index`: the column, followed by the buffer
/// that names its index, posted on the feature route of `host_pre`.
pub fn feature_request(feature: Vec<ByteBuffer>, index: usize, host_pre: &String) -> (req: RestRequest)
    requires
        payload_encodable(buffers_view(feature@)),
    ensures
        req.url@ == host_pre@ + rest_route_path(RestRoute::UPartnerFeature),
        req.body@ == payload_json(buffers_view(feature@).push(le_bytes(index as u64))),
        decode_all(base64_texts(buffers_view(feature@).push(le_bytes(index as u64))))
            == Some(buffers_view(feature@).push(le_bytes(index as u64))),
{
    let ghost before = buffers_view(feature@);
    let mut feature = feature;
    tag_feature(&mut feature, index);
    let ghost after = buffers_view(feature@);
    assert(after == before.push(le_bytes(index as u64)));
    assert forall|i: int| 0 <= i < after.len() implies crate::codec::base64_len_fits(#[trigger] after[i].len()) by {
        if i < before.len() {
            assert(after[i] == before[i]);
        } else {
            assert(after[i] == le_bytes(index as u64));
        }
    }
    let url = route_url(RestRoute::UPartnerFeature, host_pre);
    let payload = payload_from_buffers(&feature);
    let body = crate::codec::encode_payload_json(&payload);
    RestRequest { url, body }
}

} // verus!
