//! Well-formedness checks on trace payloads and manifest lookups, through
//! serde_json. A payload is enqueued for shipping only when it decodes as a
//! JSON value; the project manifest is probed for the fields that settle
//! the import style.

use vstd::prelude::*;

use crate::extractor::views;

verus! {

#[verifier::external_type_specification]
#[verifier::external_body]
pub struct ExJsonValue(serde_json::Value);

#[verifier::external_type_specification]
#[verifier::external_body]
pub struct ExJsonError(serde_json::Error);

/// Whether a byte sequence is a well-formed JSON document.
pub uninterp spec fn is_valid_json(bytes: Seq<u8>) -> bool;

/// Relies on serde_json::from_slice::<Value>: it returns `Ok` exactly when
/// the input is a well-formed JSON document, a function of the bytes alone.
#[verifier::external_body]
fn parse_json(bytes: &Vec<u8>) -> (r: Result<serde_json::Value, serde_json::Error>)
    ensures
        r.is_ok() == is_valid_json(bytes@),
{
    serde_json::from_slice::<serde_json::Value>(bytes.as_slice())
}

/// Decides whether a payload is a well-formed JSON document.
pub fn json_valid(bytes: &Vec<u8>) -> (r: bool)
    ensures
        r == is_valid_json(bytes@),
{
    parse_json(bytes).is_ok()
}

/// Parses a manifest; `None` when it is not well-formed JSON.
pub fn parse_manifest(bytes: &Vec<u8>) -> (r: Option<serde_json::Value>)
    ensures
        r.is_some() == is_valid_json(bytes@),
{
    match parse_json(bytes) {
        Ok(v) => Some(v),
        Err(_) => None,
    }
}

/// Relies on serde_json::Value::get with a string key: the member of a JSON
/// object under that key, `None` for non-objects and absent keys.
#[verifier::external_body]
pub(crate) fn json_get<'a>(v: &'a serde_json::Value, key: &str) -> (r: Option<&'a serde_json::Value>) {
    v.get(key)
}

/// Relies on serde_json::Value::as_str: the text of a JSON string value,
/// `None` for every other kind of value.
#[verifier::external_body]
pub(crate) fn json_as_str<'a>(v: &'a serde_json::Value) -> (r: Option<&'a str>) {
    v.as_str()
}

/// The subsequence of payloads that are well-formed JSON documents, in
/// their original order.
pub open spec fn spec_keep_valid(ps: Seq<Seq<u8>>) -> Seq<Seq<u8>>
    decreases ps.len(),
{
    if ps.len() == 0 {
        Seq::empty()
    } else if is_valid_json(ps[0]) {
        seq![ps[0]] + spec_keep_valid(ps.drop_first())
    } else {
        spec_keep_valid(ps.drop_first())
    }
}

/// Validates payload candidates, keeping exactly the well-formed ones, in
/// order; the rest are discarded, as the stdout reader logs and drops them.
pub fn keep_valid(payloads: &Vec<Vec<u8>>) -> (kept: Vec<Vec<u8>>)
    ensures
        views(kept@) == spec_keep_valid(views(payloads@)),
{
    let mut kept: Vec<Vec<u8>> = Vec::new();
    let mut i: usize = 0;
    proof {
        assert(views(payloads@).skip(0) =~= views(payloads@));
        assert(views(kept@) =~= Seq::<Seq<u8>>::empty());
        assert(views(kept@) + spec_keep_valid(views(payloads@)) =~= spec_keep_valid(views(payloads@)));
    }
    while i < payloads.len()
        invariant
            i <= payloads@.len(),
            views(kept@) + spec_keep_valid(views(payloads@).skip(i as int))
                == spec_keep_valid(views(payloads@)),
        decreases payloads@.len() - i,
    {
        let ghost pre = views(payloads@).skip(i as int);
        let ghost kept0 = views(kept@);
        proof {
            assert(pre[0] == views(payloads@)[i as int]);
            assert(pre.drop_first() =~= views(payloads@).skip(i + 1));
        }
        if json_valid(&payloads[i]) {
            kept.push(payloads[i].clone());
            proof {
                assert(views(kept@) =~= kept0.push(views(payloads@)[i as int]));
                assert(spec_keep_valid(pre)
                    == seq![pre[0]] + spec_keep_valid(views(payloads@).skip(i + 1)));
                assert(views(kept@) + spec_keep_valid(views(payloads@).skip(i + 1))
                    =~= kept0 + spec_keep_valid(pre));
            }
        } else {
            proof {
                assert(spec_keep_valid(pre) == spec_keep_valid(views(payloads@).skip(i + 1)));
            }
        }
        i = i + 1;
    }
    proof {
        assert(views(payloads@).skip(payloads@.len() as int) =~= Seq::<Seq<u8>>::empty());
        assert(views(kept@) + spec_keep_valid(views(payloads@).skip(payloads@.len() as int))
            =~= views(kept@));
    }
    kept
}

} // verus!
