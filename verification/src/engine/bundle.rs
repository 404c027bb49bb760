use vstd::prelude::*;
use vstd::string::*;

use crate::encoding::{base58_encode, base58_text};
use crate::json::{json_is_valid, json_parses, json_rendering_at, json_string_at, json_text_at, json_value_text_at};
use crate::types::lifecycle::strs_view;

verus! {

/// The path of the Jito Block Engine's bundle JSON-RPC endpoint.
pub const BUNDLES_PATH: &'static str = "/api/v1/bundles";

/// The bundle id recorded when the Block Engine's reply names none.
pub const UNKNOWN_BUNDLE_ID: &'static str = "unknown_id";

/// The URL of the bundle endpoint of the block engine at `jito_url`.
pub fn bundles_endpoint(jito_url: &str) -> (r: String)
    ensures
        r@ == jito_url@ + BUNDLES_PATH@,
{
    let mut r = String::from_str(jito_url);
    r.append(BUNDLES_PATH);
    r
}

/// A signed transaction of a bundle, serialized: its first signature, when it has one, and
/// its wire bytes.
pub struct SerializedTransaction {
    pub first_signature: Option<Vec<u8>>,
    pub bytes: Vec<u8>,
}

/// The base58 text of each transaction's wire bytes, in order.
pub open spec fn encoded_transactions(txs: Seq<SerializedTransaction>) -> Seq<Seq<char>> {
    txs.map_values(|t: SerializedTransaction| base58_text(t.bytes@))
}

/// The base58 text of the first signature of each transaction that has one, in order.
pub open spec fn signature_texts(txs: Seq<SerializedTransaction>) -> Seq<Seq<char>>
    decreases txs.len(),
{
    if txs.len() == 0 {
        Seq::empty()
    } else {
        signature_texts(txs.drop_last()) + match txs.last().first_signature {
            Some(sig) => seq![base58_text(sig@)],
            None => Seq::empty(),
        }
    }
}

/// Encodes the transactions of a bundle for `sendBundle`: the base58 text of each
/// transaction, and the signatures by which its landing is followed.
pub fn encode_bundle(txs: &Vec<SerializedTransaction>) -> (r: (Vec<String>, Vec<String>))
    ensures
        strs_view(r.0@) == encoded_transactions(txs@),
        strs_view(r.1@) == signature_texts(txs@),
{
    let mut encoded: Vec<String> = Vec::new();
    let mut signatures: Vec<String> = Vec::new();
    let mut i: usize = 0;
    while i < txs.len()
        invariant
            i <= txs@.len(),
            strs_view(encoded@) == encoded_transactions(txs@.take(i as int)),
            strs_view(signatures@) == signature_texts(txs@.take(i as int)),
        decreases txs@.len() - i,
    {
        let ghost prev_sigs = signatures@;
        let ghost prev_enc = encoded@;
        proof {
            assert(txs@.take(i + 1).drop_last() =~= txs@.take(i as int));
        }
        match &txs[i].first_signature {
            Some(sig) => {
                signatures.push(base58_encode(sig));
                assert(strs_view(signatures@) =~= strs_view(prev_sigs) + seq![base58_text(sig@)]);
            },
            None => {
                assert(strs_view(signatures@) =~= strs_view(prev_sigs) + Seq::<Seq<char>>::empty());
            },
        }
        let text = base58_encode(&txs[i].bytes);
        let ghost text_view = text;
        encoded.push(text);
        proof {
            assert(strs_view(prev_enc).len() == prev_enc.len());
            assert(encoded_transactions(txs@.take(i as int)).len() == i);
            assert(encoded@ == prev_enc.push(text_view));
            assert forall|k: int| 0 <= k <= i implies strs_view(encoded@)[k] == encoded_transactions(txs@.take(i + 1))[k] by {
                if k < i {
                    assert(strs_view(prev_enc)[k] == encoded_transactions(txs@.take(i as int))[k]);
                }
            }
            assert(strs_view(encoded@) =~= encoded_transactions(txs@.take(i + 1)));
        }
        i += 1;
    }
    proof {
        assert(txs@.take(txs@.len() as int) =~= txs@);
    }
    (encoded, signatures)
}

/// The id of a submitted bundle: the one the Block Engine returned, or `unknown_id` when its
/// reply carried none.
pub fn bundle_id_or_unknown(result: Option<String>) -> (r: String)
    ensures
        r@ == match result {
            Some(id) => id@,
            None => UNKNOWN_BUNDLE_ID@,
        },
{
    match result {
        Some(id) => id,
        None => String::from_str(UNKNOWN_BUNDLE_ID),
    }
}


/// Why a `sendBundle` reply accepted no bundle.
pub enum BundleReplyError {
    /// The reply is not JSON.
    InvalidReply,
    /// The Block Engine reported an error, written here as JSON text.
    Rejected(String),
}

/// The bundle id a successful `sendBundle` reply gives: an error when the reply is not
/// JSON or carries an `error` member (whatever its value), else its `result` string, or
/// `unknown_id` when there is none.
pub fn bundle_reply(body: &str) -> (r: Result<String, BundleReplyError>)
    ensures
        !json_parses(body@) ==> r matches Err(BundleReplyError::InvalidReply),
        json_parses(body@) && json_rendering_at(body@, "/error"@) is Some ==> (r matches Err(
            BundleReplyError::Rejected(e),
        ) && Some(e@) == json_rendering_at(body@, "/error"@)),
        json_parses(body@) && json_rendering_at(body@, "/error"@) is None ==> (r matches Ok(id) && id@
            == match json_text_at(body@, "/result"@) {
            Some(t) => t,
            None => UNKNOWN_BUNDLE_ID@,
        }),
{
    if !json_is_valid(body) {
        return Err(BundleReplyError::InvalidReply);
    }
    match json_value_text_at(body, "/error") {
        Some(e) => Err(BundleReplyError::Rejected(e)),
        None => Ok(bundle_id_or_unknown(json_string_at(body, "/result"))),
    }
}

} // verus!
