//! The ingestion gateway: the signature-verification-and-parse state machine
//! behind the webhook endpoint.

use crate::encoding::{ascii_bytes, bytes_to_str, decode_signature, hex_chars, sig_decode};
use crate::json::json_parse;
use crate::signature::{hmac_sha1, MAX_MAC_INPUT};
use crate::types::{parse_payload, parse_payload_spec, msgs_view, AppState, Message, MsgSpec};
use vstd::prelude::*;
use vstd::utf8::{decode_utf8, valid_utf8};

verus! {

/// What the gateway answers: a status code, the verification token when it is
/// echoed, and the messages to hand to the queue, in payload order.
pub struct IngestOutcome {
    pub status: u16,
    pub token: Option<String>,
    pub messages: Vec<Message>,
}

/// Abstract shape of the gateway's answer.
pub struct IngestSpec {
    pub status: int,
    pub with_token: bool,
    pub messages: Seq<MsgSpec>,
}

/// The gateway's decision, step by step: a missing signature is answered with
/// success and the token (the platform's handshake); a header that does not
/// spell twenty bytes of hex, or a tag that does not match the body's MAC, is
/// unauthorized; a body that is not UTF-8 is not acceptable; a text that is
/// no payload envelope is unprocessable; otherwise every message of the
/// payload is enqueued, in order, and the token echoed.
pub open spec fn ingest_spec(
    secret: Seq<u8>,
    sig: Option<Seq<u8>>,
    body: Seq<u8>,
) -> IngestSpec {
    match sig {
        None => IngestSpec { status: 200, with_token: true, messages: Seq::empty() },
        Some(h) => match sig_decode(h) {
            None => IngestSpec { status: 401, with_token: false, messages: Seq::empty() },
            Some(tag) => if tag != hmac_sha1(secret, body) {
                IngestSpec { status: 401, with_token: false, messages: Seq::empty() }
            } else if !valid_utf8(body) {
                IngestSpec { status: 406, with_token: false, messages: Seq::empty() }
            } else {
                match parse_payload_spec(decode_utf8(body)) {
                    None => IngestSpec {
                        status: 422,
                        with_token: false,
                        messages: Seq::empty(),
                    },
                    Some(ms) => IngestSpec { status: 200, with_token: true, messages: ms },
                }
            },
        },
    }
}

/// The base path always answers success; the platform probes it when the
/// drain is registered.
pub fn root() -> (r: u16)
    ensures
        r == 200,
{
    200
}

/// Liveness probe: always success, no side effects.
pub fn health_check() -> (r: u16)
    ensures
        r == 200,
{
    200
}

/// Answer one webhook delivery: authenticate, decode, parse, and hand back
/// the messages to enqueue. The caller performs no work the contract does
/// not state: the outcome is a function of the secret, the header and the
/// body alone.
pub fn ingest(state: &AppState, signature: Option<&[u8]>, body: &[u8]) -> (r: IngestOutcome)
    requires
        state.wf(),
        body@.len() < MAX_MAC_INPUT,
    ensures
        ({
            let s = ingest_spec(
                state.secret(),
                match signature {
                    Some(h) => Some(h@),
                    None => None,
                },
                body@,
            );
            &&& r.status == s.status
            &&& (match r.token {
                Some(t) => s.with_token && t@ == state.token(),
                None => !s.with_token,
            })
            &&& msgs_view(r.messages@) == s.messages
        }),
{
    let sig_header = match signature {
        None => {
            let (status, token) = state.ok_response();
            proof {
                assert(msgs_view(Seq::<Message>::empty()) =~= Seq::<MsgSpec>::empty());
            }
            return IngestOutcome { status, token: Some(token), messages: Vec::new() };
        },
        Some(h) => h,
    };
    let sig_bytes = match decode_signature(sig_header) {
        None => {
            proof {
                assert(msgs_view(Seq::<Message>::empty()) =~= Seq::<MsgSpec>::empty());
            }
            return IngestOutcome { status: 401, token: None, messages: Vec::new() };
        },
        Some(v) => v,
    };
    if !state.verify_signature(body, sig_bytes.as_slice()) {
        proof {
            assert(msgs_view(Seq::<Message>::empty()) =~= Seq::<MsgSpec>::empty());
        }
        return IngestOutcome { status: 401, token: None, messages: Vec::new() };
    }
    let text = match bytes_to_str(body) {
        None => {
            proof {
                assert(msgs_view(Seq::<Message>::empty()) =~= Seq::<MsgSpec>::empty());
            }
            return IngestOutcome { status: 406, token: None, messages: Vec::new() };
        },
        Some(t) => t,
    };
    match parse_payload(text) {
        None => {
            proof {
                assert(msgs_view(Seq::<Message>::empty()) =~= Seq::<MsgSpec>::empty());
            }
            IngestOutcome { status: 422, token: None, messages: Vec::new() }
        },
        Some(p) => {
            let (status, token) = state.ok_response();
            IngestOutcome { status, token: Some(token), messages: p.0 }
        },
    }
}

/// A request without a signature header is the platform's registration
/// handshake: whatever the body holds, it is answered with success and the
/// verification token, and nothing is enqueued.
pub proof fn lemma_missing_signature_is_handshake(secret: Seq<u8>, body: Seq<u8>)
    ensures
        ingest_spec(secret, None, body).status == 200,
        ingest_spec(secret, None, body).with_token,
        ingest_spec(secret, None, body).messages == Seq::<MsgSpec>::empty(),
{
}

/// A signature header that does not spell exactly twenty bytes of hex is
/// unauthorized: no token is echoed and nothing is enqueued, whatever the
/// body holds.
pub proof fn lemma_malformed_signature_rejected(
    secret: Seq<u8>,
    header: Seq<u8>,
    body: Seq<u8>,
)
    requires
        sig_decode(header) is None,
    ensures
        ingest_spec(secret, Some(header), body).status == 401,
        !ingest_spec(secret, Some(header), body).with_token,
        ingest_spec(secret, Some(header), body).messages == Seq::<MsgSpec>::empty(),
{
}

/// A well-formed signature that is not the body's MAC under the shared
/// secret is unauthorized: no token is echoed and nothing is enqueued.
pub proof fn lemma_wrong_signature_rejected(secret: Seq<u8>, header: Seq<u8>, body: Seq<u8>)
    requires
        sig_decode(header) matches Some(tag) && tag != hmac_sha1(secret, body),
    ensures
        ingest_spec(secret, Some(header), body).status == 401,
        !ingest_spec(secret, Some(header), body).with_token,
        ingest_spec(secret, Some(header), body).messages == Seq::<MsgSpec>::empty(),
{
}

/// An accepted payload enqueues exactly one message per array element of the
/// parsed body, in array order.
pub proof fn lemma_one_message_per_element(text: Seq<char>)
    ensures
        parse_payload_spec(text) matches Some(ms) ==> {
            &&& json_parse(text) matches Some(j)
            &&& j matches crate::json::JsonSpec::Arr(a)
            &&& ms.len() == a.len()
            &&& forall|i: int| 0 <= i < a.len() ==> crate::types::msg_of(a[i]) == Some(ms[i])
        },
{
    if parse_payload_spec(text) is Some {
        if let Some(j) = json_parse(text) {
            if let crate::json::JsonSpec::Arr(a) = j {
                let ms = parse_payload_spec(text)->0;
                lemma_msgs_of_elements(a);
            }
        }
    }
}

/// Element by element, a decoded array of messages mirrors its source.
proof fn lemma_msgs_of_elements(a: Seq<crate::json::JsonSpec>)
    ensures
        crate::types::msgs_of(a) matches Some(ms) ==> ms.len() == a.len() && (forall|i: int|
            0 <= i < a.len() ==> crate::types::msg_of(a[i]) == Some(ms[i])),
    decreases a.len(),
{
    if a.len() > 0 {
        lemma_msgs_of_elements(a.drop_last());
    }
}

/// Signing a body with the shared secret and presenting exactly that
/// signature, spelled in lowercase hex, always passes authentication: the
/// outcome is then decided by the body alone, and a well-formed payload is
/// answered with success, the token, and one enqueued message per array
/// element, in order.
pub proof fn lemma_signature_round_trip(
    secret: Seq<u8>,
    body: Seq<u8>,
    tag: Seq<u8>,
)
    requires
        tag == hmac_sha1(secret, body),
        tag.len() == 20,
    ensures
        ({
            let header = ascii_bytes(hex_chars(tag));
            let outcome = ingest_spec(secret, Some(header), body);
            &&& outcome.status != 401
            &&& (valid_utf8(body) ==> match parse_payload_spec(decode_utf8(body)) {
                Some(ms) => outcome.status == 200 && outcome.with_token && outcome.messages
                    == ms,
                None => outcome.status == 422,
            })
            &&& (!valid_utf8(body) ==> outcome.status == 406)
        }),
{
    crate::encoding::lemma_hex_round_trip(tag);
    let header = ascii_bytes(hex_chars(tag));
    assert(header.len() == 40);
    assert(sig_decode(header) == Some(tag));
}

} // verus!
