//! Outbound composer: builds the two client-initiated envelopes and
//! returns their canonical serialized forms, ready for the transport
//! channel.  Handing a payload to the transport — and logging and
//! swallowing a transport failure — is the transport owner's concern, so
//! composition never fails.

use vstd::prelude::*;
use vstd::string::*;
use crate::codec::{encode_envelope, spec_encode_envelope, Envelope, EnvelopeV, MsgTypes};

verus! {

/// Serialized registration envelope for a user name:
/// `{"messageType":"register","data":"<username>"}`.
pub open spec fn spec_register_payload(username: Seq<char>) -> Seq<char> {
    spec_encode_envelope(
        EnvelopeV {
            message_type: MsgTypes::Register,
            data_array: Option::None,
            data: Option::Some(username),
        },
    )
}

/// Serialized message-submission envelope for a body:
/// `{"messageType":"message","data":"<body>"}`.
pub open spec fn spec_submit_payload(body: Seq<char>) -> Seq<char> {
    spec_encode_envelope(
        EnvelopeV {
            message_type: MsgTypes::Message,
            data_array: Option::None,
            data: Option::Some(body),
        },
    )
}

/// Builds the registration payload sent once at session start.
pub fn register(username: &str) -> (r: String)
    ensures
        r@ == spec_register_payload(username@),
{
    let env = Envelope {
        message_type: MsgTypes::Register,
        data_array: None,
        data: Some(String::from_str(username)),
    };
    encode_envelope(&env)
}

/// Builds the submission payload for one user-initiated send.  The body
/// is taken verbatim, with no trimming or validation: an empty string is
/// a legal submission.
pub fn submit(body: &str) -> (r: String)
    ensures
        r@ == spec_submit_payload(body@),
{
    let env = Envelope {
        message_type: MsgTypes::Message,
        data_array: None,
        data: Some(String::from_str(body)),
    };
    encode_envelope(&env)
}

} // verus!
