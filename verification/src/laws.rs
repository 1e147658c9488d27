//! General properties of the protocol engine, stated over the same
//! specification model that the executable functions' contracts use and
//! proved once for all inputs.

use vstd::prelude::*;
use crate::codec::{spec_decode_envelope, spec_decode_message_data, MessageDataV, MsgTypes};
use crate::state::{spec_apply, spec_dispatch, spec_roster_of, ChatV, DispatchResult};

verus! {

/// State after a whole sequence of raw payloads, applied in arrival
/// order.
pub open spec fn spec_apply_all(s: ChatV, ps: Seq<Seq<char>>) -> ChatV
    decreases ps.len(),
{
    if ps.len() == 0 {
        s
    } else {
        spec_apply_all(spec_apply(s, ps[0]), ps.drop_first())
    }
}

/// True of a payload that decodes to a `users` envelope.
pub open spec fn is_users_payload(p: Seq<char>) -> bool {
    spec_decode_envelope(p) matches Result::Ok(Option::Some(e)) && e.message_type
        == MsgTypes::Users
}

/// The roster snapshot a `users` payload carries; an absent `dataArray`
/// counts as the empty snapshot.
pub open spec fn users_names(p: Seq<char>) -> Seq<Seq<char>>
    recommends
        is_users_payload(p),
{
    match spec_decode_envelope(p) {
        Result::Ok(Option::Some(e)) => match e.data_array {
            Option::Some(a) => a,
            Option::None => Seq::empty(),
        },
        _ => Seq::empty(),
    }
}

/// Full-replace roster sync: after any non-empty sequence of `users`
/// payloads, from any starting state, the roster equals exactly the
/// snapshot of the most recent payload, and the history is untouched.
#[verifier::rlimit(60)]
pub proof fn lemma_roster_full_replace(s: ChatV, ps: Seq<Seq<char>>)
    requires
        ps.len() > 0,
        forall|i: int| 0 <= i < ps.len() ==> is_users_payload(ps[i]),
    ensures
        spec_apply_all(s, ps).users == spec_roster_of(users_names(ps.last())),
        spec_apply_all(s, ps).messages == s.messages,
    decreases ps.len(),
{
    assert(is_users_payload(ps[0]));
    let s1 = spec_apply(s, ps[0]);
    let rest = ps.drop_first();
    assert(s1.users == spec_roster_of(users_names(ps[0])));
    assert(s1.messages == s.messages);
    assert(spec_apply_all(s, ps) == spec_apply_all(s1, rest));
    if ps.len() == 1 {
        assert(rest =~= Seq::<Seq<char>>::empty());
        assert(spec_apply_all(s1, rest) == s1);
        assert(ps.last() == ps[0]);
    } else {
        assert forall|i: int| 0 <= i < rest.len() implies is_users_payload(rest[i]) by {
            assert(rest[i] == ps[i + 1]);
        }
        lemma_roster_full_replace(s1, rest);
        assert(rest.last() == ps.last());
    }
}

/// True of a payload that decodes to a `message` envelope whose nested
/// payload is well formed.
pub open spec fn is_message_payload(p: Seq<char>) -> bool {
    spec_decode_envelope(p) matches Result::Ok(Option::Some(e)) && e.message_type
        == MsgTypes::Message && (e.data matches Option::Some(d) && spec_decode_message_data(d)
        is Ok)
}

/// The history entry a well-formed `message` payload carries.
pub open spec fn message_entry(p: Seq<char>) -> MessageDataV
    recommends
        is_message_payload(p),
{
    match spec_decode_envelope(p) {
        Result::Ok(Option::Some(e)) => match e.data {
            Option::Some(d) => match spec_decode_message_data(d) {
                Result::Ok(m) => m,
                Result::Err(_) => MessageDataV { from: Seq::empty(), message: Seq::empty() },
            },
            Option::None => MessageDataV { from: Seq::empty(), message: Seq::empty() },
        },
        _ => MessageDataV { from: Seq::empty(), message: Seq::empty() },
    }
}

/// Append-only, order-preserving history: after a sequence of N
/// well-formed `message` payloads, the history is the old history
/// followed by the N carried entries in arrival order — it has grown by
/// exactly N, the i-th new entry is the i-th applied payload's entry —
/// and the roster is untouched.
#[verifier::rlimit(60)]
pub proof fn lemma_history_append_order(s: ChatV, ps: Seq<Seq<char>>)
    requires
        forall|i: int| 0 <= i < ps.len() ==> is_message_payload(ps[i]),
    ensures
        spec_apply_all(s, ps).messages == s.messages + ps.map(
            |i: int, p: Seq<char>| message_entry(p),
        ),
        spec_apply_all(s, ps).users == s.users,
    decreases ps.len(),
{
    let entries = ps.map(|i: int, p: Seq<char>| message_entry(p));
    if ps.len() == 0 {
        assert(s.messages + entries =~= s.messages);
    } else {
        assert(is_message_payload(ps[0]));
        let s1 = spec_apply(s, ps[0]);
        let rest = ps.drop_first();
        assert(s1.users == s.users);
        assert(s1.messages == s.messages.push(message_entry(ps[0])));
        assert(spec_apply_all(s, ps) == spec_apply_all(s1, rest));
        assert forall|i: int| 0 <= i < rest.len() implies is_message_payload(rest[i]) by {
            assert(rest[i] == ps[i + 1]);
        }
        lemma_history_append_order(s1, rest);
        let rest_entries = rest.map(|i: int, p: Seq<char>| message_entry(p));
        assert(entries[0] == message_entry(ps[0]));
        assert(rest_entries =~= entries.drop_first());
        assert(s.messages.push(entries[0]) + rest_entries =~= s.messages + entries);
    }
}

/// A structurally valid payload whose `messageType` is an unrecognized
/// string is ignored: roster and history are unchanged, the outcome is no
/// error, and no re-render is needed.
pub proof fn lemma_unrecognized_kind_ignored(s: ChatV, p: Seq<char>)
    requires
        spec_decode_envelope(p) matches Result::Ok(Option::None),
    ensures
        spec_apply(s, p) == s,
        spec_dispatch(p) == DispatchResult::Ignored,
        !spec_dispatch(p).spec_needs_redraw(),
{
}

/// A payload that is not validly structured leaves the state unchanged
/// and is reported as a malformed envelope, never propagated as a fault.
pub proof fn lemma_malformed_payload_no_change(s: ChatV, p: Seq<char>)
    requires
        spec_decode_envelope(p) is Err,
    ensures
        spec_apply(s, p) == s,
        spec_dispatch(p) == DispatchResult::MalformedEnvelope,
        !spec_dispatch(p).spec_needs_redraw(),
{
}

} // verus!
