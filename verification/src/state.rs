//! Chat state store and inbound dispatcher.
//!
//! The store owns the roster (replaced wholesale on every `users`
//! envelope) and the append-only message history.  The dispatcher decodes
//! each raw inbound payload and applies the matching transition; malformed
//! payloads and unrecognized kinds are dropped without failing the stream.

use vstd::prelude::*;
use vstd::string::*;
use crate::avatar::{avatar_url, spec_avatar_url};
use crate::codec::{
    decode_envelope, decode_message_data, spec_decode_envelope, spec_decode_message_data,
    MessageData, MessageDataV, MsgTypes,
};
use crate::outbound::{register, spec_register_payload, spec_submit_payload, submit};
use crate::strutil::{str_eq, strings_view};

verus! {

/// One roster entry: the user's name and the avatar URL derived from it.
#[derive(Debug, Clone, PartialEq)]
pub struct UserProfile {
    pub name: String,
    pub avatar: String,
}

/// Mathematical view of a [`UserProfile`].
pub struct UserProfileV {
    pub name: Seq<char>,
    pub avatar: Seq<char>,
}

impl View for UserProfile {
    type V = UserProfileV;

    open spec fn view(&self) -> UserProfileV {
        UserProfileV { name: self.name@, avatar: self.avatar@ }
    }
}

/// The roster entry a name maps to.
pub open spec fn spec_profile_of(name: Seq<char>) -> UserProfileV {
    UserProfileV { name: name, avatar: spec_avatar_url(name) }
}

/// The roster a `users` snapshot maps to, entry by entry and in order.
pub open spec fn spec_roster_of(names: Seq<Seq<char>>) -> Seq<UserProfileV> {
    names.map(|i: int, n: Seq<char>| spec_profile_of(n))
}

/// View of a roster.
pub open spec fn profiles_view(s: Seq<UserProfile>) -> Seq<UserProfileV> {
    s.map(|i: int, p: UserProfile| p@)
}

/// View of a history.
pub open spec fn messages_view(s: Seq<MessageData>) -> Seq<MessageDataV> {
    s.map(|i: int, m: MessageData| m@)
}

/// Mathematical view of the whole chat state.
pub struct ChatV {
    pub users: Seq<UserProfileV>,
    pub messages: Seq<MessageDataV>,
}

/// One event handled by [`Chat::update`]: a raw inbound payload delivered
/// by the subscription bridge, or a user-initiated submission carrying the
/// typed message body.
pub enum Msg {
    HandleMsg(String),
    SubmitMessage(String),
}

/// Outcome of dispatching one inbound payload.
#[derive(Debug, Clone, Copy, PartialEq, Eq, Structural)]
pub enum DispatchResult {
    /// A `users` envelope replaced the roster.
    RosterReplaced,
    /// A well-formed `message` envelope appended one history entry.
    MessageAppended,
    /// A `register` envelope or an unrecognized kind: no state change.
    Ignored,
    /// The payload was dropped as malformed.
    MalformedEnvelope,
    /// The nested `from`/`message` payload was dropped as malformed.
    MalformedMessagePayload,
}

impl DispatchResult {
    /// Whether the consuming view needs a re-render after this outcome.
    pub open spec fn spec_needs_redraw(self) -> bool {
        self == DispatchResult::RosterReplaced || self == DispatchResult::MessageAppended
    }

    /// A re-render is needed exactly after a state-changing outcome.
    pub fn needs_redraw(&self) -> (r: bool)
        ensures
            r == self.spec_needs_redraw(),
    {
        match self {
            DispatchResult::RosterReplaced => true,
            DispatchResult::MessageAppended => true,
            _ => false,
        }
    }
}

/// Dispatch outcome of one raw payload, as a function of the payload
/// text alone.
pub open spec fn spec_dispatch(p: Seq<char>) -> DispatchResult {
    match spec_decode_envelope(p) {
        Result::Err(_) => DispatchResult::MalformedEnvelope,
        Result::Ok(Option::None) => DispatchResult::Ignored,
        Result::Ok(Option::Some(e)) => match e.message_type {
            MsgTypes::Users => DispatchResult::RosterReplaced,
            MsgTypes::Register => DispatchResult::Ignored,
            MsgTypes::Message => match e.data {
                Option::None => DispatchResult::MalformedMessagePayload,
                Option::Some(d) => match spec_decode_message_data(d) {
                    Result::Ok(_) => DispatchResult::MessageAppended,
                    Result::Err(_) => DispatchResult::MalformedMessagePayload,
                },
            },
        },
    }
}

/// State after one raw payload: a `users` envelope replaces the roster
/// (an absent `dataArray` counts as empty), a well-formed `message`
/// envelope appends one history entry, and everything else leaves the
/// state unchanged.
pub open spec fn spec_apply(s: ChatV, p: Seq<char>) -> ChatV {
    match spec_decode_envelope(p) {
        Result::Ok(Option::Some(e)) => match e.message_type {
            MsgTypes::Users => ChatV {
                users: spec_roster_of(
                    match e.data_array {
                        Option::Some(a) => a,
                        Option::None => Seq::empty(),
                    },
                ),
                messages: s.messages,
            },
            MsgTypes::Message => match e.data {
                Option::Some(d) => match spec_decode_message_data(d) {
                    Result::Ok(m) => ChatV { users: s.users, messages: s.messages.push(m) },
                    Result::Err(_) => s,
                },
                Option::None => s,
            },
            MsgTypes::Register => s,
        },
        _ => s,
    }
}

/// True when a message body is a direct GIF URL, which the rendering
/// layer shows as an image rather than text: the raw body ends in
/// `.gif`.  The body itself is always stored unmodified.
pub open spec fn spec_is_gif_body(s: Seq<char>) -> bool {
    s.len() >= 4 && s[s.len() - 4] == '.' && s[s.len() - 3] == 'g' && s[s.len() - 2] == 'i' && s[s.len()
        - 1] == 'f'
}

/// Whether a message body is a direct GIF URL.
pub fn is_gif_body(body: &str) -> (r: bool)
    ensures
        r == spec_is_gif_body(body@),
{
    let n = body.unicode_len();
    if n < 4 {
        return false;
    }
    body.get_char(n - 4) == '.' && body.get_char(n - 3) == 'g' && body.get_char(n - 2) == 'i'
        && body.get_char(n - 1) == 'f'
}

/// The chat state store: sole owner and mutator of roster and history.
pub struct Chat {
    pub users: Vec<UserProfile>,
    pub messages: Vec<MessageData>,
}

impl View for Chat {
    type V = ChatV;

    open spec fn view(&self) -> ChatV {
        ChatV { users: profiles_view(self.users@), messages: messages_view(self.messages@) }
    }
}

impl Chat {
    /// A store with an empty roster and an empty history.
    pub fn new() -> (c: Chat)
        ensures
            c@.users == Seq::<UserProfileV>::empty(),
            c@.messages == Seq::<MessageDataV>::empty(),
    {
        let c = Chat { users: Vec::new(), messages: Vec::new() };
        proof {
            assert(profiles_view(Seq::<UserProfile>::empty()) =~= Seq::<UserProfileV>::empty());
            assert(messages_view(Seq::<MessageData>::empty()) =~= Seq::<MessageDataV>::empty());
        }
        c
    }

    /// Builds the store for a fresh session together with the
    /// registration payload for the session user, to be handed to the
    /// transport before any inbound processing.
    pub fn create(username: &str) -> (r: (Chat, String))
        ensures
            r.0@.users == Seq::<UserProfileV>::empty(),
            r.0@.messages == Seq::<MessageDataV>::empty(),
            r.1@ == spec_register_payload(username@),
    {
        (Chat::new(), register(username))
    }

    /// Replaces the roster with one profile per name, in order, deriving
    /// each avatar from its name; the history is untouched.  Names are
    /// taken as they come: empty or duplicate names stay as-is.
    pub fn apply_roster(&mut self, names: &Vec<String>)
        ensures
            final(self)@.users == spec_roster_of(strings_view(names@)),
            final(self)@.messages == old(self)@.messages,
    {
        let ghost target = spec_roster_of(strings_view(names@));
        let mut users: Vec<UserProfile> = Vec::new();
        let mut i: usize = 0;
        proof {
            assert(profiles_view(users@) =~= target.take(0));
        }
        while i < names.len()
            invariant
                i <= names@.len(),
                target == spec_roster_of(strings_view(names@)),
                profiles_view(users@) == target.take(i as int),
            decreases names@.len() - i,
        {
            let name = names[i].clone();
            let av = avatar_url(name.as_str());
            let p = UserProfile { name, avatar: av };
            proof {
                assert(profiles_view(users@.push(p)) =~= profiles_view(users@).push(p@));
                assert(strings_view(names@)[i as int] == names@[i as int]@);
                assert(target.take(i as int + 1) =~= target.take(i as int).push(
                    spec_profile_of(names@[i as int]@),
                ));
            }
            users.push(p);
            i += 1;
        }
        proof {
            assert(target.take(names@.len() as int) =~= target);
        }
        self.users = users;
    }

    /// Appends one history entry; the roster is untouched.  There is no
    /// deduplication and no reordering: entries stay in arrival order.
    pub fn append_message(&mut self, from: String, message: String)
        ensures
            final(self)@.messages == old(self)@.messages.push(
                MessageDataV { from: from@, message: message@ },
            ),
            final(self)@.users == old(self)@.users,
    {
        let m = MessageData { from, message };
        proof {
            assert(messages_view(self.messages@.push(m)) =~= messages_view(self.messages@).push(
                m@,
            ));
        }
        self.messages.push(m);
    }

    /// Decodes one raw inbound payload and applies the matching state
    /// transition, reporting the outcome.  Malformed payloads and
    /// unrecognized kinds leave the state unchanged and never fail the
    /// stream.
    pub fn handle_payload(&mut self, payload: &str) -> (r: DispatchResult)
        ensures
            r == spec_dispatch(payload@),
            final(self)@ == spec_apply(old(self)@, payload@),
    {
        match decode_envelope(payload) {
            Err(_) => DispatchResult::MalformedEnvelope,
            Ok(None) => DispatchResult::Ignored,
            Ok(Some(env)) => {
                match env.message_type {
                    MsgTypes::Users => {
                        let names = match env.data_array {
                            Some(a) => a,
                            None => Vec::new(),
                        };
                        proof {
                            assert(strings_view(Seq::<String>::empty()) =~= Seq::<
                                Seq<char>,
                            >::empty());
                        }
                        self.apply_roster(&names);
                        DispatchResult::RosterReplaced
                    },
                    MsgTypes::Register => DispatchResult::Ignored,
                    MsgTypes::Message => {
                        match env.data {
                            None => DispatchResult::MalformedMessagePayload,
                            Some(d) => {
                                match decode_message_data(d.as_str()) {
                                    Ok(md) => {
                                        self.append_message(md.from, md.message);
                                        DispatchResult::MessageAppended
                                    },
                                    Err(_) => DispatchResult::MalformedMessagePayload,
                                }
                            },
                        }
                    },
                }
            },
        }
    }

    /// Index of the first roster entry with the given name, `None` when
    /// no entry matches.  Message attribution resolves senders this way;
    /// with duplicate names the first entry wins, and a message from a
    /// name absent from the roster stays unattributable.
    pub fn find_profile(&self, name: &str) -> (r: Option<usize>)
        ensures
            r matches Some(k) ==> k < self@.users.len() && self@.users[k as int].name == name@ && (
            forall|j: int| 0 <= j < k ==> self@.users[j].name != name@),
            r is None ==> forall|j: int|
                0 <= j < self@.users.len() ==> self@.users[j].name != name@,
    {
        let mut i: usize = 0;
        while i < self.users.len()
            invariant
                i <= self.users@.len(),
                forall|j: int| 0 <= j < i ==> profiles_view(self.users@)[j].name != name@,
            decreases self.users@.len() - i,
        {
            if str_eq(self.users[i].name.as_str(), name) {
                return Some(i);
            }
            i += 1;
        }
        None
    }

    /// Handles one event.  An inbound payload mutates the state and says
    /// whether a re-render is needed; a submission leaves the state
    /// unchanged and yields the payload to hand to the transport.
    pub fn update(&mut self, msg: Msg) -> (r: (bool, Option<String>))
        ensures
            msg matches Msg::HandleMsg(s) ==> r.0 == spec_dispatch(s@).spec_needs_redraw() && r.1
                is None && final(self)@ == spec_apply(old(self)@, s@),
            msg matches Msg::SubmitMessage(body) ==> r.0 == false && final(self)@ == old(self)@
                && (r.1 matches Some(p) && p@ == spec_submit_payload(body@)),
    {
        match msg {
            Msg::HandleMsg(s) => {
                let d = self.handle_payload(s.as_str());
                (d.needs_redraw(), None)
            },
            Msg::SubmitMessage(body) => (false, Some(submit(body.as_str()))),
        }
    }
}


} // verus!
