//! A small command-dispatch layer for a chat bot: parse inbound message
//! events into structured commands, look each command up in a handler
//! registry, and hand the handler a narrow capability for replying into
//! the originating channel.
//!
//! The bot reacts to one inbound event at a time. An event yields a
//! command only when it is a message whose text starts with
//! `!<bot-name>`; the command is dispatched only when its sender is
//! known to the user directory and a handler is registered under the
//! command's name; everything else is silently ignored. The handler
//! replies through a capability bound to the channel the command
//! arrived on, and the replies are returned to the embedder, which owns
//! the network session and performs the sends.

use vstd::prelude::*;

pub mod handler;
pub mod parser;
pub mod registry;
pub mod sender;

pub use handler::{CommandHandler, EchoHandler};
pub use parser::{Command, RawEvent};
pub use registry::Registry;
pub use sender::{OutboundMessage, Sender, User};

verus! {

use crate::parser::{fields_model, parse_event, parse_spec, payload_fields, str_eq};
use crate::parser::RawEventModel;
use crate::sender::{OutboundModel, UserModel};

/// The first user in the directory carrying the given identifier.
pub open spec fn find_user_spec(users: Seq<UserModel>, id: Seq<char>) -> Option<UserModel>
    decreases users.len(),
{
    if users.len() == 0 {
        Option::None
    } else if users[0].id == id {
        Option::Some(users[0])
    } else {
        find_user_spec(users.drop_first(), id)
    }
}

/// Resolve an identifier against the user directory: the first user
/// carrying it, if any.
pub fn find_user_by_id(users: &Vec<User>, id: &str) -> (r: Option<User>)
    ensures
        match r {
            Option::Some(u) => find_user_spec(users.deep_view(), id@) == Option::Some(u@),
            Option::None => find_user_spec(users.deep_view(), id@) is None,
        },
{
    let mut i: usize = 0;
    proof {
        assert(users.deep_view().skip(0) =~= users.deep_view());
    }
    while i < users.len()
        invariant
            i <= users@.len(),
            find_user_spec(users.deep_view().skip(i as int), id@) == find_user_spec(
                users.deep_view(),
                id@,
            ),
        decreases users@.len() - i,
    {
        proof {
            let uv = users.deep_view();
            assert(uv.skip(i as int)[0] == uv[i as int]);
            assert(uv.skip(i as int).drop_first() =~= uv.skip(i + 1));
        }
        if str_eq(users[i].id.as_str(), id) {
            let u = users[i].clone();
            return Some(u);
        }
        i = i + 1;
    }
    proof {
        assert(users.deep_view().skip(users@.len() as int) =~= Seq::<UserModel>::empty());
    }
    None
}

/// The bot that handles commands: it owns the handler registry, its
/// name, and the API token its session is opened with.
pub struct SlackBot<H> {
    name: String,
    token: String,
    handlers: Registry<H>,
}

/// What reacting to one event leaves behind: everything unchanged and
/// no reply unless the event parses to a command whose sender the
/// directory knows and whose name has a registered handler; then the
/// handler under the command's name runs, and every reply it makes is
/// addressed to the channel the command arrived on.
pub open spec fn dispatch_outcome<H>(
    pre: SlackBot<H>,
    post: SlackBot<H>,
    ev: RawEventModel,
    users: Seq<UserModel>,
    replies: Seq<OutboundModel>,
) -> bool {
    match parse_spec(pre.spec_name(), ev) {
        Option::None => replies.len() == 0 && post == pre,
        Option::Some(cmd) => match find_user_spec(users, cmd.user_id) {
            Option::None => replies.len() == 0 && post == pre,
            Option::Some(_) => {
                if pre.spec_handlers().contains_key(cmd.name) {
                    &&& forall|i: int|
                        0 <= i < replies.len() ==> (#[trigger] replies[i]).channel_id
                            == cmd.channel_id
                    &&& post.spec_name() == pre.spec_name()
                    &&& post.spec_token() == pre.spec_token()
                    &&& exists|h: H|
                        post.spec_handlers() == pre.spec_handlers().insert(cmd.name, h)
                } else {
                    replies.len() == 0 && post == pre
                }
            },
        },
    }
}

impl<H> SlackBot<H> {
    /// The name the bot answers to.
    pub closed spec fn spec_name(&self) -> Seq<char> {
        self.name@
    }

    /// The API token the bot's session is opened with.
    pub closed spec fn spec_token(&self) -> Seq<char> {
        self.token@
    }

    /// The registered handlers, by command name.
    pub closed spec fn spec_handlers(&self) -> Map<Seq<char>, H> {
        self.handlers@
    }

    /// Create a new bot to serve your team!
    pub fn new(name: String, token: String) -> (bot: SlackBot<H>)
        ensures
            bot.spec_name() == name@,
            bot.spec_token() == token@,
            bot.spec_handlers() == Map::<Seq<char>, H>::empty(),
    {
        SlackBot { name, token, handlers: Registry::new() }
    }

    /// The name the bot answers to.
    pub fn name(&self) -> (r: &String)
        ensures
            r@ == self.spec_name(),
    {
        &self.name
    }

    /// The API token the bot's session is opened with.
    pub fn token(&self) -> (r: &String)
        ensures
            r@ == self.spec_token(),
    {
        &self.token
    }

    /// Tell the bot what to do when it sees a command. Registering the
    /// same name again overwrites the earlier handler.
    pub fn on(&mut self, command_name: String, handler: H)
        ensures
            final(self).spec_name() == old(self).spec_name(),
            final(self).spec_token() == old(self).spec_token(),
            final(self).spec_handlers() == old(self).spec_handlers().insert(
                command_name@,
                handler,
            ),
    {
        self.handlers.register(command_name, handler);
    }

    /// Look up the handler registered under a name.
    pub fn lookup(&self, name: &str) -> (r: Option<&H>)
        ensures
            (r is Some) == self.spec_handlers().contains_key(name@),
            r matches Some(h) ==> *h == self.spec_handlers()[name@],
    {
        self.handlers.lookup(name)
    }
}

impl<H: CommandHandler> SlackBot<H> {
    /// React to one already-decoded inbound event: parse it, resolve
    /// the sender against the user directory, look the command up, and
    /// run its handler. The replies the handler made are returned for
    /// the session to send.
    pub fn handle_event(&mut self, event: &RawEvent, users: &Vec<User>) -> (replies: Vec<
        OutboundMessage,
    >)
        ensures
            dispatch_outcome(
                *old(self),
                *final(self),
                event@,
                users.deep_view(),
                replies.deep_view(),
            ),
    {
        let cmd = match parse_event(self.name.as_str(), event) {
            Some(c) => c,
            None => {
                let r: Vec<OutboundMessage> = Vec::new();
                proof {
                    assert(r.deep_view() =~= Seq::<OutboundModel>::empty());
                }
                return r;
            },
        };
        let user = match find_user_by_id(users, cmd.user_id.as_str()) {
            Some(u) => u,
            None => {
                let r: Vec<OutboundMessage> = Vec::new();
                proof {
                    assert(r.deep_view() =~= Seq::<OutboundModel>::empty());
                }
                return r;
            },
        };
        let handler = match self.handlers.lookup_mut(cmd.name.as_str()) {
            Some(h) => h,
            None => {
                let r: Vec<OutboundMessage> = Vec::new();
                proof {
                    assert(r.deep_view() =~= Seq::<OutboundModel>::empty());
                }
                return r;
            },
        };
        let mut sender = Sender::new(cmd.channel_id, user);
        handler.handle(&mut sender, &cmd.args);
        sender.into_replies()
    }

    /// React to one raw inbound payload: decode it and dispatch it. A
    /// payload that is not valid JSON is silently ignored.
    pub fn on_event(&mut self, raw_payload: &str, users: &Vec<User>) -> (replies: Vec<
        OutboundMessage,
    >)
        ensures
            match payload_fields(raw_payload@) {
                Option::Some(f) => dispatch_outcome(
                    *old(self),
                    *final(self),
                    fields_model(f),
                    users.deep_view(),
                    replies.deep_view(),
                ),
                Option::None => replies.deep_view().len() == 0 && *final(self) == *old(self),
            },
    {
        match crate::parser::decode_payload(raw_payload) {
            Some(event) => {
                proof {
                    let f = payload_fields(raw_payload@)->Some_0;
                    assert(fields_model(f) == event@);
                }
                self.handle_event(&event, users)
            },
            None => {
                let r: Vec<OutboundMessage> = Vec::new();
                proof {
                    assert(r.deep_view() =~= Seq::<OutboundModel>::empty());
                }
                r
            },
        }
    }
}

/// Registering a second handler under a name leaves only that handler
/// registered under it: the most recent registration wins, and it is
/// what a lookup under the name finds.
pub proof fn lemma_last_registration_wins<H>(
    m: Map<Seq<char>, H>,
    name: Seq<char>,
    first: H,
    second: H,
)
    ensures
        m.insert(name, first).insert(name, second) == m.insert(name, second),
        m.insert(name, first).insert(name, second).contains_key(name),
        m.insert(name, first).insert(name, second)[name] == second,
{
    assert(m.insert(name, first).insert(name, second) =~= m.insert(name, second));
}

} // verus!
