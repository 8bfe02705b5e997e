//! The reply capability handed to a handler: it is bound to the channel
//! the command arrived on and to the resolved identity of its sender, and
//! it can only queue messages addressed to that channel. The embedder
//! performs the queued sends after the handler returns.

use vstd::prelude::*;

verus! {

/// A member of the workspace, as the session's user directory knows it.
pub struct User {
    /// The platform's identifier for the user.
    pub id: String,
    /// The user's display name.
    pub name: String,
}

/// The mathematical model of a `User`.
pub struct UserModel {
    pub id: Seq<char>,
    pub name: Seq<char>,
}

impl View for User {
    type V = UserModel;

    open spec fn view(&self) -> UserModel {
        UserModel { id: self.id@, name: self.name@ }
    }
}

impl DeepView for User {
    type V = UserModel;

    open spec fn deep_view(&self) -> UserModel {
        self.view()
    }
}

impl Clone for User {
    fn clone(&self) -> (r: User)
        ensures
            r == *self,
    {
        User { id: self.id.clone(), name: self.name.clone() }
    }
}

/// One outbound message produced while handling a command.
pub struct OutboundMessage {
    /// The channel the message is addressed to.
    pub channel_id: String,
    /// The message body.
    pub text: String,
}

/// The mathematical model of an `OutboundMessage`.
pub struct OutboundModel {
    pub channel_id: Seq<char>,
    pub text: Seq<char>,
}

impl View for OutboundMessage {
    type V = OutboundModel;

    open spec fn view(&self) -> OutboundModel {
        OutboundModel { channel_id: self.channel_id@, text: self.text@ }
    }
}

impl DeepView for OutboundMessage {
    type V = OutboundModel;

    open spec fn deep_view(&self) -> OutboundModel {
        self.view()
    }
}

/// The sender-side capability for one dispatched command.
pub struct Sender {
    channel_id: String,
    /// The user that sent the command.
    pub user: User,
    outbox: Vec<OutboundMessage>,
}

impl Sender {
    /// The channel this capability is bound to.
    pub closed spec fn channel(&self) -> Seq<char> {
        self.channel_id@
    }

    /// The messages queued through this capability so far, in order.
    pub closed spec fn sent(&self) -> Seq<OutboundModel> {
        self.outbox.deep_view()
    }

    /// The resolved user this capability is bound to.
    pub closed spec fn spec_user(&self) -> User {
        self.user
    }

    /// Bind a fresh capability to one channel and one resolved user.
    pub fn new(channel_id: String, user: User) -> (s: Sender)
        ensures
            s.channel() == channel_id@,
            s.spec_user() == user,
            s.sent() == Seq::<OutboundModel>::empty(),
    {
        let s = Sender { channel_id, user, outbox: Vec::new() };
        proof {
            assert(s.sent() =~= Seq::<OutboundModel>::empty());
        }
        s
    }

    /// Send a message to the channel that the command came from. The
    /// message is addressed to the bound channel, whatever its content.
    /// Queueing always succeeds: the embedder performs the actual sends
    /// after the handler returns, so a transport failure surfaces to
    /// the embedder, not to handler code.
    pub fn respond_in_channel(&mut self, message: &str) -> (r: Result<(), String>)
        ensures
            r is Ok,
            final(self).channel() == old(self).channel(),
            final(self).spec_user() == old(self).spec_user(),
            final(self).sent() == old(self).sent().push(
                OutboundModel { channel_id: old(self).channel(), text: message@ },
            ),
    {
        let ghost pre = self.sent();
        let m = OutboundMessage {
            channel_id: self.channel_id.clone(),
            text: message.to_owned(),
        };
        self.outbox.push(m);
        proof {
            assert(self.sent() =~= pre.push(
                OutboundModel { channel_id: self.channel_id@, text: message@ },
            ));
        }
        Ok(())
    }

    /// Give up the capability and take the messages queued through it.
    pub fn into_replies(self) -> (r: Vec<OutboundMessage>)
        ensures
            r.deep_view() == self.sent(),
    {
        self.outbox
    }
}

/// How handling a command may change the capability handed to the
/// handler: the binding stays as it was, the already-queued replies stay,
/// and every reply added is addressed to the bound channel.
pub open spec fn replies_extended(pre: Sender, post: Sender) -> bool {
    &&& post.channel() == pre.channel()
    &&& post.sent().len() >= pre.sent().len()
    &&& post.sent().take(pre.sent().len() as int) == pre.sent()
    &&& forall|i: int|
        pre.sent().len() <= i < post.sent().len() ==> (#[trigger] post.sent()[i]).channel_id
            == pre.channel()
}

} // verus!
