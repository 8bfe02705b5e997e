//! The capability a registered handler implements, and a ready-made
//! handler that echoes a command's arguments back into the channel.

use vstd::prelude::*;
use vstd::string::StringExecFns;

use crate::sender::{replies_extended, OutboundModel, Sender};

verus! {

/// A trait implemented by types that can handle commands.
///
/// A handler is invoked with the reply capability for the command and
/// the command's arguments. It may reply as often as it likes, but only
/// through the capability, so every reply it produces is addressed to
/// the channel the command arrived on.
pub trait CommandHandler {
    /// Handle the command.
    fn handle(&mut self, sender: &mut Sender, args: &Vec<String>)
        ensures
            replies_extended(*old(sender), *final(sender)),
    ;
}

/// The arguments joined with single spaces, in order.
pub open spec fn joined_with_spaces(parts: Seq<Seq<char>>) -> Seq<char>
    decreases parts.len(),
{
    if parts.len() == 0 {
        Seq::empty()
    } else if parts.len() == 1 {
        parts[0]
    } else {
        joined_with_spaces(parts.drop_last()) + seq![' '] + parts.last()
    }
}

/// Join strings with a single space between each pair of neighbours.
pub fn join_with_spaces(parts: &Vec<String>) -> (r: String)
    ensures
        r@ == joined_with_spaces(parts.deep_view()),
{
    let mut r = String::new();
    let mut i: usize = 0;
    proof {
        assert(parts.deep_view().take(0) =~= Seq::<Seq<char>>::empty());
    }
    while i < parts.len()
        invariant
            i <= parts@.len(),
            r@ == joined_with_spaces(parts.deep_view().take(i as int)),
        decreases parts@.len() - i,
    {
        if i > 0 {
            r.append(" ");
        }
        r.append(parts[i].as_str());
        proof {
            let pv = parts.deep_view();
            reveal_strlit(" ");
            assert(pv.take(i + 1).drop_last() =~= pv.take(i as int));
            assert(pv.take(i + 1).last() == pv[i as int]);
            if i == 0 {
                assert(r@ =~= pv[0]);
                assert(joined_with_spaces(pv.take(1)) == pv.take(1)[0]);
            } else {
                assert(" "@ =~= seq![' ']);
            }
        }
        i = i + 1;
    }
    proof {
        assert(parts.deep_view().take(parts@.len() as int) =~= parts.deep_view());
    }
    r
}

/// A handler that answers with the command's arguments joined by single
/// spaces, or with `echo echo echo` when there are none.
pub struct EchoHandler;

impl CommandHandler for EchoHandler {
    fn handle(&mut self, sender: &mut Sender, args: &Vec<String>)
        ensures
            final(sender).sent() == old(sender).sent().push(
                OutboundModel {
                    channel_id: old(sender).channel(),
                    text: if args.deep_view().len() > 0 {
                        joined_with_spaces(args.deep_view())
                    } else {
                        "echo echo echo"@
                    },
                },
            ),
    {
        if args.len() > 0 {
            let message = join_with_spaces(args);
            let _ = sender.respond_in_channel(message.as_str());
        } else {
            let _ = sender.respond_in_channel("echo echo echo");
        }
        proof {
            assert(sender.sent().take(old(sender).sent().len() as int) =~= old(sender).sent());
        }
    }
}

} // verus!
