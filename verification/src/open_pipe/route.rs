//! Which server of the stand-in for the runtime takes a message.
use crate::open_pipe::connection::MessageVariant;
use vstd::prelude::*;

verus! {

/// One of the two servers.
#[derive(Debug, Clone, Copy, PartialEq, Eq, Structural)]
pub enum Server {
    /// The server that keeps the tags.
    Tags,
    /// The server that keeps the alarms.
    Alarms,
}

/// The server that takes a message that came over the pipe: requests about
/// tags go to the tag server, requests and reports about alarms to the
/// alarm server, and every other message to nobody.
pub open spec fn spec_pipe_route(m: MessageVariant) -> Option<Server> {
    match m {
        MessageVariant::SubscribeTag(_) => Some(Server::Tags),
        MessageVariant::UnsubscribeTag => Some(Server::Tags),
        MessageVariant::ReadTag(_) => Some(Server::Tags),
        MessageVariant::WriteTag(_) => Some(Server::Tags),
        MessageVariant::SubscribeAlarm(_) => Some(Server::Alarms),
        MessageVariant::UnsubscribeAlarm => Some(Server::Alarms),
        MessageVariant::NotifySubscribeAlarm(_) => Some(Server::Alarms),
        MessageVariant::ReadAlarm(_) => Some(Server::Alarms),
        _ => None,
    }
}

/// The server that takes a message that came over the pipe.
pub fn pipe_route(m: &MessageVariant) -> (r: Option<Server>)
    ensures
        r == spec_pipe_route(*m),
{
    match m {
        MessageVariant::SubscribeTag(_) => Some(Server::Tags),
        MessageVariant::UnsubscribeTag => Some(Server::Tags),
        MessageVariant::ReadTag(_) => Some(Server::Tags),
        MessageVariant::WriteTag(_) => Some(Server::Tags),
        MessageVariant::SubscribeAlarm(_) => Some(Server::Alarms),
        MessageVariant::UnsubscribeAlarm => Some(Server::Alarms),
        MessageVariant::NotifySubscribeAlarm(_) => Some(Server::Alarms),
        MessageVariant::ReadAlarm(_) => Some(Server::Alarms),
        _ => None,
    }
}

/// Whether a message is about alarms.
pub open spec fn about_alarms(m: MessageVariant) -> bool {
    m is SubscribeAlarm || m is NotifySubscribeAlarm || m is ErrorSubscribeAlarm
        || m is UnsubscribeAlarm || m is NotifyUnsubscribeAlarm || m is ErrorUnsubscribeAlarm
        || m is ReadAlarm || m is NotifyReadAlarm || m is ErrorReadAlarm
}

/// The server that takes a message that came from a page of the operator:
/// the alarm server for every message about alarms, the tag server for all
/// others.
pub fn web_route(m: &MessageVariant) -> (r: Server)
    ensures
        r == if about_alarms(*m) {
            Server::Alarms
        } else {
            Server::Tags
        },
{
    match m {
        MessageVariant::SubscribeAlarm(_)
        | MessageVariant::NotifySubscribeAlarm(_)
        | MessageVariant::ErrorSubscribeAlarm(_)
        | MessageVariant::UnsubscribeAlarm
        | MessageVariant::NotifyUnsubscribeAlarm
        | MessageVariant::ErrorUnsubscribeAlarm(_)
        | MessageVariant::ReadAlarm(_)
        | MessageVariant::NotifyReadAlarm(_)
        | MessageVariant::ErrorReadAlarm(_) => Server::Alarms,
        _ => Server::Tags,
    }
}

/// A message that the pipe hands to a server goes to the same server when
/// it comes from a page.
pub proof fn lemma_routes_agree(m: MessageVariant)
    ensures
        spec_pipe_route(m) matches Some(s) ==> s == if about_alarms(m) {
            Server::Alarms
        } else {
            Server::Tags
        },
{
}

} // verus!
