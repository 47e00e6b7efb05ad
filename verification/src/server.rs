//! The decision core of the connection handler and of the per-subscription
//! delivery loop.
//!
//! The surrounding process reads packets from a transport, hands them to
//! [`handle_request`], performs the action it returns (spawn a delivery loop,
//! send a reply), and keeps reading. A delivery loop repeatedly calls
//! [`subscriber_step`] and sends, waits or stops as told. Everything that
//! touches a socket stays outside; everything that decides lives here.

use crate::group::{Group, GroupView, PollOutcome, Subscription};
use crate::group_table::{contains_name, fresh_group, GroupTable};
use crate::protocol::{FromClient, FromServer};
use crate::text::{decimal_rep, push_decimal};
use std::sync::Arc;
use vstd::prelude::*;

verus! {

/// What the connection handler asks its surroundings to do with one request.
pub enum Dispatch {
    /// A join succeeded: start a delivery loop for this subscription on the
    /// group at the given position.
    Joined(usize, Subscription),
    /// A post succeeded; nothing to send back.
    Posted,
    /// Send this packet back to the requesting client.
    Reply(FromServer),
}

/// The text of the reply to a post addressed to a group that does not exist.
pub open spec fn unknown_group_text(name: Seq<char>) -> Seq<char> {
    "Group '"@ + name + "' does not exist"@
}

/// The text reported to a subscriber that missed `count` messages of a group.
pub open spec fn lag_report_text(count: nat, name: Seq<char>) -> Seq<char> {
    "Dropped "@ + decimal_rep(count) + " messages from "@ + name + "."@
}

/// Build the reply for a post to a group that does not exist.
pub fn unknown_group_error(name: &String) -> (msg: String)
    ensures
        msg@ == unknown_group_text(name@),
{
    let mut msg = String::from_str("Group '");
    msg.append(name.as_str());
    msg.append("' does not exist");
    proof {
        assert(msg@ =~= unknown_group_text(name@));
    }
    msg
}

/// Build the report for a subscriber that missed `count` messages.
pub fn lag_report(count: u64, name: &String) -> (msg: String)
    ensures
        msg@ == lag_report_text(count as nat, name@),
{
    let mut msg = String::from_str("Dropped ");
    push_decimal(&mut msg, count);
    msg.append(" messages from ");
    msg.append(name.as_str());
    msg.append(".");
    proof {
        assert(msg@ =~= lag_report_text(count as nat, name@));
    }
    msg
}

/// Carry out one client request against the group registry.
///
/// A join finds or creates the group and opens a subscription whose cursor is
/// the current end of that group's log. A post to an existing group appends
/// the message to that group's log and touches nothing else; a post to an
/// unknown group changes nothing and yields an error reply for the client, so
/// no other group or connection is affected.
pub fn handle_request(table: &mut GroupTable, request: FromClient) -> (d: Dispatch)
    requires
        old(table).wf(),
        match request {
            FromClient::Post { group_name, message } => forall|i: int|
                0 <= i < old(table)@.len() && (#[trigger] old(table)@[i]).name == group_name@
                    ==> old(table)@[i].history.len() < u64::MAX,
            _ => true,
        },
    ensures
        final(table).wf(),
        match request {
            FromClient::Join { group_name } => {
                &&& (if contains_name(old(table)@, group_name@) {
                    final(table)@ == old(table)@
                } else {
                    final(table)@ == old(table)@.push(fresh_group(group_name@))
                })
                &&& match d {
                    Dispatch::Joined(idx, sub) => {
                        &&& idx < final(table)@.len()
                        &&& final(table)@[idx as int].name == group_name@
                        &&& sub@.wf(final(table)@[idx as int])
                        &&& sub@.cursor == final(table)@[idx as int].next_seq()
                        &&& sub@.joined_at == final(table)@[idx as int].next_seq()
                        &&& sub@.delivered == Seq::<int>::empty()
                    },
                    _ => false,
                }
            },
            FromClient::Post { group_name, message } => {
                if contains_name(old(table)@, group_name@) {
                    &&& (d matches Dispatch::Posted)
                    &&& exists|i: int|
                        {
                            &&& 0 <= i < old(table)@.len()
                            &&& (#[trigger] old(table)@[i]).name == group_name@
                            &&& final(table)@ == old(table)@.update(
                                i,
                                (GroupView {
                                    history: old(table)@[i].history.push(message@),
                                    ..old(table)@[i]
                                }),
                            )
                        }
                } else {
                    &&& final(table)@ == old(table)@
                    &&& (d matches Dispatch::Reply(FromServer::Error(m)) && m@
                        == unknown_group_text(group_name@))
                }
            },
        },
{
    match request {
        FromClient::Join { group_name } => {
            let idx = table.get_or_create(group_name);
            let sub = table.subscribe_at(idx);
            Dispatch::Joined(idx, sub)
        },
        FromClient::Post { group_name, message } => {
            match table.index_of(&*group_name) {
                Some(idx) => {
                    table.post_to(idx, message);
                    Dispatch::Posted
                },
                None => Dispatch::Reply(
                    FromServer::Error(unknown_group_error(&*group_name)),
                ),
            }
        },
    }
}

/// What a delivery loop should do after one polling step.
pub enum DeliveryStep {
    /// Send this packet on the connection's outbound writer.
    Send(FromServer),
    /// Nothing new yet: wait until a message is posted, then poll again.
    Wait,
    /// The group is closed and drained: end the delivery loop.
    Stop,
}

/// One step of the per-subscription delivery loop: poll the subscription and
/// turn the outcome into what should reach the client — the next message of
/// the group in posting order, a report of exactly how many messages the
/// subscriber missed, or the end of the loop.
pub fn subscriber_step(group: &Group, sub: &mut Subscription) -> (step: DeliveryStep)
    requires
        group.wf(),
        old(sub)@.wf(group@),
    ensures
        final(sub)@.wf(group@),
        final(sub)@.joined_at == old(sub)@.joined_at,
        final(sub)@.cursor >= old(sub)@.cursor,
        match step {
            DeliveryStep::Send(packet) => match packet {
                FromServer::Message { group_name, message } => {
                    &&& group_name@ == group@.name
                    &&& group@.first_retained() <= old(sub)@.cursor < group@.next_seq()
                    &&& message@ == group@.history[old(sub)@.cursor as int]
                    &&& final(sub)@.cursor == old(sub)@.cursor + 1
                    &&& final(sub)@.delivered == old(sub)@.delivered.push(
                        old(sub)@.cursor as int,
                    )
                },
                FromServer::Error(m) => {
                    &&& old(sub)@.cursor < group@.first_retained()
                    &&& m@ == lag_report_text(
                        (group@.first_retained() - old(sub)@.cursor) as nat,
                        group@.name,
                    )
                    &&& final(sub)@.cursor == group@.first_retained()
                    &&& final(sub)@.delivered == old(sub)@.delivered
                },
            },
            DeliveryStep::Wait => {
                &&& old(sub)@.cursor == group@.next_seq()
                &&& !group@.closed
                &&& final(sub)@ == old(sub)@
            },
            DeliveryStep::Stop => {
                &&& old(sub)@.cursor == group@.next_seq()
                &&& group@.closed
                &&& final(sub)@ == old(sub)@
            },
        },
{
    match group.poll(sub) {
        PollOutcome::Delivered(message) => DeliveryStep::Send(
            FromServer::Message { group_name: group.name().clone(), message },
        ),
        PollOutcome::Lagged(count) => {
            let name: &Arc<String> = group.name();
            DeliveryStep::Send(FromServer::Error(lag_report(count, &**name)))
        },
        PollOutcome::Pending => DeliveryStep::Wait,
        PollOutcome::Closed => DeliveryStep::Stop,
    }
}

} // verus!
