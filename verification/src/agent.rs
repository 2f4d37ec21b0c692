//! The agent's side: which requests of a snapshot it handles in one round,
//! the answers it posts, and when it stops.

use vstd::prelude::*;
use crate::board::{is_answered, lemma_filter_take_succ, response_for, views};
use crate::board::{unanswered_in, unanswered_spec};
use crate::shell::{Message, MessageType, MessageView};

verus! {

/// The seconds that the agent sleeps between two rounds.
pub const ROUND_INTERVAL_SECS: u64 = 5;

/// Whether the agent goes on polling.
#[derive(Debug, Clone, Copy, PartialEq, Eq, Hash, Structural)]
pub enum AgentState {
    Running,
    Terminated,
}

/// `m` asks for something (it is no `Output`) and the snapshot `msgs` holds no
/// `Output` for it.
pub open spec fn is_pending(msgs: Seq<MessageView>, m: MessageView) -> bool {
    m.kind != MessageType::Output && !is_answered(msgs, m.id)
}

/// The test that picks the pending requests of `msgs`.
pub open spec fn pending_in(msgs: Seq<MessageView>) -> spec_fn(MessageView) -> bool {
    |m: MessageView| is_pending(msgs, m)
}

/// The pending requests of a snapshot, in the snapshot's order.
pub open spec fn pending_spec(msgs: Seq<MessageView>) -> Seq<MessageView> {
    msgs.filter(pending_in(msgs))
}

/// The sequence ends with an `Exit`.
pub open spec fn ends_with_exit(p: Seq<MessageView>) -> bool {
    p.len() > 0 && p.last().kind == MessageType::Exit
}

/// The requests of `p` up to and including its first `Exit`; all of `p`
/// where it holds none.
pub open spec fn until_exit(p: Seq<MessageView>) -> Seq<MessageView>
    decreases p.len(),
{
    if p.len() == 0 {
        p
    } else {
        let head = until_exit(p.drop_last());
        if ends_with_exit(head) {
            head
        } else {
            head.push(p.last())
        }
    }
}

/// The requests that one round handles: the pending ones in the snapshot's
/// order, none after the first `Exit`.
pub open spec fn plan_spec(msgs: Seq<MessageView>) -> Seq<MessageView> {
    until_exit(pending_spec(msgs))
}

/// The state after a round that handled `plan`.
pub open spec fn state_after(plan: Seq<MessageView>) -> AgentState {
    if ends_with_exit(plan) {
        AgentState::Terminated
    } else {
        AgentState::Running
    }
}

/// What one round of the agent handles, and the state it leaves.
pub struct AgentRound {
    /// The requests to handle, in this order: each `Command` is executed and
    /// answered, an `Exit` is acknowledged.
    pub requests: Vec<Message>,
    /// `Terminated` when the round ends with an `Exit`.
    pub state: AgentState,
}

/// Decides one round from a snapshot. A terminated agent handles nothing.
/// A running agent handles the pending requests in the snapshot's order and
/// stops at the first `Exit`, which ends the round and the agent.
pub fn agent_step(state: AgentState, msgs: &Vec<Message>) -> (round: AgentRound)
    ensures
        state == AgentState::Terminated ==> round.requests@.len() == 0 && round.state
            == AgentState::Terminated,
        state == AgentState::Running ==> views(round.requests@) == plan_spec(views(msgs@))
            && round.state == state_after(plan_spec(views(msgs@))),
{
    let mut requests: Vec<Message> = Vec::new();
    if state == AgentState::Terminated {
        return AgentRound { requests, state: AgentState::Terminated };
    }
    let ghost all = views(msgs@);
    let ghost pick = pending_in(all);
    let mut stopped = false;
    let mut i: usize = 0;
    proof {
        reveal(Seq::filter);
        assert(all.take(0).filter(pick) =~= Seq::<MessageView>::empty());
        assert(views(requests@) =~= until_exit(all.take(0).filter(pick)));
    }
    while i < msgs.len()
        invariant
            i <= msgs@.len(),
            all == views(msgs@),
            pick == pending_in(all),
            views(requests@) == until_exit(all.take(i as int).filter(pick)),
            stopped == ends_with_exit(views(requests@)),
        decreases msgs@.len() - i,
    {
        let ghost before = requests@;
        let ghost prefix = all.take(i as int).filter(pick);
        proof {
            lemma_filter_take_succ(all, pick, i as int);
            assert(prefix.push(all[i as int]).drop_last() =~= prefix);
        }
        if !stopped && msgs[i].message_type != MessageType::Output {
            let answer = response_for(msgs, &msgs[i].message_id);
            if answer.is_none() {
                requests.push(msgs[i].clone());
                assert(views(requests@) =~= views(before).push(msgs@[i as int]@));
                if msgs[i].message_type == MessageType::Exit {
                    stopped = true;
                }
            }
        }
        i += 1;
    }
    assert(all.take(i as int) =~= all);
    let state = if stopped {
        AgentState::Terminated
    } else {
        AgentState::Running
    };
    AgentRound { requests, state }
}

/// The answer to a `Command`: an `Output` with the command's identifier that
/// carries what the execution printed, or the description of its failure.
pub fn command_reply(request: &Message, outcome: Result<String, String>) -> (reply: Message)
    ensures
        reply.message_type == MessageType::Output,
        reply.message_id == request.message_id,
        reply.message@ == match outcome {
            Ok(printed) => printed@,
            Err(failure) => failure@,
        },
{
    let message = match outcome {
        Ok(printed) => printed,
        Err(failure) => failure,
    };
    Message { message_type: MessageType::Output, message_id: request.message_id, message }
}

/// The text with which the agent acknowledges an `Exit`.
pub open spec fn exit_acknowledgment() -> Seq<char> {
    "Exiting..."@
}

/// The answer to an `Exit`: an `Output` with the request's identifier and
/// the fixed acknowledgment.
pub fn exit_reply(request: &Message) -> (reply: Message)
    ensures
        reply.message_type == MessageType::Output,
        reply.message_id == request.message_id,
        reply.message@ == exit_acknowledgment(),
{
    Message {
        message_type: MessageType::Output,
        message_id: request.message_id,
        message: "Exiting...".to_owned(),
    }
}

/// A sequence without an `Exit` is handled whole.
pub proof fn lemma_until_exit_without_exit(p: Seq<MessageView>)
    requires
        forall|i: int| 0 <= i < p.len() ==> (#[trigger] p[i]).kind != MessageType::Exit,
    ensures
        until_exit(p) == p,
    decreases p.len(),
{
    if p.len() > 0 {
        lemma_until_exit_without_exit(p.drop_last());
        assert(p.drop_last().push(p.last()) =~= p);
    }
}

/// What is handled is a prefix of the sequence, with no `Exit` before its
/// last element; it is cut short only behind an `Exit`.
pub proof fn lemma_until_exit_prefix(p: Seq<MessageView>)
    ensures
        until_exit(p).len() <= p.len(),
        until_exit(p) == p.take(until_exit(p).len() as int),
        forall|i: int|
            0 <= i < until_exit(p).len() - 1 ==> (#[trigger] until_exit(p)[i]).kind
                != MessageType::Exit,
        until_exit(p).len() < p.len() ==> ends_with_exit(until_exit(p)),
    decreases p.len(),
{
    if p.len() > 0 {
        let rest = p.drop_last();
        lemma_until_exit_prefix(rest);
        let head = until_exit(rest);
        if ends_with_exit(head) {
            assert(head =~= p.take(head.len() as int));
        } else {
            assert(head =~= rest);
            assert(head.push(p.last()) =~= p.take(p.len() as int));
        }
    } else {
        assert(p =~= p.take(0));
    }
}

/// A sequence that holds an `Exit` is handled up to an `Exit`.
pub proof fn lemma_until_exit_with_exit(p: Seq<MessageView>, k: int)
    requires
        0 <= k < p.len(),
        p[k].kind == MessageType::Exit,
    ensures
        ends_with_exit(until_exit(p)),
    decreases p.len(),
{
    let rest = p.drop_last();
    if k < p.len() - 1 {
        lemma_until_exit_with_exit(rest, k);
    }
}

/// Two tests that agree on every element of a sequence pick the same
/// elements of it.
pub proof fn lemma_filter_agree<A>(s: Seq<A>, p: spec_fn(A) -> bool, q: spec_fn(A) -> bool)
    requires
        forall|i: int| 0 <= i < s.len() ==> p(#[trigger] s[i]) == q(s[i]),
    ensures
        s.filter(p) == s.filter(q),
    decreases s.len(),
{
    reveal(Seq::filter);
    if s.len() > 0 {
        lemma_filter_agree(s.drop_last(), p, q);
    }
}

/// Against a snapshot without a pending `Exit`, one round handles exactly
/// the unanswered commands: one request, and so one answer, for each of
/// them, and the agent keeps running.
pub proof fn lemma_round_answers_each_command_once(msgs: Seq<MessageView>)
    requires
        forall|i: int|
            0 <= i < msgs.len() ==> !((#[trigger] msgs[i]).kind == MessageType::Exit
                && !is_answered(msgs, msgs[i].id)),
    ensures
        plan_spec(msgs) == unanswered_spec(msgs),
        plan_spec(msgs).len() == unanswered_spec(msgs).len(),
        state_after(plan_spec(msgs)) == AgentState::Running,
{
    let pending = pending_in(msgs);
    let unanswered = unanswered_in(msgs);
    lemma_filter_agree(msgs, pending, unanswered);
    let p = msgs.filter(pending);
    assert forall|i: int| 0 <= i < p.len() implies (#[trigger] p[i]).kind
        != MessageType::Exit by {
        msgs.lemma_filter_pred(unanswered, i);
    }
    lemma_until_exit_without_exit(p);
}

/// Against a snapshot with a pending `Exit`, the round ends with an `Exit`
/// and the agent terminates; every request before that last one is a
/// pending `Command` of the snapshot, and nothing is handled after it.
pub proof fn lemma_exit_ends_the_round(msgs: Seq<MessageView>, k: int)
    requires
        0 <= k < msgs.len(),
        msgs[k].kind == MessageType::Exit,
        !is_answered(msgs, msgs[k].id),
    ensures
        ends_with_exit(plan_spec(msgs)),
        state_after(plan_spec(msgs)) == AgentState::Terminated,
        plan_spec(msgs) == pending_spec(msgs).take(plan_spec(msgs).len() as int),
        forall|i: int|
            0 <= i < plan_spec(msgs).len() - 1 ==> is_pending(msgs, #[trigger] plan_spec(msgs)[i])
                && plan_spec(msgs)[i].kind == MessageType::Command,
{
    let pick = pending_in(msgs);
    let p = msgs.filter(pick);
    msgs.lemma_filter_contains(pick, k);
    let at = choose|at: int| 0 <= at < p.len() && p[at] == msgs[k];
    lemma_until_exit_with_exit(p, at);
    lemma_until_exit_prefix(p);
    let plan = until_exit(p);
    assert forall|i: int| 0 <= i < plan.len() - 1 implies is_pending(msgs, #[trigger] plan[i])
        && plan[i].kind == MessageType::Command by {
        assert(plan[i] == p[i]);
        msgs.lemma_filter_pred(pick, i);
    }
}

} // verus!
