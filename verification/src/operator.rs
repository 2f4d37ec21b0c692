//! The operator's side: the requests it posts, the listing of commands with
//! their answers, and the bounded wait for one answer.

use vstd::prelude::*;
use crate::board::{lemma_filter_take_succ, response_for, response_spec, views};
use crate::shell::{encode_spec, Message, MessageType, MessageView};

verus! {

/// How often a submission looks for its answer before it gives up.
pub const SUBMIT_ATTEMPTS: u32 = 60;

/// The seconds between two looks at the board.
pub const POLL_INTERVAL_SECS: u64 = 5;

/// The text shown for a command that has no answer in the snapshot.
pub open spec fn no_output_marker() -> Seq<char> {
    "<no output (yet?)>"@
}

/// A `Command` with the given identifier and text.
pub fn command_message(id: [u8; 12], text: String) -> (m: Message)
    ensures
        m.message_type == MessageType::Command,
        m.message_id == id,
        m.message == text,
{
    Message { message_type: MessageType::Command, message_id: id, message: text }
}

/// An `Exit` with the given identifier and no text.
pub fn exit_message(id: [u8; 12]) -> (m: Message)
    ensures
        m.message_type == MessageType::Exit,
        m.message_id == id,
        m.message@ == Seq::<char>::empty(),
{
    Message { message_type: MessageType::Exit, message_id: id, message: String::new() }
}

/// What the operator asks for.
#[derive(Debug, PartialEq, Eq)]
pub enum OperatorRequest {
    /// Show every command with its answer.
    List,
    /// Post a command under a fresh identifier and wait for its answer.
    Submit { id: [u8; 12], text: String },
    /// Remove every entry of the board, whoever wrote it. This cannot be
    /// undone, so it takes the caller's confirmation.
    Clear { confirmed: bool },
    /// Tell the agent to stop, under a fresh identifier, without waiting.
    RequestExit { id: [u8; 12] },
}

/// The call on the board that a request begins with.
#[derive(Debug, PartialEq, Eq)]
pub enum BoardCall {
    /// Read every entry.
    ListAll,
    /// Add one entry with this text.
    Append(String),
    /// Remove every entry.
    ClearAll,
    /// Leave the board alone.
    Nothing,
}

/// The mathematical value of a `BoardCall`.
pub ghost enum BoardCallView {
    ListAll,
    Append(Seq<char>),
    ClearAll,
    Nothing,
}

impl View for BoardCall {
    type V = BoardCallView;

    open spec fn view(&self) -> BoardCallView {
        match self {
            BoardCall::ListAll => BoardCallView::ListAll,
            BoardCall::Append(text) => BoardCallView::Append(text@),
            BoardCall::ClearAll => BoardCallView::ClearAll,
            BoardCall::Nothing => BoardCallView::Nothing,
        }
    }
}

/// The call that each request begins with. A listing reads the board. A
/// submission appends the wire text of its command, a request to exit that
/// of an `Exit` without text. A clear goes through only when confirmed.
pub open spec fn board_call_spec(request: OperatorRequest) -> BoardCallView {
    match request {
        OperatorRequest::List => BoardCallView::ListAll,
        OperatorRequest::Submit { id, text } => BoardCallView::Append(
            encode_spec(MessageView { kind: MessageType::Command, id: id@, payload: text@ }),
        ),
        OperatorRequest::Clear { confirmed } => if confirmed {
            BoardCallView::ClearAll
        } else {
            BoardCallView::Nothing
        },
        OperatorRequest::RequestExit { id } => BoardCallView::Append(
            encode_spec(
                MessageView { kind: MessageType::Exit, id: id@, payload: Seq::<char>::empty() },
            ),
        ),
    }
}

/// Decides the call on the board that a request begins with.
pub fn board_call(request: OperatorRequest) -> (call: BoardCall)
    ensures
        call@ == board_call_spec(request),
{
    match request {
        OperatorRequest::List => BoardCall::ListAll,
        OperatorRequest::Submit { id, text } => BoardCall::Append(
            command_message(id, text).to_string(),
        ),
        OperatorRequest::Clear { confirmed } => if confirmed {
            BoardCall::ClearAll
        } else {
            BoardCall::Nothing
        },
        OperatorRequest::RequestExit { id } => BoardCall::Append(exit_message(id).to_string()),
    }
}

/// A command as the operator sees it: its text, and its answer or the marker
/// that stands for none.
#[derive(Debug, PartialEq, Eq)]
pub struct Exchange {
    pub command: String,
    pub output: String,
}

impl View for Exchange {
    type V = (Seq<char>, Seq<char>);

    open spec fn view(&self) -> (Seq<char>, Seq<char>) {
        (self.command@, self.output@)
    }
}

/// The values of a sequence of exchanges.
pub open spec fn exchange_views(list: Seq<Exchange>) -> Seq<(Seq<char>, Seq<char>)> {
    list.map_values(|e: Exchange| e@)
}

/// The test that picks the commands.
pub open spec fn is_command() -> spec_fn(MessageView) -> bool {
    |m: MessageView| m.kind == MessageType::Command
}

/// The text of the command `m` and of its answer in `msgs`.
pub open spec fn exchange_of(msgs: Seq<MessageView>, m: MessageView) -> (Seq<char>, Seq<char>) {
    (
        m.payload,
        match response_spec(msgs, m.id) {
            Some(answer) => answer.payload,
            None => no_output_marker(),
        },
    )
}

/// The function that pairs a command of `msgs` with its answer.
pub open spec fn exchange_in(msgs: Seq<MessageView>) -> spec_fn(MessageView) -> (
    Seq<char>,
    Seq<char>,
) {
    |m: MessageView| exchange_of(msgs, m)
}

/// Every command of the snapshot with its answer, in the snapshot's order.
pub open spec fn listing_spec(msgs: Seq<MessageView>) -> Seq<(Seq<char>, Seq<char>)> {
    msgs.filter(is_command()).map_values(exchange_in(msgs))
}

/// Lists every command of the snapshot, answered or not, with the first
/// answer that the snapshot holds for it.
pub fn list_exchanges(msgs: &Vec<Message>) -> (list: Vec<Exchange>)
    ensures
        exchange_views(list@) == listing_spec(views(msgs@)),
{
    let ghost all = views(msgs@);
    let ghost pick = is_command();
    let ghost pair = exchange_in(all);
    let mut list: Vec<Exchange> = Vec::new();
    let mut i: usize = 0;
    proof {
        reveal(Seq::filter);
        assert(exchange_views(list@) =~= all.take(0).filter(pick).map_values(pair));
    }
    while i < msgs.len()
        invariant
            i <= msgs@.len(),
            all == views(msgs@),
            pick == is_command(),
            pair == exchange_in(all),
            exchange_views(list@) == all.take(i as int).filter(pick).map_values(pair),
        decreases msgs@.len() - i,
    {
        proof {
            lemma_filter_take_succ(all, pick, i as int);
        }
        let ghost before = list@;
        let ghost picked = all.take(i as int).filter(pick);
        if msgs[i].message_type == MessageType::Command {
            let output = match response_for(msgs, &msgs[i].message_id) {
                Some(answer) => answer.message,
                None => "<no output (yet?)>".to_owned(),
            };
            let exchange = Exchange { command: msgs[i].message.clone(), output };
            list.push(exchange);
            assert(exchange_views(list@) =~= exchange_views(before).push(exchange@));
            assert(picked.push(all[i as int]).map_values(pair) =~= picked.map_values(pair).push(
                pair(all[i as int]),
            ));
        }
        i += 1;
    }
    assert(all.take(i as int) =~= all);
    list
}

/// A submission that waits for its answer.
#[derive(Debug, Clone, Copy, PartialEq, Eq)]
pub struct Submission {
    /// The identifier of the command that was posted.
    pub id: [u8; 12],
    /// How many looks at the board are left.
    pub attempts_left: u32,
}

/// What one look at the board means for a submission.
#[derive(Debug, PartialEq, Eq)]
pub enum PollOutcome {
    /// The snapshot holds the answer.
    Answered(String),
    /// No answer yet: sleep, then look again.
    Waiting(Submission),
    /// No answer within the attempts. The command may still be running.
    TimedOut,
}

/// The mathematical value of a `PollOutcome`.
pub ghost enum PollView {
    Answered(Seq<char>),
    Waiting(nat),
    TimedOut,
}

impl View for PollOutcome {
    type V = PollView;

    open spec fn view(&self) -> PollView {
        match self {
            PollOutcome::Answered(text) => PollView::Answered(text@),
            PollOutcome::Waiting(wait) => PollView::Waiting(wait.attempts_left as nat),
            PollOutcome::TimedOut => PollView::TimedOut,
        }
    }
}

/// The answer to `id` that a look at the board found. A look that failed
/// found none.
pub open spec fn found(id: Seq<u8>, snapshot: Option<Seq<MessageView>>) -> Option<MessageView> {
    match snapshot {
        Some(msgs) => response_spec(msgs, id),
        None => None,
    }
}

/// One look at the board with `attempts_left` looks left, this one included.
/// Every look uses up one attempt, a failed one too.
pub open spec fn poll_spec(
    id: Seq<u8>,
    attempts_left: nat,
    snapshot: Option<Seq<MessageView>>,
) -> PollView {
    if attempts_left == 0 {
        PollView::TimedOut
    } else {
        match found(id, snapshot) {
            Some(answer) => PollView::Answered(answer.payload),
            None => if attempts_left == 1 {
                PollView::TimedOut
            } else {
                PollView::Waiting((attempts_left - 1) as nat)
            },
        }
    }
}

/// Starts the wait for the answer to the command `id`.
pub fn begin_wait(id: [u8; 12], attempts: u32) -> (wait: Submission)
    ensures
        wait.id == id,
        wait.attempts_left == attempts,
{
    Submission { id, attempts_left: attempts }
}

/// Takes one look at the board: `snapshot` holds the messages that were
/// read, or `None` where reading failed. The answer ends the wait; without
/// one the wait goes on with one attempt less, and times out when that was
/// the last.
pub fn poll(wait: Submission, snapshot: Option<&Vec<Message>>) -> (outcome: PollOutcome)
    ensures
        outcome@ == poll_spec(
            wait.id@,
            wait.attempts_left as nat,
            match snapshot {
                Some(msgs) => Some(views(msgs@)),
                None => None,
            },
        ),
        outcome matches PollOutcome::Waiting(next) ==> next.id == wait.id,
{
    if wait.attempts_left == 0 {
        return PollOutcome::TimedOut;
    }
    let answer = match snapshot {
        Some(msgs) => response_for(msgs, &wait.id),
        None => None,
    };
    match answer {
        Some(answer) => PollOutcome::Answered(answer.message),
        None => if wait.attempts_left == 1 {
            PollOutcome::TimedOut
        } else {
            PollOutcome::Waiting(Submission { id: wait.id, attempts_left: wait.attempts_left - 1 })
        },
    }
}

/// Where a wait stands after the looks `snapshots`, taken in this order.
pub open spec fn wait_spec(
    id: Seq<u8>,
    attempts: nat,
    snapshots: Seq<Option<Seq<MessageView>>>,
) -> PollView
    decreases snapshots.len(),
{
    if snapshots.len() == 0 {
        if attempts == 0 {
            PollView::TimedOut
        } else {
            PollView::Waiting(attempts)
        }
    } else {
        match poll_spec(id, attempts, snapshots[0]) {
            PollView::Waiting(left) => wait_spec(id, left, snapshots.drop_first()),
            done => done,
        }
    }
}

/// A wait that never finds its answer goes on for as long as attempts are
/// left, and times out with the look that uses up the last one: neither
/// earlier nor later.
pub proof fn lemma_timeout_after_all_attempts(
    id: Seq<u8>,
    attempts: nat,
    snapshots: Seq<Option<Seq<MessageView>>>,
)
    requires
        snapshots.len() <= attempts,
        forall|i: int| 0 <= i < snapshots.len() ==> found(id, #[trigger] snapshots[i]) is None,
    ensures
        snapshots.len() == attempts ==> wait_spec(id, attempts, snapshots) == PollView::TimedOut,
        snapshots.len() < attempts ==> wait_spec(id, attempts, snapshots) == PollView::Waiting(
            (attempts - snapshots.len()) as nat,
        ),
    decreases snapshots.len(),
{
    if snapshots.len() > 0 {
        let rest = snapshots.drop_first();
        assert(found(id, snapshots[0]) is None);
        assert forall|i: int| 0 <= i < rest.len() implies found(id, #[trigger] rest[i]) is None by {
            assert(rest[i] == snapshots[i + 1]);
        }
        if attempts > 1 {
            lemma_timeout_after_all_attempts(id, (attempts - 1) as nat, rest);
        }
    }
}

/// The first look that finds the answer ends the wait with it, whatever
/// follows.
pub proof fn lemma_answer_ends_the_wait(
    id: Seq<u8>,
    attempts: nat,
    snapshots: Seq<Option<Seq<MessageView>>>,
    at: int,
)
    requires
        0 <= at < snapshots.len(),
        at < attempts,
        forall|i: int| 0 <= i < at ==> found(id, #[trigger] snapshots[i]) is None,
        found(id, snapshots[at]) is Some,
    ensures
        wait_spec(id, attempts, snapshots) == PollView::Answered(
            found(id, snapshots[at])->Some_0.payload,
        ),
    decreases snapshots.len(),
{
    if at > 0 {
        let rest = snapshots.drop_first();
        assert(found(id, snapshots[0]) is None);
        assert forall|i: int| 0 <= i < at - 1 implies found(id, #[trigger] rest[i]) is None by {
            assert(rest[i] == snapshots[i + 1]);
        }
        assert(rest[at - 1] == snapshots[at]);
        lemma_answer_ends_the_wait(id, (attempts - 1) as nat, rest, at - 1);
    }
}

} // verus!
