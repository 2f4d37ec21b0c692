use google_doc2::operator::{begin_wait, command_message, exit_message, list_exchanges, poll};
use google_doc2::operator::{board_call, BoardCall, OperatorRequest};
use google_doc2::operator::{Exchange, PollOutcome, Submission, POLL_INTERVAL_SECS, SUBMIT_ATTEMPTS};
use google_doc2::shell::{Message, MessageType};

fn message(kind: MessageType, id: u8, text: &str) -> Message {
    Message { message_type: kind, message_id: [id; 12], message: text.to_string() }
}

fn exchange(command: &str, output: &str) -> Exchange {
    Exchange { command: command.to_string(), output: output.to_string() }
}

#[test]
fn budget_is_sixty_looks_five_seconds_apart() {
    assert_eq!(SUBMIT_ATTEMPTS, 60);
    assert_eq!(POLL_INTERVAL_SECS, 5);
}

#[test]
fn requests_carry_their_identifier() {
    assert_eq!(
        command_message([7; 12], "echo hi".to_string()),
        message(MessageType::Command, 7, "echo hi")
    );
    assert_eq!(exit_message([8; 12]), message(MessageType::Exit, 8, ""));
    assert_eq!(exit_message([8; 12]).to_string(), "03080808080808080808080808");
}

#[test]
fn listing_pairs_commands_with_answers() {
    let msgs = vec![
        message(MessageType::Output, 2, "two"),
        message(MessageType::Command, 1, "one?"),
        message(MessageType::Command, 2, "two?"),
        message(MessageType::Exit, 3, ""),
        message(MessageType::Output, 2, "two again"),
        message(MessageType::Output, 3, "Exiting..."),
    ];
    assert_eq!(
        list_exchanges(&msgs),
        vec![exchange("one?", "<no output (yet?)>"), exchange("two?", "two")]
    );
    assert_eq!(list_exchanges(&Vec::new()), Vec::<Exchange>::new());
}

#[test]
fn submit_times_out_after_the_configured_attempts() {
    let posted = command_message([9; 12], "echo hi".to_string());
    let board = vec![posted.clone(), message(MessageType::Output, 1, "not ours")];
    let mut wait = begin_wait(posted.message_id, SUBMIT_ATTEMPTS);
    let mut looks = 0;
    let outcome = loop {
        looks += 1;
        match poll(wait, Some(&board)) {
            PollOutcome::Waiting(next) => wait = next,
            done => break done,
        }
    };
    assert_eq!(outcome, PollOutcome::TimedOut);
    assert_eq!(looks, 60);
}

#[test]
fn failed_look_uses_an_attempt() {
    let wait = begin_wait([9; 12], 3);
    assert_eq!(
        poll(wait, None),
        PollOutcome::Waiting(Submission { id: [9; 12], attempts_left: 2 })
    );
    assert_eq!(poll(begin_wait([9; 12], 1), None), PollOutcome::TimedOut);
}

#[test]
fn no_attempts_means_timeout_without_a_look() {
    let board = vec![message(MessageType::Output, 9, "hi\n")];
    assert_eq!(poll(begin_wait([9; 12], 0), Some(&board)), PollOutcome::TimedOut);
}

#[test]
fn answer_ends_the_wait() {
    let board = vec![
        message(MessageType::Command, 9, "echo hi"),
        message(MessageType::Output, 9, "hi\n"),
    ];
    assert_eq!(
        poll(begin_wait([9; 12], 60), Some(&board)),
        PollOutcome::Answered("hi\n".to_string())
    );
    assert_eq!(
        poll(begin_wait([9; 12], 1), Some(&board)),
        PollOutcome::Answered("hi\n".to_string())
    );
}

#[test]
fn answer_on_a_later_look() {
    let empty: Vec<Message> = Vec::new();
    let board = vec![message(MessageType::Output, 9, "late")];
    let first = poll(begin_wait([9; 12], 2), Some(&empty));
    let wait = match first {
        PollOutcome::Waiting(next) => next,
        other => panic!("{:?}", other),
    };
    assert_eq!(wait.attempts_left, 1);
    assert_eq!(poll(wait, Some(&board)), PollOutcome::Answered("late".to_string()));
}

#[test]
fn clear_needs_confirmation() {
    assert_eq!(board_call(OperatorRequest::Clear { confirmed: false }), BoardCall::Nothing);
    assert_eq!(board_call(OperatorRequest::Clear { confirmed: true }), BoardCall::ClearAll);
}

#[test]
fn requests_begin_with_their_call() {
    assert_eq!(board_call(OperatorRequest::List), BoardCall::ListAll);
    assert_eq!(
        board_call(OperatorRequest::Submit { id: [2; 12], text: "Hello, world!".to_string() }),
        BoardCall::Append("0102020202020202020202020248656c6c6f2c20776f726c6421".to_string())
    );
    assert_eq!(
        board_call(OperatorRequest::RequestExit { id: [0xab; 12] }),
        BoardCall::Append("03abababababababababababab".to_string())
    );
}
