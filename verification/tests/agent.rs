use google_doc2::agent::{agent_step, command_reply, exit_reply, AgentState, ROUND_INTERVAL_SECS};
use google_doc2::board::{read_all_messages, unanswered_commands};
use google_doc2::shell::{Message, MessageType};

fn message(kind: MessageType, id: u8, text: &str) -> Message {
    Message { message_type: kind, message_id: [id; 12], message: text.to_string() }
}

#[test]
fn round_handles_each_unanswered_command_once() {
    let msgs = vec![
        message(MessageType::Command, 1, "a"),
        message(MessageType::Output, 2, "done"),
        message(MessageType::Command, 2, "b"),
        message(MessageType::Command, 3, "c"),
        message(MessageType::Command, 4, "d"),
        message(MessageType::Output, 9, "stray"),
    ];
    let round = agent_step(AgentState::Running, &msgs);
    assert_eq!(round.state, AgentState::Running);
    assert_eq!(round.requests, unanswered_commands(&msgs));
    assert_eq!(round.requests.len(), 3);
    let replies: Vec<Message> = round
        .requests
        .iter()
        .map(|request| command_reply(request, Ok(format!("ran {}", request.message))))
        .collect();
    assert_eq!(
        replies,
        vec![
            message(MessageType::Output, 1, "ran a"),
            message(MessageType::Output, 3, "ran c"),
            message(MessageType::Output, 4, "ran d"),
        ]
    );
}

#[test]
fn answered_round_is_idle() {
    let msgs = vec![
        message(MessageType::Command, 1, "a"),
        message(MessageType::Output, 1, "done"),
        message(MessageType::Exit, 2, ""),
        message(MessageType::Output, 2, "Exiting..."),
    ];
    let round = agent_step(AgentState::Running, &msgs);
    assert_eq!(round.requests, Vec::<Message>::new());
    assert_eq!(round.state, AgentState::Running);
}

#[test]
fn exit_ends_the_round() {
    let msgs = vec![
        message(MessageType::Command, 1, "before"),
        message(MessageType::Exit, 2, ""),
        message(MessageType::Command, 3, "after"),
        message(MessageType::Exit, 4, ""),
    ];
    let round = agent_step(AgentState::Running, &msgs);
    assert_eq!(round.state, AgentState::Terminated);
    assert_eq!(
        round.requests,
        vec![message(MessageType::Command, 1, "before"), message(MessageType::Exit, 2, "")]
    );
    assert_eq!(
        exit_reply(round.requests.last().unwrap()),
        message(MessageType::Output, 2, "Exiting...")
    );
}

#[test]
fn exit_first_means_nothing_is_executed() {
    let msgs = vec![message(MessageType::Exit, 2, ""), message(MessageType::Command, 3, "after")];
    let round = agent_step(AgentState::Running, &msgs);
    assert_eq!(round.state, AgentState::Terminated);
    assert_eq!(round.requests, vec![message(MessageType::Exit, 2, "")]);
}

#[test]
fn terminated_agent_handles_nothing() {
    let msgs = vec![message(MessageType::Command, 1, "a"), message(MessageType::Exit, 2, "")];
    let round = agent_step(AgentState::Terminated, &msgs);
    assert_eq!(round.state, AgentState::Terminated);
    assert_eq!(round.requests, Vec::<Message>::new());
}

#[test]
fn failure_becomes_the_reply_text() {
    let request = message(MessageType::Command, 6, "nonesuch");
    assert_eq!(
        command_reply(&request, Err("sh: nonesuch: not found".to_string())),
        message(MessageType::Output, 6, "sh: nonesuch: not found")
    );
    assert_eq!(
        command_reply(&request, Ok(String::new())),
        message(MessageType::Output, 6, "")
    );
}

#[test]
fn round_over_a_board_snapshot() {
    let command = message(MessageType::Command, 2, "Hello, world!");
    let comments = vec!["a remark".to_string(), command.to_string()];
    assert_eq!(comments[1], "0102020202020202020202020248656c6c6f2c20776f726c6421");
    let msgs = read_all_messages(&comments);
    let round = agent_step(AgentState::Running, &msgs);
    assert_eq!(round.requests, vec![command.clone()]);
    let reply = command_reply(&round.requests[0], Ok("hi\n".to_string()));
    let mut after = comments.clone();
    after.push(reply.to_string());
    let next = agent_step(round.state, &read_all_messages(&after));
    assert_eq!(next.requests, Vec::<Message>::new());
    assert_eq!(next.state, AgentState::Running);
}

#[test]
fn rounds_are_five_seconds_apart() {
    assert_eq!(ROUND_INTERVAL_SECS, 5);
}
