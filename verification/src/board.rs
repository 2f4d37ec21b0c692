//! One snapshot of the board: the messages among its entries, and the two
//! questions that both parties ask of it.

use vstd::prelude::*;
use crate::shell::{decode_spec, Message, MessageType, MessageView};

verus! {

/// The values of a sequence of messages.
pub open spec fn views(msgs: Seq<Message>) -> Seq<MessageView> {
    msgs.map_values(|m: Message| m@)
}

/// The characters of each entry of a snapshot.
pub open spec fn texts(comments: Seq<String>) -> Seq<Seq<char>> {
    comments.map_values(|s: String| s@)
}

/// The message that an entry holds, `None` where it holds none.
pub open spec fn entry_message(entry: Seq<char>) -> Option<MessageView> {
    match decode_spec(entry) {
        Ok(m) => Some(m),
        Err(_) => None,
    }
}

/// The messages of a snapshot: the entries that decode, in the snapshot's
/// order; every other entry is left out.
pub open spec fn snapshot_messages(entries: Seq<Seq<char>>) -> Seq<MessageView> {
    entries.filter_map(|entry: Seq<char>| entry_message(entry))
}

/// `m` is an `Output` that carries the identifier `id`.
pub open spec fn is_response_to(m: MessageView, id: Seq<u8>) -> bool {
    m.kind == MessageType::Output && m.id == id
}

/// The snapshot holds an `Output` with the identifier `id`.
pub open spec fn is_answered(msgs: Seq<MessageView>, id: Seq<u8>) -> bool {
    exists|j: int| 0 <= j < msgs.len() && is_response_to(#[trigger] msgs[j], id)
}

/// `m` is a `Command` that the snapshot `msgs` holds no `Output` for.
pub open spec fn is_unanswered_command(msgs: Seq<MessageView>, m: MessageView) -> bool {
    m.kind == MessageType::Command && !is_answered(msgs, m.id)
}

/// The test that picks the unanswered commands of `msgs`.
pub open spec fn unanswered_in(msgs: Seq<MessageView>) -> spec_fn(MessageView) -> bool {
    |m: MessageView| is_unanswered_command(msgs, m)
}

/// The commands of a snapshot that it holds no `Output` for, in the
/// snapshot's order.
pub open spec fn unanswered_spec(msgs: Seq<MessageView>) -> Seq<MessageView> {
    msgs.filter(unanswered_in(msgs))
}

/// Filtering one element more either appends that element or changes nothing.
pub proof fn lemma_filter_take_succ<A>(s: Seq<A>, p: spec_fn(A) -> bool, i: int)
    requires
        0 <= i < s.len(),
    ensures
        s.take(i + 1).filter(p) == if p(s[i]) {
            s.take(i).filter(p).push(s[i])
        } else {
            s.take(i).filter(p)
        },
{
    reveal(Seq::filter);
    assert(s.take(i + 1).drop_last() =~= s.take(i));
}

/// The messages among the entries of a snapshot. An entry that does not
/// decode is skipped, whatever the reason.
pub fn read_all_messages(comments: &Vec<String>) -> (msgs: Vec<Message>)
    ensures
        views(msgs@) == snapshot_messages(texts(comments@)),
{
    let ghost entries = texts(comments@);
    let ghost pick = |entry: Seq<char>| entry_message(entry);
    let mut msgs: Vec<Message> = Vec::new();
    let mut i: usize = 0;
    assert(views(msgs@) =~= entries.take(0).filter_map(pick));
    while i < comments.len()
        invariant
            i <= comments@.len(),
            entries == texts(comments@),
            pick == (|entry: Seq<char>| entry_message(entry)),
            views(msgs@) == entries.take(i as int).filter_map(pick),
        decreases comments@.len() - i,
    {
        proof {
            entries.lemma_filter_map_take_succ(pick, i as int);
        }
        let ghost before = msgs@;
        match Message::from_str(comments[i].as_str()) {
            Ok(m) => {
                msgs.push(m);
                assert(views(msgs@) =~= views(before).push(m@));
            },
            Err(_) => {},
        }
        i += 1;
        assert(views(msgs@) =~= entries.take(i as int).filter_map(pick));
    }
    assert(entries.take(i as int) =~= entries);
    msgs
}

/// Whether two identifiers are the same.
pub fn same_id(a: &[u8; 12], b: &[u8; 12]) -> (r: bool)
    ensures
        r == (a@ == b@),
{
    let mut i: usize = 0;
    while i < 12
        invariant
            i <= 12,
            forall|j: int| 0 <= j < i ==> a@[j] == b@[j],
        decreases 12 - i,
    {
        if a[i] != b[i] {
            assert(a@[i as int] != b@[i as int]);
            return false;
        }
        i += 1;
    }
    assert(a@ =~= b@);
    true
}

/// `j` is the place of the first `Output` of `msgs` that carries `id`.
pub open spec fn is_first_response(msgs: Seq<MessageView>, id: Seq<u8>, j: int) -> bool {
    &&& 0 <= j < msgs.len()
    &&& is_response_to(msgs[j], id)
    &&& forall|k: int| 0 <= k < j ==> !is_response_to(#[trigger] msgs[k], id)
}

/// The first `Output` of the snapshot that carries `id`, `None` where the
/// snapshot holds no such message.
pub open spec fn response_spec(msgs: Seq<MessageView>, id: Seq<u8>) -> Option<MessageView> {
    if exists|j: int| is_first_response(msgs, id, j) {
        Some(msgs[choose|j: int| is_first_response(msgs, id, j)])
    } else {
        None
    }
}

/// The value of a message that may be missing.
pub open spec fn option_view(m: Option<Message>) -> Option<MessageView> {
    match m {
        Some(m) => Some(m@),
        None => None,
    }
}

/// The first `Output` of the snapshot that carries `id`, if there is one.
pub fn response_for(msgs: &Vec<Message>, id: &[u8; 12]) -> (r: Option<Message>)
    ensures
        r is Some <==> is_answered(views(msgs@), id@),
        option_view(r) == response_spec(views(msgs@), id@),
{
    let ghost all = views(msgs@);
    let mut i: usize = 0;
    while i < msgs.len()
        invariant
            i <= msgs@.len(),
            all == views(msgs@),
            forall|k: int| 0 <= k < i ==> !is_response_to(#[trigger] all[k], id@),
        decreases msgs@.len() - i,
    {
        if msgs[i].message_type == MessageType::Output && same_id(&msgs[i].message_id, id) {
            proof {
                assert(is_response_to(all[i as int], id@));
                assert(is_first_response(all, id@, i as int));
                let j = choose|j: int| is_first_response(all, id@, j);
                assert(is_response_to(all[j], id@));
                assert(j == i);
            }
            return Some(msgs[i].clone());
        }
        assert(!is_response_to(all[i as int], id@));
        i += 1;
    }
    None
}

/// The commands of the snapshot that it holds no `Output` for. The answer
/// depends on this snapshot alone.
pub fn unanswered_commands(msgs: &Vec<Message>) -> (pending: Vec<Message>)
    ensures
        views(pending@) == unanswered_spec(views(msgs@)),
{
    let ghost all = views(msgs@);
    let ghost pick = unanswered_in(all);
    let mut pending: Vec<Message> = Vec::new();
    let mut i: usize = 0;
    proof {
        reveal(Seq::filter);
        assert(views(pending@) =~= all.take(0).filter(pick));
    }
    while i < msgs.len()
        invariant
            i <= msgs@.len(),
            all == views(msgs@),
            pick == unanswered_in(all),
            views(pending@) == all.take(i as int).filter(pick),
        decreases msgs@.len() - i,
    {
        proof {
            lemma_filter_take_succ(all, pick, i as int);
        }
        let ghost before = pending@;
        if msgs[i].message_type == MessageType::Command {
            let answer = response_for(msgs, &msgs[i].message_id);
            if answer.is_none() {
                pending.push(msgs[i].clone());
                assert(views(pending@) =~= views(before).push(msgs@[i as int]@));
            }
        }
        i += 1;
    }
    assert(all.take(i as int) =~= all);
    pending
}

/// A command that the snapshot answers is not among its unanswered commands.
pub proof fn lemma_answered_is_excluded(msgs: Seq<MessageView>, id: Seq<u8>)
    requires
        is_answered(msgs, id),
    ensures
        forall|i: int|
            0 <= i < unanswered_spec(msgs).len() ==> (#[trigger] unanswered_spec(msgs)[i]).id
                != id,
{
    let p = unanswered_in(msgs);
    assert forall|i: int| 0 <= i < msgs.filter(p).len() implies (#[trigger] msgs.filter(p)[i]).id
        != id by {
        msgs.lemma_filter_pred(p, i);
    }
}

/// A command that the snapshot holds no `Output` for is among its unanswered
/// commands.
pub proof fn lemma_unanswered_is_included(msgs: Seq<MessageView>, i: int)
    requires
        0 <= i < msgs.len(),
        msgs[i].kind == MessageType::Command,
        !is_answered(msgs, msgs[i].id),
    ensures
        unanswered_spec(msgs).contains(msgs[i]),
{
    msgs.lemma_filter_contains(unanswered_in(msgs), i);
}

} // verus!
