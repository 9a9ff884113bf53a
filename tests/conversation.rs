use roboclic::committee::Committee;
use roboclic::dialogue::{
    choose_target, keyboard_rows, set_quote, settle, start_poll_dialogue, Effect, Next, PollState,
};

fn member(id: i32, name: &str, poll_count: i32) -> Committee {
    Committee { id, name: name.to_string(), poll_count }
}

fn roster() -> Vec<Committee> {
    vec![member(1, "Alice", 0), member(2, "Bob", 4), member(3, "Carol", 2)]
}

fn names(v: &[&str]) -> Vec<String> {
    v.iter().map(|s| s.to_string()).collect()
}

#[test]
fn end_to_end_quiz_poll() {
    let state = PollState::Start;

    let t = start_poll_dialogue(100, &Some(roster()));
    assert_eq!(t.effects.len(), 2);
    assert!(matches!(t.effects[0], Effect::DeleteMessage { message_id: 100 }));
    match &t.effects[1] {
        Effect::SendTargetPrompt { rows } => {
            assert_eq!(rows, &vec![names(&["Alice", "Bob", "Carol"])]);
        }
        other => panic!("unexpected effect {:?}", other),
    }
    assert!(matches!(t.next, Next::AwaitTarget));
    let state = settle(state, t.next, 200);
    assert!(matches!(state, PollState::ChooseTarget { message_id: 200 }));

    let t = choose_target(&state, Some("Bob".to_string()));
    assert_eq!(t.effects.len(), 2);
    assert!(matches!(t.effects[0], Effect::DeleteMessage { message_id: 200 }));
    assert!(matches!(t.effects[1], Effect::SendQuotePrompt));
    let state = settle(state, t.next, 300);
    match &state {
        PollState::SetQuote { message_id, target } => {
            assert_eq!(*message_id, 300);
            assert_eq!(target, "Bob");
        }
        other => panic!("unexpected state {:?}", other),
    }

    let t = set_quote(&state, 400, Some("it compiles".to_string()), Some(roster()));
    assert_eq!(t.effects.len(), 4);
    assert!(matches!(t.effects[0], Effect::DeleteMessage { message_id: 300 }));
    assert!(matches!(t.effects[1], Effect::DeleteMessage { message_id: 400 }));
    let polls = t.effects.iter().filter(|e| matches!(e, Effect::SendPoll { .. })).count();
    assert_eq!(polls, 1);
    match &t.effects[2] {
        Effect::SendPoll { quote, options, correct } => {
            assert_eq!(quote, "it compiles");
            assert_eq!(options.len(), 3);
            assert_eq!(options.iter().filter(|o| o.as_str() == "Bob").count(), 1);
            assert_eq!(options[*correct], "Bob");
            let mut sorted = options.clone();
            sorted.sort();
            assert_eq!(sorted, names(&["Alice", "Bob", "Carol"]));
        }
        other => panic!("unexpected effect {:?}", other),
    }
    match &t.effects[3] {
        Effect::PersistRoster { committee } => {
            assert_eq!(committee.len(), 3);
            assert_eq!(committee[0].poll_count, 0);
            assert_eq!(committee[1].name, "Bob");
            assert_eq!(committee[1].poll_count, 5);
            assert_eq!(committee[2].poll_count, 2);
        }
        other => panic!("unexpected effect {:?}", other),
    }
    let state = settle(state, t.next, 0);
    assert!(matches!(state, PollState::Start));
}

#[test]
fn choice_in_start_is_ignored() {
    let t = choose_target(&PollState::Start, Some("Bob".to_string()));
    assert!(t.effects.is_empty());
    assert!(matches!(t.next, Next::Keep));
    assert!(matches!(settle(PollState::Start, t.next, 9), PollState::Start));
}

#[test]
fn choice_while_awaiting_quote_is_ignored() {
    let state = PollState::SetQuote { message_id: 5, target: "Bob".to_string() };
    let t = choose_target(&state, Some("Alice".to_string()));
    assert!(t.effects.is_empty());
    match settle(state, t.next, 9) {
        PollState::SetQuote { message_id, target } => {
            assert_eq!(message_id, 5);
            assert_eq!(target, "Bob");
        }
        other => panic!("unexpected state {:?}", other),
    }
}

#[test]
fn choice_without_data_targets_empty_name() {
    let t = choose_target(&PollState::ChooseTarget { message_id: 3 }, None);
    match t.next {
        Next::AwaitQuote { target } => assert_eq!(target, ""),
        other => panic!("unexpected next {:?}", other),
    }
}

#[test]
fn start_without_roster_sends_nothing() {
    let t = start_poll_dialogue(7, &None);
    assert_eq!(t.effects.len(), 1);
    assert!(matches!(t.effects[0], Effect::DeleteMessage { message_id: 7 }));
    assert!(matches!(t.next, Next::Keep));
    assert!(matches!(settle(PollState::Start, t.next, 1), PollState::Start));
}

#[test]
fn start_replaces_a_stale_conversation() {
    let stale = PollState::SetQuote { message_id: 5, target: "Bob".to_string() };
    let t = start_poll_dialogue(8, &Some(roster()));
    assert!(matches!(settle(stale, t.next, 42), PollState::ChooseTarget { message_id: 42 }));
}

#[test]
fn quote_without_text_is_ignored() {
    let state = PollState::SetQuote { message_id: 5, target: "Bob".to_string() };
    let t = set_quote(&state, 6, None, Some(roster()));
    assert!(t.effects.is_empty());
    assert!(matches!(t.next, Next::Keep));
}

#[test]
fn quote_outside_conversation_is_ignored() {
    let t = set_quote(&PollState::Start, 6, Some("hello".to_string()), Some(roster()));
    assert!(t.effects.is_empty());
    assert!(matches!(t.next, Next::Keep));
}

#[test]
fn quote_with_failed_roster_fetch_keeps_state() {
    let state = PollState::SetQuote { message_id: 5, target: "Bob".to_string() };
    let t = set_quote(&state, 6, Some("hello".to_string()), None);
    assert_eq!(t.effects.len(), 2);
    assert!(matches!(t.effects[0], Effect::DeleteMessage { message_id: 5 }));
    assert!(matches!(t.effects[1], Effect::DeleteMessage { message_id: 6 }));
    assert!(matches!(t.next, Next::Keep));
}

#[test]
fn quote_about_unknown_target_is_reported() {
    let state = PollState::SetQuote { message_id: 5, target: "Zoe".to_string() };
    let t = set_quote(&state, 6, Some("hello".to_string()), Some(roster()));
    assert_eq!(t.effects.len(), 3);
    assert!(matches!(t.effects[2], Effect::SendUnknownTarget));
    assert!(matches!(t.next, Next::Reset));
}

#[test]
fn takes_quote_only_with_text_in_set_quote() {
    let state = PollState::SetQuote { message_id: 5, target: "Bob".to_string() };
    assert!(state.takes_quote(&Some("x".to_string())));
    assert!(!state.takes_quote(&None));
    assert!(!PollState::Start.takes_quote(&Some("x".to_string())));
    assert!(!PollState::ChooseTarget { message_id: 1 }.takes_quote(&Some("x".to_string())));
}

#[test]
fn keyboard_rows_wrap_at_three() {
    let rows = keyboard_rows(&names(&["a", "b", "c", "d", "e", "f", "g"]));
    assert_eq!(rows, vec![names(&["a", "b", "c"]), names(&["d", "e", "f"]), names(&["g"])]);
    let rows = keyboard_rows(&names(&["a", "b", "c", "d", "e", "f"]));
    assert_eq!(rows, vec![names(&["a", "b", "c"]), names(&["d", "e", "f"])]);
    assert!(keyboard_rows(&Vec::new()).is_empty());
}

#[test]
fn default_state_is_start() {
    assert!(matches!(PollState::default(), PollState::Start));
}
