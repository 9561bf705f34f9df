use okclai::errors::OkError;
use okclai::reducer::{Delta, Reducer, ReducerState};
use okclai::stream::{decode_data_frame, reduce_event, run_stream, StepOutcome, StreamEvent};

fn data(payload: &str) -> StreamEvent {
    StreamEvent::Data(payload.to_string())
}

fn role_frame() -> StreamEvent {
    data("{\"choices\":[{\"delta\":{\"role\":\"assistant\"}}]}")
}

fn content_frame(text: &str) -> StreamEvent {
    let mut payload = String::new();
    payload.push_str("{\"choices\":[{\"delta\":{\"content\":\"");
    payload.push_str(text);
    payload.push_str("\"}}]}");
    StreamEvent::Data(payload)
}

fn terminal_frame() -> StreamEvent {
    data("{\"choices\":[{\"delta\":{}}]}")
}

#[test]
fn well_formed_stream_emits_fragments_in_order() {
    let events = vec![
        role_frame(),
        content_frame("Use "),
        content_frame("ls -la"),
        terminal_frame(),
    ];
    let out = run_stream(&events);
    assert_eq!(out.fragments, vec!["Use ".to_string(), "ls -la".to_string()]);
    assert_eq!(out.result, Ok(()));
}

#[test]
fn scenario_a_fragments_concatenate() {
    let events = vec![
        role_frame(),
        content_frame("Use "),
        content_frame("ls -la"),
        terminal_frame(),
    ];
    let out = run_stream(&events);
    assert_eq!(out.result, Ok(()));
    let answer = okclai::consumer::concat_fragments(&out.fragments);
    assert_eq!(answer, "Use ls -la");
}

#[test]
fn missing_terminal_reports_failure_after_fragments() {
    let events = vec![role_frame(), content_frame("partial "), content_frame("answer")];
    let out = run_stream(&events);
    assert_eq!(out.fragments, vec!["partial ".to_string(), "answer".to_string()]);
    assert_eq!(out.result, Err(OkError::Network));
}

#[test]
fn transport_failure_mid_stream_reports_failure() {
    let events = vec![role_frame(), content_frame("a"), StreamEvent::Failure];
    let out = run_stream(&events);
    assert_eq!(out.fragments, vec!["a".to_string()]);
    assert_eq!(out.result, Err(OkError::Network));
}

#[test]
fn content_before_role_is_dropped_without_error() {
    let events = vec![
        content_frame("noise"),
        role_frame(),
        content_frame("kept"),
        terminal_frame(),
    ];
    let out = run_stream(&events);
    assert_eq!(out.fragments, vec!["kept".to_string()]);
    assert_eq!(out.result, Ok(()));
}

#[test]
fn terminal_before_role_is_dropped_without_error() {
    let events = vec![terminal_frame(), role_frame(), content_frame("x"), terminal_frame()];
    let out = run_stream(&events);
    assert_eq!(out.fragments, vec!["x".to_string()]);
    assert_eq!(out.result, Ok(()));
}

#[test]
fn scenario_b_comment_frame_is_ignored() {
    let with_comment = vec![
        role_frame(),
        content_frame("Use "),
        StreamEvent::Comment("keep-alive".to_string()),
        content_frame("ls -la"),
        terminal_frame(),
    ];
    let without_comment = vec![
        role_frame(),
        content_frame("Use "),
        content_frame("ls -la"),
        terminal_frame(),
    ];
    let a = run_stream(&with_comment);
    let b = run_stream(&without_comment);
    assert_eq!(a.fragments, b.fragments);
    assert_eq!(a.result, Ok(()));
    assert_eq!(b.result, Ok(()));
}

#[test]
fn scenario_c_malformed_frame_after_two_fragments() {
    let events = vec![
        role_frame(),
        content_frame("one "),
        content_frame("two"),
        data("{\"choices\":[{\"delta\""),
        content_frame("never seen"),
    ];
    let out = run_stream(&events);
    assert_eq!(out.fragments, vec!["one ".to_string(), "two".to_string()]);
    assert_eq!(out.result, Err(OkError::Parse));
}

#[test]
fn zero_choices_frame_fails_with_protocol_error() {
    let events = vec![role_frame(), data("{\"choices\":[]}")];
    let out = run_stream(&events);
    assert_eq!(out.fragments, Vec::<String>::new());
    assert_eq!(out.result, Err(OkError::Protocol));
}

#[test]
fn role_repeated_mid_stream_is_discarded() {
    let events = vec![
        role_frame(),
        content_frame("a"),
        role_frame(),
        content_frame("b"),
        terminal_frame(),
    ];
    let out = run_stream(&events);
    assert_eq!(out.fragments, vec!["a".to_string(), "b".to_string()]);
    assert_eq!(out.result, Ok(()));
}

#[test]
fn frames_after_terminal_are_not_consumed() {
    let events = vec![
        role_frame(),
        content_frame("done"),
        terminal_frame(),
        content_frame("late"),
        StreamEvent::Failure,
    ];
    let out = run_stream(&events);
    assert_eq!(out.fragments, vec!["done".to_string()]);
    assert_eq!(out.result, Ok(()));
}

#[test]
fn delta_with_role_and_content_is_protocol_error() {
    let r = decode_data_frame(
        "{\"choices\":[{\"delta\":{\"role\":\"assistant\",\"content\":\"x\"}}]}",
    );
    assert_eq!(r, Err(OkError::Protocol));
}

#[test]
fn delta_with_non_string_role_is_protocol_error() {
    let r = decode_data_frame("{\"choices\":[{\"delta\":{\"role\":5}}]}");
    assert_eq!(r, Err(OkError::Protocol));
}

#[test]
fn decode_data_frame_classifies_the_three_shapes() {
    assert_eq!(
        decode_data_frame("{\"choices\":[{\"delta\":{\"role\":\"assistant\"}}]}"),
        Ok(Delta::RoleAnnouncement { role: "assistant".to_string() })
    );
    assert_eq!(
        decode_data_frame("{\"choices\":[{\"delta\":{\"content\":\"hi\"}}]}"),
        Ok(Delta::ContentFragment { text: "hi".to_string() })
    );
    assert_eq!(decode_data_frame("{\"choices\":[{\"delta\":{}}]}"), Ok(Delta::Terminal));
}

#[test]
fn extra_chunk_fields_are_skipped() {
    let payload = "{\"id\":\"c-1\",\"object\":\"chat.completion.chunk\",\"created\":1700000000,\
                   \"model\":\"m\",\"choices\":[{\"index\":0,\"delta\":{\"content\":\"ok\"},\
                   \"finish_reason\":null}]}";
    assert_eq!(decode_data_frame(payload), Ok(Delta::ContentFragment { text: "ok".to_string() }));
}

#[test]
fn reducer_steps_through_the_three_states() {
    let mut red = Reducer::new();
    assert_eq!(red.state, ReducerState::AwaitingRole);
    assert_eq!(red.step(Delta::ContentFragment { text: "dropped".to_string() }), None);
    assert_eq!(red.state, ReducerState::AwaitingRole);
    assert_eq!(red.step(Delta::RoleAnnouncement { role: "assistant".to_string() }), None);
    assert_eq!(red.state, ReducerState::Streaming);
    assert_eq!(
        red.step(Delta::ContentFragment { text: "hi".to_string() }),
        Some("hi".to_string())
    );
    assert_eq!(red.step(Delta::Terminal), None);
    assert_eq!(red.state, ReducerState::Done);
    assert_eq!(red.close(), Ok(()));
}

#[test]
fn close_without_terminal_is_a_failure() {
    let mut red = Reducer::new();
    red.step(Delta::RoleAnnouncement { role: "assistant".to_string() });
    assert_eq!(red.close(), Err(OkError::Network));
}

#[test]
fn reduce_event_drives_one_frame_at_a_time() {
    let mut red = Reducer::new();
    assert_eq!(reduce_event(&mut red, &role_frame()), StepOutcome::Silent);
    assert_eq!(
        reduce_event(&mut red, &content_frame("x")),
        StepOutcome::Emit("x".to_string())
    );
    assert_eq!(
        reduce_event(&mut red, &StreamEvent::Comment("c".to_string())),
        StepOutcome::Silent
    );
    assert_eq!(reduce_event(&mut red, &terminal_frame()), StepOutcome::Finished);
    assert_eq!(reduce_event(&mut red, &content_frame("late")), StepOutcome::Finished);
}
