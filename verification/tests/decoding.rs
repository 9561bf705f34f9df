use okclai::consumer::{command_outcome, concat_fragments};
use okclai::decode::{decode_response, parse_event, single_response};
use okclai::errors::OkError;
use okclai::extract::extract_code_block;
use okclai::msg::{get_first_choice, ChatFmtMsg, Choice, GPTRes};
use okclai::prompt::request_message;
use okclai::render::render_request;
use okclai::stream::{run_stream, StreamEvent};
use okclai::Settings;

#[test]
fn parse_event_reads_a_content_delta() {
    let res = parse_event("{\"choices\":[{\"delta\":{\"content\":\"hi\"}}]}").unwrap();
    assert_eq!(res.choices.len(), 1);
    assert_eq!(
        res.choices[0].message,
        ChatFmtMsg::Content { content: "hi".to_string() }
    );
}

#[test]
fn parse_event_accepts_message_as_well_as_delta() {
    let res = parse_event(
        "{\"choices\":[{\"message\":{\"role\":\"assistant\",\"content\":\"full\"}}]}",
    )
    .unwrap();
    assert_eq!(
        res.choices[0].message,
        ChatFmtMsg::Both { role: "assistant".to_string(), content: "full".to_string() }
    );
}

#[test]
fn parse_event_rejects_malformed_json() {
    assert_eq!(parse_event("{\"choices\":"), Err(OkError::Parse));
    assert_eq!(parse_event(""), Err(OkError::Parse));
    assert_eq!(parse_event("{\"choices\":[]} trailing"), Err(OkError::Parse));
}

#[test]
fn parse_event_rejects_wrong_shapes() {
    assert_eq!(parse_event("[1,2,3]"), Err(OkError::Protocol));
    assert_eq!(parse_event("{}"), Err(OkError::Protocol));
    assert_eq!(parse_event("{\"choices\":42}"), Err(OkError::Protocol));
    assert_eq!(parse_event("{\"choices\":[{\"index\":0}]}"), Err(OkError::Protocol));
}

#[test]
fn unicode_escapes_are_decoded() {
    let res = parse_event("{\"choices\":[{\"delta\":{\"content\":\"\\u0041\\n\"}}]}").unwrap();
    assert_eq!(
        res.choices[0].message,
        ChatFmtMsg::Content { content: "A\n".to_string() }
    );
}

#[test]
fn surrogate_pairs_decode_to_one_character() {
    let res =
        parse_event("{\"choices\":[{\"delta\":{\"content\":\"\\uD83D\\uDE00\"}}]}").unwrap();
    assert_eq!(
        res.choices[0].message,
        ChatFmtMsg::Content { content: "\u{1F600}".to_string() }
    );
}

#[test]
fn lone_surrogate_is_a_parse_error() {
    assert_eq!(
        parse_event("{\"choices\":[{\"delta\":{\"content\":\"\\uD83D\"}}]}"),
        Err(OkError::Parse)
    );
}

#[test]
fn whitespace_between_tokens_is_insignificant() {
    let res = parse_event(
        " {\n\t\"choices\" : [ { \"delta\" : { \"content\" : \"hi\" } } ]\r\n} ",
    )
    .unwrap();
    assert_eq!(
        res.choices[0].message,
        ChatFmtMsg::Content { content: "hi".to_string() }
    );
}

#[test]
fn the_first_of_duplicate_members_wins() {
    let res = parse_event(
        "{\"choices\":[{\"delta\":{\"content\":\"first\",\"content\":\"second\"}}]}",
    )
    .unwrap();
    assert_eq!(
        res.choices[0].message,
        ChatFmtMsg::Content { content: "first".to_string() }
    );
    assert_eq!(
        parse_event("{\"choices\":[],\"choices\":[{\"delta\":{}}]}"),
        Ok(GPTRes { choices: Vec::new() })
    );
}

#[test]
fn get_first_choice_takes_the_first() {
    let res = GPTRes {
        choices: vec![
            Choice { message: ChatFmtMsg::Content { content: "a".to_string() } },
            Choice { message: ChatFmtMsg::Content { content: "b".to_string() } },
        ],
    };
    assert_eq!(
        get_first_choice(&res),
        Ok(ChatFmtMsg::Content { content: "a".to_string() })
    );
}

#[test]
fn get_first_choice_of_zero_choices_is_protocol_error() {
    let res = GPTRes { choices: Vec::new() };
    assert_eq!(get_first_choice(&res), Err(OkError::Protocol));
}

#[test]
fn decode_response_returns_the_answer_text() {
    let body = "{\"choices\":[{\"message\":{\"role\":\"assistant\",\"content\":\"Use ls -la\"}}]}";
    assert_eq!(decode_response(body), Ok("Use ls -la".to_string()));
}

#[test]
fn decode_response_with_zero_choices_is_protocol_error() {
    assert_eq!(decode_response("{\"choices\":[]}"), Err(OkError::Protocol));
}

#[test]
fn decode_response_without_full_message_is_protocol_error() {
    assert_eq!(
        decode_response("{\"choices\":[{\"message\":{\"content\":\"only text\"}}]}"),
        Err(OkError::Protocol)
    );
}

#[test]
fn single_response_surfaces_the_status_code() {
    assert_eq!(single_response(500, "ignored"), Err(OkError::Transport(500)));
    assert_eq!(single_response(404, ""), Err(OkError::Transport(404)));
    assert_eq!(
        single_response(
            200,
            "{\"choices\":[{\"message\":{\"role\":\"assistant\",\"content\":\"ok\"}}]}",
        ),
        Ok("ok".to_string())
    );
}

#[test]
fn streaming_and_whole_paths_agree_on_the_answer() {
    let body = "{\"choices\":[{\"message\":{\"role\":\"assistant\",\"content\":\"Use ls -la\"}}]}";
    let whole = decode_response(body).unwrap();
    let events = vec![
        StreamEvent::Data("{\"choices\":[{\"delta\":{\"role\":\"assistant\"}}]}".to_string()),
        StreamEvent::Data("{\"choices\":[{\"delta\":{\"content\":\"Use \"}}]}".to_string()),
        StreamEvent::Data("{\"choices\":[{\"delta\":{\"content\":\"ls -la\"}}]}".to_string()),
        StreamEvent::Data("{\"choices\":[{\"delta\":{}}]}".to_string()),
    ];
    let out = run_stream(&events);
    assert_eq!(out.result, Ok(()));
    assert_eq!(concat_fragments(&out.fragments), whole);
}

#[test]
fn extract_finds_the_first_fenced_block() {
    assert_eq!(extract_code_block("```\nls -la\n```"), Ok("ls -la".to_string()));
    assert_eq!(
        extract_code_block("Run this:\n```bash\ngit log --graph\n```\nDone."),
        Ok("git log --graph".to_string())
    );
    assert_eq!(
        extract_code_block("first ```\na\n``` then ```\nb\n```"),
        Ok("a".to_string())
    );
}

#[test]
fn extract_without_a_fence_is_no_command_found() {
    assert_eq!(extract_code_block("no block here"), Err(OkError::NoCommandFound));
    assert_eq!(extract_code_block("``` opened but never closed"), Err(OkError::NoCommandFound));
}

#[test]
fn extract_handles_empty_and_tag_only_blocks() {
    assert_eq!(extract_code_block("``````"), Ok(String::new()));
    assert_eq!(extract_code_block("```bash\n```"), Ok(String::new()));
}

#[test]
fn request_message_builds_the_fixed_prompt() {
    let msgs = request_message("delete every temp file");
    assert_eq!(msgs.len(), 4);
    match &msgs[0] {
        ChatFmtMsg::Both { role, content } => {
            assert_eq!(role, "system");
            assert!(content.starts_with("Assume you are a Linux/Unix-like systems expert."));
        },
        other => panic!("unexpected first message: {:?}", other),
    }
    match &msgs[1] {
        ChatFmtMsg::Both { role, content } => {
            assert_eq!(role, "user");
            assert_eq!(content, "pretty print commits in this repository with author name");
        },
        other => panic!("unexpected second message: {:?}", other),
    }
    match &msgs[2] {
        ChatFmtMsg::Both { role, .. } => assert_eq!(role, "assistant"),
        other => panic!("unexpected third message: {:?}", other),
    }
    match &msgs[3] {
        ChatFmtMsg::Both { role, content } => {
            assert_eq!(role, "user");
            assert_eq!(content, "delete every temp file");
        },
        other => panic!("unexpected last message: {:?}", other),
    }
}

#[test]
fn render_request_writes_the_exact_body() {
    let msgs = vec![ChatFmtMsg::Both { role: "user".to_string(), content: "hi".to_string() }];
    let body = render_request("gpt-3.5-turbo", &msgs, false);
    assert_eq!(
        body,
        "{\"model\":\"gpt-3.5-turbo\",\"messages\":[{\"role\":\"user\",\"content\":\"hi\"}],\"stream\":false}"
    );
}

#[test]
fn render_request_escapes_and_separates() {
    let msgs = vec![
        ChatFmtMsg::Both { role: "system".to_string(), content: "a\nb \"c\" \\d".to_string() },
        ChatFmtMsg::Both { role: "user".to_string(), content: "x".to_string() },
    ];
    let body = render_request("m", &msgs, true);
    assert_eq!(
        body,
        "{\"model\":\"m\",\"messages\":[{\"role\":\"system\",\"content\":\"a\\nb \\\"c\\\" \\\\d\"},{\"role\":\"user\",\"content\":\"x\"}],\"stream\":true}"
    );
}

#[test]
fn rendered_request_decodes_back_to_the_same_message() {
    let msgs = vec![ChatFmtMsg::Both {
        role: "assistant".to_string(),
        content: "tab\there \u{0001}!".to_string(),
    }];
    let body = render_request("m", &msgs, false);
    let mut wrapped = String::new();
    wrapped.push_str("{\"choices\":[{\"message\":");
    let inner = body
        .strip_prefix("{\"model\":\"m\",\"messages\":[")
        .and_then(|rest| rest.strip_suffix("],\"stream\":false}"))
        .unwrap();
    wrapped.push_str(inner);
    wrapped.push_str("}]}");
    let res = parse_event(&wrapped).unwrap();
    assert_eq!(res.choices[0].message, msgs[0]);
}

#[test]
fn end_to_end_stream_to_command() {
    let events = vec![
        StreamEvent::Data("{\"choices\":[{\"delta\":{\"role\":\"assistant\"}}]}".to_string()),
        StreamEvent::Data(
            "{\"choices\":[{\"delta\":{\"content\":\"Run:\\n```bash\\ngit log\"}}]}".to_string(),
        ),
        StreamEvent::Comment("keep-alive".to_string()),
        StreamEvent::Data(
            "{\"choices\":[{\"delta\":{\"content\":\" --graph\\n```\\nDone.\"}}]}".to_string(),
        ),
        StreamEvent::Data("{\"choices\":[{\"delta\":{}}]}".to_string()),
    ];
    let out = run_stream(&events);
    assert_eq!(out.result, Ok(()));
    let answer = concat_fragments(&out.fragments);
    assert_eq!(answer, "Run:\n```bash\ngit log --graph\n```\nDone.");
    assert_eq!(extract_code_block(&answer), Ok("git log --graph".to_string()));
}

#[test]
fn concat_of_no_fragments_is_empty() {
    assert_eq!(concat_fragments(&Vec::new()), String::new());
}

#[test]
fn command_outcome_splits_on_success() {
    assert_eq!(
        command_outcome(true, "out".to_string(), "err".to_string()),
        Ok("out".to_string())
    );
    assert_eq!(
        command_outcome(false, "out".to_string(), "err".to_string()),
        Err(OkError::Execution("err".to_string()))
    );
}

#[test]
fn settings_keep_their_flags() {
    let s = Settings::new(false, true, false);
    assert!(!s.stream);
    assert!(s.explain);
    assert!(!s.ask_before_execution);
    let d = Settings::default();
    assert!(d.stream && d.explain && d.ask_before_execution);
}

#[test]
fn error_labels_name_each_kind() {
    assert_eq!(OkError::Parse.label(), "malformed event payload");
    assert_eq!(OkError::NoCommandFound.label(), "no code block found");
}
