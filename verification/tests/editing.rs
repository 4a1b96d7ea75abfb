use sidecar_edit::accumulator::{EditDelta, SearchAndReplaceAccumulator};
use sidecar_edit::editing::{
    edit_response, stream_events_for_edit, EditStreamEvent, LlmMessage, LlmRole, SearchAndReplaceEditing,
    SearchAndReplaceEditingRequest, SearchAndReplaceEditingResponse,
};
use sidecar_edit::range::{Position, Range};

fn lines(start: usize, end: usize) -> Range {
    Range::new(Position::new(start, 0, 0), Position::new(end, 0, 0))
}

fn request(
    new_symbols: Option<&str>,
    user_context: Option<&str>,
    is_warmup: bool,
) -> SearchAndReplaceEditingRequest {
    SearchAndReplaceEditingRequest::new(
        "src/lib.rs".to_owned(),
        lines(0, 0),
        "fn x() {}".to_owned(),
        "fn x() {}\n".to_owned(),
        "DATA".to_owned(),
        new_symbols.map(|s| s.to_owned()),
        "rename x".to_owned(),
        "root".to_owned(),
        "edit".to_owned(),
        user_context.map(|s| s.to_owned()),
        is_warmup,
    )
}

const MAIN_MESSAGE: &str = "This is the extra data which you can use:\n<extra_data>\nDATA\n</extra_data>\n<code_to_edit_selection>\nfn x() {}\n</code_to_edit_selection>\nOnly edit the code in <code_to_edit_selection> my instructions are:\n<user_instruction>\nrename x\n</user_instruction>\n\n<fs_file_path>\nsrc/lib.rs\n</fs_file_path>\n";

#[test]
fn system_message_is_the_search_replace_prompt() {
    let tool = SearchAndReplaceEditing::new();
    let message = tool.system_message();
    assert!(message.starts_with("Act as an expert software developer.\nAlways use best practices when coding.\n"));
    assert!(message.ends_with("You always COMPLETELY IMPLEMENT the needed code!\nONLY EVER RETURN CODE IN A *SEARCH/REPLACE BLOCK*!"));
    assert_eq!(message.chars().count(), 3693);
}

#[test]
fn extra_data_and_selection_are_wrapped_in_tags() {
    let tool = SearchAndReplaceEditing::new();
    assert_eq!(
        tool.extra_data("DATA"),
        "This is the extra data which you can use:\n<extra_data>\nDATA\n</extra_data>"
    );
    assert_eq!(
        tool.selection_to_edit("fn x() {}"),
        "<code_to_edit_selection>\nfn x() {}\n</code_to_edit_selection>"
    );
    assert_eq!(
        tool._above_selection(Some("up")),
        Some("<code_above>\nup\n</code_above>".to_owned())
    );
    assert_eq!(tool._above_selection(None), None);
    assert_eq!(
        tool._below_selection(Some("down")),
        Some("<code_below>\ndown\n</code_below>".to_owned())
    );
    assert_eq!(tool._below_selection(None), None);
}

#[test]
fn user_messages_without_context_or_symbols() {
    let tool = SearchAndReplaceEditing::new();
    let messages = tool.user_messages(request(None, None, false));
    assert_eq!(messages.len(), 1);
    assert_eq!(messages[0].role(), LlmRole::User);
    assert_eq!(messages[0].content(), MAIN_MESSAGE);
    assert!(!messages[0].is_cache_point());
}

#[test]
fn user_messages_with_context_and_symbols() {
    let tool = SearchAndReplaceEditing::new();
    let messages = tool.user_messages(request(Some("struct S;"), Some("CTX"), false));
    assert_eq!(messages.len(), 2);
    assert_eq!(messages[0].role(), LlmRole::User);
    assert!(messages[0].is_cache_point());
    assert!(messages[0]
        .content()
        .starts_with("<user_provided_context>\nCTX\n</user_provided_context>\nAs a reminder, once you understand the request you MUST:\n"));
    assert_eq!(messages[0].content().chars().count(), 2548);
    assert_eq!(
        messages[1].content(),
        format!(
            "<extra_symbols_will_be_created>\nstruct S;\n</extra_symbols_will_be_created>{}",
            MAIN_MESSAGE
        )
    );
}

#[test]
fn example_messages_show_one_exchange() {
    let tool = SearchAndReplaceEditing::new();
    let messages = tool.example_messages();
    assert_eq!(messages.len(), 2);
    assert_eq!(messages[0].role(), LlmRole::User);
    assert_eq!(messages[0].content(), "Change get_factorial() to use math.factorial");
    assert!(!messages[0].is_cache_point());
    assert_eq!(messages[1].role(), LlmRole::Assistant);
    assert!(messages[1].content().starts_with("Here are the *SEARCH/REPLACE* blocks:\n\nmathweb/flask/app.py\n```python\n<<<<<<< SEARCH\nfrom flask import Flask\n=======\n"));
    assert!(messages[1].content().ends_with("    return str(math.factorial(n))\n>>>>>>> REPLACE\n```"));
    assert!(messages[1].is_cache_point());
}

#[test]
fn completion_messages_are_system_examples_then_user() {
    let tool = SearchAndReplaceEditing::new();
    let messages = tool.completion_messages(request(None, Some("CTX"), false));
    let roles: Vec<LlmRole> = messages.iter().map(|m| m.role()).collect();
    assert_eq!(
        roles,
        vec![
            LlmRole::System,
            LlmRole::User,
            LlmRole::Assistant,
            LlmRole::User,
            LlmRole::User
        ]
    );
    assert_eq!(messages[0].content(), tool.system_message());
    assert_eq!(messages[4].content(), MAIN_MESSAGE);
}

#[test]
fn warmup_asks_for_one_token() {
    let tool = SearchAndReplaceEditing::new();
    assert_eq!(tool.max_tokens(&request(None, None, true)), Some(1));
    assert_eq!(tool.max_tokens(&request(None, None, false)), None);
}

#[test]
fn request_keeps_its_fields() {
    let r = request(None, None, true);
    assert_eq!(r.fs_file_path(), "src/lib.rs");
    assert_eq!(r.complete_file(), "fn x() {}\n");
    assert_eq!(r.root_request_id(), "root");
    assert_eq!(r.edit_request_id(), "edit");
    assert!(r.is_warmup());
}

#[test]
fn message_constructors_set_role_and_cache_point() {
    let m = LlmMessage::system("s".to_owned());
    assert_eq!(m.role(), LlmRole::System);
    assert_eq!(m.content(), "s");
    assert!(!m.is_cache_point());
    assert!(LlmMessage::assistant("a".to_owned()).cache_point().is_cache_point());
}

#[derive(Debug, PartialEq)]
enum Stream {
    Start(Range),
    Delta(Range, String),
    End(Range, String),
}

fn streams(events: Vec<EditStreamEvent>) -> Vec<Stream> {
    events
        .into_iter()
        .map(|e| match e {
            EditStreamEvent::StartEditStreaming(r) => Stream::Start(r),
            EditStreamEvent::DeltaEditStreaming((r, s)) => Stream::Delta(r, s),
            EditStreamEvent::EndEditStreaming((r, s)) => Stream::End(r, s),
        })
        .collect()
}

#[test]
fn stream_events_open_and_close_a_code_fence() {
    let r = lines(2, 3);
    assert_eq!(
        streams(stream_events_for_edit(EditDelta::EditStarted(r), "code".to_owned())),
        vec![Stream::Start(r), Stream::Delta(r, "```\n".to_owned())]
    );
    assert_eq!(
        streams(stream_events_for_edit(
            EditDelta::EditDelta((r, "x".to_owned())),
            "code".to_owned()
        )),
        vec![Stream::Delta(r, "x".to_owned())]
    );
    assert_eq!(
        streams(stream_events_for_edit(EditDelta::EditEnd(r), "code".to_owned())),
        vec![
            Stream::Delta(r, "\n```".to_owned()),
            Stream::End(r, "code".to_owned())
        ]
    );
}

#[test]
fn response_keeps_code_and_answer() {
    let response = SearchAndReplaceEditingResponse::new("new code".to_owned(), "answer".to_owned());
    assert_eq!(response.updated_code(), "new code");
    assert_eq!(response.response(), "answer");
}

#[test]
fn edit_response_takes_the_edited_code_and_the_answer() {
    let (sender, _receiver) = tokio::sync::mpsc::unbounded_channel();
    let mut accumulator = SearchAndReplaceAccumulator::new("a\nb".to_owned(), 0, sender);
    accumulator.add_delta("<<<<<<< SEARCH\nb\n=======\nc\n>>>>>>> REPLACE\n".to_owned());
    let answer: Option<Result<String, ()>> = Some(Ok("whole answer".to_owned()));
    let response = edit_response(&accumulator, answer).unwrap();
    assert_eq!(response.updated_code(), "a\nc");
    assert_eq!(response.response(), "whole answer");
    assert!(edit_response(&accumulator, Some(Err::<String, ()>(()))).is_none());
    assert!(edit_response::<()>(&accumulator, None).is_none());
}
