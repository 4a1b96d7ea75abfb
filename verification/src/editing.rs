//! The search-and-replace editing tool: the request it takes, the messages it
//! sends to the language model, the events it streams to the editor, and the
//! response it gives.

use vstd::prelude::*;

use vstd::string::StringExecFns;

use crate::accumulator::{EditDelta, EditEvent, SearchAndReplaceAccumulator};
use crate::prompts::{
    CODE_ABOVE_CLOSE, CODE_ABOVE_OPEN, CODE_BELOW_CLOSE, CODE_BELOW_OPEN, EXAMPLE_ANSWER,
    EXAMPLE_REQUEST, EXTRA_DATA_CLOSE, EXTRA_DATA_OPEN, EXTRA_SYMBOLS_CLOSE, EXTRA_SYMBOLS_OPEN,
    INSTRUCTIONS_OPEN, INSTRUCTIONS_TO_PATH, PATH_CLOSE, SELECTION_CLOSE, SELECTION_OPEN,
    SYSTEM_PROMPT, USER_CONTEXT_CLOSE, USER_CONTEXT_OPEN,
};
use crate::range::Range;
use crate::text::join;

verus! {

/// Who a message to the language model is from.
#[derive(Clone, Copy, Debug, PartialEq, Eq, Structural)]
pub enum LlmRole {
    System,
    User,
    Assistant,
}

/// What a message to the language model holds.
pub struct MessageView {
    pub role: LlmRole,
    pub content: Seq<char>,
    /// The prompt up to this message may be cached by the provider.
    pub cache_point: bool,
}

/// A message to the language model.
pub struct LlmMessage {
    role: LlmRole,
    content: String,
    cache_point: bool,
}

impl View for LlmMessage {
    type V = MessageView;

    closed spec fn view(&self) -> MessageView {
        MessageView { role: self.role, content: self.content@, cache_point: self.cache_point }
    }
}

/// The contents of a list of messages.
pub open spec fn message_views(ms: Seq<LlmMessage>) -> Seq<MessageView> {
    Seq::new(ms.len(), |i: int| ms[i]@)
}

/// A message from `role` holding `content`, with no cache point.
pub open spec fn message(role: LlmRole, content: Seq<char>) -> MessageView {
    MessageView { role, content, cache_point: false }
}

impl LlmMessage {
    pub fn system(message: String) -> (res: Self)
        ensures
            res@ == crate::editing::message(LlmRole::System, message@),
    {
        LlmMessage { role: LlmRole::System, content: message, cache_point: false }
    }

    pub fn user(message: String) -> (res: Self)
        ensures
            res@ == crate::editing::message(LlmRole::User, message@),
    {
        LlmMessage { role: LlmRole::User, content: message, cache_point: false }
    }

    pub fn assistant(message: String) -> (res: Self)
        ensures
            res@ == crate::editing::message(LlmRole::Assistant, message@),
    {
        LlmMessage { role: LlmRole::Assistant, content: message, cache_point: false }
    }

    /// The same message, marked as a cache point.
    pub fn cache_point(self) -> (res: Self)
        ensures
            res@ == (MessageView { cache_point: true, ..self@ }),
    {
        LlmMessage { cache_point: true, ..self }
    }

    pub fn role(&self) -> (res: LlmRole)
        ensures
            res == self@.role,
    {
        self.role
    }

    pub fn content(&self) -> (res: &str)
        ensures
            res@ == self@.content,
    {
        self.content.as_str()
    }

    pub fn is_cache_point(&self) -> (res: bool)
        ensures
            res == self@.cache_point,
    {
        self.cache_point
    }
}

/// `open`, then `x`, then `close`.
pub open spec fn wrapped(open: &str, x: Seq<char>, close: &str) -> Seq<char> {
    open@ + x + close@
}

/// The text `open`, then `x`, then `close`.
fn wrap(open: &str, x: &str, close: &str) -> (res: String)
    ensures
        res@ == wrapped(open, x@, close),
{
    let mut res = open.to_owned();
    res.append(x);
    res.append(close);
    res
}

/// What a search-and-replace edit is asked for.
pub struct RequestView {
    pub fs_file_path: Seq<char>,
    pub edit_range: Range,
    pub context_in_edit_selection: Seq<char>,
    pub complete_file: Seq<char>,
    pub extra_data: Seq<char>,
    pub new_symbols: Option<Seq<char>>,
    pub instructions: Seq<char>,
    pub root_request_id: Seq<char>,
    pub edit_request_id: Seq<char>,
    pub user_context: Option<Seq<char>>,
    pub is_warmup: bool,
}

/// A request to edit a selection of a file with search-and-replace blocks.
pub struct SearchAndReplaceEditingRequest {
    fs_file_path: String,
    _edit_range: Range,
    context_in_edit_selection: String,
    complete_file: String,
    extra_data: String,
    new_symbols: Option<String>,
    instructions: String,
    root_request_id: String,
    edit_request_id: String,
    user_context: Option<String>,
    is_warmup: bool,
}

/// The text held by an optional string.
pub open spec fn opt_view(s: Option<String>) -> Option<Seq<char>> {
    match s {
        Some(x) => Some(x@),
        None => None,
    }
}

impl View for SearchAndReplaceEditingRequest {
    type V = RequestView;

    closed spec fn view(&self) -> RequestView {
        RequestView {
            fs_file_path: self.fs_file_path@,
            edit_range: self._edit_range,
            context_in_edit_selection: self.context_in_edit_selection@,
            complete_file: self.complete_file@,
            extra_data: self.extra_data@,
            new_symbols: opt_view(self.new_symbols),
            instructions: self.instructions@,
            root_request_id: self.root_request_id@,
            edit_request_id: self.edit_request_id@,
            user_context: opt_view(self.user_context),
            is_warmup: self.is_warmup,
        }
    }
}

impl SearchAndReplaceEditingRequest {
    pub fn new(
        fs_file_path: String,
        edit_range: Range,
        context_in_edit_selection: String,
        complete_file: String,
        extra_data: String,
        new_symbols: Option<String>,
        instructions: String,
        root_request_id: String,
        edit_request_id: String,
        user_context: Option<String>,
        is_warmup: bool,
    ) -> (res: Self)
        ensures
            res@ == (RequestView {
                fs_file_path: fs_file_path@,
                edit_range,
                context_in_edit_selection: context_in_edit_selection@,
                complete_file: complete_file@,
                extra_data: extra_data@,
                new_symbols: opt_view(new_symbols),
                instructions: instructions@,
                root_request_id: root_request_id@,
                edit_request_id: edit_request_id@,
                user_context: opt_view(user_context),
                is_warmup,
            }),
    {
        SearchAndReplaceEditingRequest {
            fs_file_path,
            _edit_range: edit_range,
            context_in_edit_selection,
            complete_file,
            extra_data,
            new_symbols,
            instructions,
            root_request_id,
            edit_request_id,
            user_context,
            is_warmup,
        }
    }

    pub fn fs_file_path(&self) -> (res: &str)
        ensures
            res@ == self@.fs_file_path,
    {
        self.fs_file_path.as_str()
    }

    pub fn complete_file(&self) -> (res: &str)
        ensures
            res@ == self@.complete_file,
    {
        self.complete_file.as_str()
    }

    pub fn root_request_id(&self) -> (res: &str)
        ensures
            res@ == self@.root_request_id,
    {
        self.root_request_id.as_str()
    }

    pub fn edit_request_id(&self) -> (res: &str)
        ensures
            res@ == self@.edit_request_id,
    {
        self.edit_request_id.as_str()
    }

    pub fn is_warmup(&self) -> (res: bool)
        ensures
            res == self@.is_warmup,
    {
        self.is_warmup
    }
}

/// The message that hands the model the context the user gave, with a
/// reminder of the rules, marked as a cache point.
pub open spec fn user_context_message(user_context: Seq<char>) -> MessageView {
    MessageView {
        role: LlmRole::User,
        content: wrapped(USER_CONTEXT_OPEN, user_context, USER_CONTEXT_CLOSE),
        cache_point: true,
    }
}

/// The main user message: the symbols the edit will create where there are
/// any, the extra data, the code to edit, the instructions and the file path.
pub open spec fn main_user_message(req: RequestView) -> Seq<char> {
    (match req.new_symbols {
        Some(symbols) => wrapped(EXTRA_SYMBOLS_OPEN, symbols, EXTRA_SYMBOLS_CLOSE),
        None => Seq::<char>::empty(),
    }) + wrapped(EXTRA_DATA_OPEN, req.extra_data, EXTRA_DATA_CLOSE) + "\n"@ + wrapped(
        SELECTION_OPEN,
        req.context_in_edit_selection,
        SELECTION_CLOSE,
    ) + "\n"@ + INSTRUCTIONS_OPEN@ + req.instructions + INSTRUCTIONS_TO_PATH@ + req.fs_file_path
        + PATH_CLOSE@
}

/// The user messages of a request: the context message where the user gave
/// context, then the main message.
pub open spec fn user_messages_of(req: RequestView) -> Seq<MessageView> {
    (match req.user_context {
        Some(c) => seq![user_context_message(c)],
        None => Seq::<MessageView>::empty(),
    }) + seq![message(LlmRole::User, main_user_message(req))]
}

/// The example exchange shown to the model, the answer marked as a cache point.
pub open spec fn example_messages_spec() -> Seq<MessageView> {
    seq![
        message(LlmRole::User, EXAMPLE_REQUEST@),
        MessageView { role: LlmRole::Assistant, content: EXAMPLE_ANSWER@, cache_point: true },
    ]
}

/// All the messages of a completion request: the system prompt, the example
/// exchange and the user messages.
pub open spec fn completion_messages_of(req: RequestView) -> Seq<MessageView> {
    seq![message(LlmRole::System, SYSTEM_PROMPT@)] + example_messages_spec() + user_messages_of(req)
}

/// The search-and-replace editing tool: how it asks the model for an edit.
pub struct SearchAndReplaceEditing {}

impl SearchAndReplaceEditing {
    pub fn new() -> (res: Self) {
        SearchAndReplaceEditing {  }
    }

    pub fn system_message(&self) -> (res: String)
        ensures
            res@ == SYSTEM_PROMPT@,
    {
        SYSTEM_PROMPT.to_owned()
    }

    pub fn extra_data(&self, extra_data: &str) -> (res: String)
        ensures
            res@ == wrapped(EXTRA_DATA_OPEN, extra_data@, EXTRA_DATA_CLOSE),
    {
        wrap(EXTRA_DATA_OPEN, extra_data, EXTRA_DATA_CLOSE)
    }

    pub fn _above_selection(&self, above_selection: Option<&str>) -> (res: Option<String>)
        ensures
            match above_selection {
                Some(above) => res matches Some(r) && r@ == wrapped(
                    CODE_ABOVE_OPEN,
                    above@,
                    CODE_ABOVE_CLOSE,
                ),
                None => res is None,
            },
    {
        match above_selection {
            Some(above) => Some(wrap(CODE_ABOVE_OPEN, above, CODE_ABOVE_CLOSE)),
            None => None,
        }
    }

    pub fn _below_selection(&self, below_selection: Option<&str>) -> (res: Option<String>)
        ensures
            match below_selection {
                Some(below) => res matches Some(r) && r@ == wrapped(
                    CODE_BELOW_OPEN,
                    below@,
                    CODE_BELOW_CLOSE,
                ),
                None => res is None,
            },
    {
        match below_selection {
            Some(below) => Some(wrap(CODE_BELOW_OPEN, below, CODE_BELOW_CLOSE)),
            None => None,
        }
    }

    pub fn selection_to_edit(&self, selection_to_edit: &str) -> (res: String)
        ensures
            res@ == wrapped(SELECTION_OPEN, selection_to_edit@, SELECTION_CLOSE),
    {
        wrap(SELECTION_OPEN, selection_to_edit, SELECTION_CLOSE)
    }

    pub fn user_messages(&self, context: SearchAndReplaceEditingRequest) -> (res: Vec<LlmMessage>)
        ensures
            message_views(res@) == user_messages_of(context@),
    {
        let ghost req = context@;
        let mut messages: Vec<LlmMessage> = Vec::new();
        match &context.user_context {
            Some(user_context) => {
                let text = wrap(USER_CONTEXT_OPEN, user_context.as_str(), USER_CONTEXT_CLOSE);
                messages.push(LlmMessage::user(text).cache_point());
            },
            None => {},
        }
        let ghost first = message_views(messages@);
        let extra_data = self.extra_data(context.extra_data.as_str());
        let in_range = self.selection_to_edit(context.context_in_edit_selection.as_str());
        let mut user_message = String::new();
        match &context.new_symbols {
            Some(symbols) => {
                let text = wrap(EXTRA_SYMBOLS_OPEN, symbols.as_str(), EXTRA_SYMBOLS_CLOSE);
                user_message.append(text.as_str());
            },
            None => {},
        }
        user_message.append(extra_data.as_str());
        user_message.append("\n");
        user_message.append(in_range.as_str());
        user_message.append("\n");
        user_message.append(INSTRUCTIONS_OPEN);
        user_message.append(context.instructions.as_str());
        user_message.append(INSTRUCTIONS_TO_PATH);
        user_message.append(context.fs_file_path.as_str());
        user_message.append(PATH_CLOSE);
        assert(user_message@ =~= main_user_message(req));
        messages.push(LlmMessage::user(user_message));
        assert(message_views(messages@) =~= user_messages_of(req));
        messages
    }

    pub fn example_messages(&self) -> (res: Vec<LlmMessage>)
        ensures
            message_views(res@) == example_messages_spec(),
    {
        let mut messages: Vec<LlmMessage> = Vec::new();
        messages.push(LlmMessage::user(EXAMPLE_REQUEST.to_owned()));
        messages.push(LlmMessage::assistant(EXAMPLE_ANSWER.to_owned()).cache_point());
        assert(message_views(messages@) =~= example_messages_spec());
        messages
    }

    /// The messages of the completion request for `context`: the system
    /// prompt, the example exchange and the user messages.
    pub fn completion_messages(&self, context: SearchAndReplaceEditingRequest) -> (res: Vec<
        LlmMessage,
    >)
        ensures
            message_views(res@) == completion_messages_of(context@),
    {
        let ghost req = context@;
        let mut messages: Vec<LlmMessage> = Vec::new();
        messages.push(LlmMessage::system(self.system_message()));
        let mut examples = self.example_messages();
        let mut users = self.user_messages(context);
        let ghost ex = message_views(examples@);
        let ghost us = message_views(users@);
        messages.append(&mut examples);
        messages.append(&mut users);
        assert(message_views(messages@) =~= completion_messages_of(req));
        messages
    }

    /// The limit on the answer's length: a warmup request asks for one token
    /// only; another asks for no limit.
    pub fn max_tokens(&self, context: &SearchAndReplaceEditingRequest) -> (res: Option<usize>)
        ensures
            res == if context@.is_warmup {
                Some(1usize)
            } else {
                None::<usize>
            },
    {
        if context.is_warmup {
            Some(1)
        } else {
            None
        }
    }
}

/// An event streamed to the editor while an edit is applied.
pub enum EditStreamEvent {
    /// The edit of this range starts.
    StartEditStreaming(Range),
    /// More text for the edit of this range.
    DeltaEditStreaming((Range, String)),
    /// The edit of this range ends; the code as it now stands.
    EndEditStreaming((Range, String)),
}

/// What an editor event says, as a value of the model.
pub enum StreamEvent {
    Start(Range),
    Delta(Range, Seq<char>),
    End(Range, Seq<char>),
}

impl View for EditStreamEvent {
    type V = StreamEvent;

    open spec fn view(&self) -> StreamEvent {
        match self {
            EditStreamEvent::StartEditStreaming(r) => StreamEvent::Start(*r),
            EditStreamEvent::DeltaEditStreaming((r, s)) => StreamEvent::Delta(*r, s@),
            EditStreamEvent::EndEditStreaming((r, s)) => StreamEvent::End(*r, s@),
        }
    }
}

/// The contents of a list of editor events.
pub open spec fn stream_views(es: Seq<EditStreamEvent>) -> Seq<StreamEvent> {
    Seq::new(es.len(), |i: int| es[i]@)
}

/// The editor events for one edit event: a start opens a code fence, an end
/// closes it and hands over the code as it now stands.
pub open spec fn stream_events_for(edit: EditEvent, code: Seq<char>) -> Seq<StreamEvent> {
    match edit {
        EditEvent::Started(r) => seq![StreamEvent::Start(r), StreamEvent::Delta(r, "```\n"@)],
        EditEvent::Delta(r, s) => seq![StreamEvent::Delta(r, s)],
        EditEvent::End(r) => seq![StreamEvent::Delta(r, "\n```"@), StreamEvent::End(r, code)],
    }
}

/// The editor events to send for the edit event `edit`, where `code` is the
/// code as it stands when the event is handled.
pub fn stream_events_for_edit(edit: EditDelta, code: String) -> (res: Vec<EditStreamEvent>)
    ensures
        stream_views(res@) == stream_events_for(edit@, code@),
{
    let mut events: Vec<EditStreamEvent> = Vec::new();
    match edit {
        EditDelta::EditStarted(r) => {
            events.push(EditStreamEvent::StartEditStreaming(r));
            events.push(EditStreamEvent::DeltaEditStreaming((r, "```\n".to_owned())));
        },
        EditDelta::EditDelta((r, s)) => {
            events.push(EditStreamEvent::DeltaEditStreaming((r, s)));
        },
        EditDelta::EditEnd(r) => {
            events.push(EditStreamEvent::DeltaEditStreaming((r, "\n```".to_owned())));
            events.push(EditStreamEvent::EndEditStreaming((r, code)));
        },
    }
    assert(stream_views(events@) =~= stream_events_for(edit@, code@));
    events
}

/// The result of an edit: the code after it and the model's whole answer.
pub struct SearchAndReplaceEditingResponse {
    updated_code: String,
    response: String,
}

impl SearchAndReplaceEditingResponse {
    pub closed spec fn spec_updated_code(&self) -> Seq<char> {
        self.updated_code@
    }

    pub closed spec fn spec_response(&self) -> Seq<char> {
        self.response@
    }

    pub fn new(updated_code: String, response: String) -> (res: Self)
        ensures
            res.spec_updated_code() == updated_code@,
            res.spec_response() == response@,
    {
        Self { updated_code, response }
    }

    pub fn updated_code(&self) -> (res: &str)
        ensures
            res@ == self.spec_updated_code(),
    {
        self.updated_code.as_str()
    }

    pub fn response(&self) -> (res: &str)
        ensures
            res@ == self.spec_response(),
    {
        self.response.as_str()
    }
}

/// The tool's response once the model's stream has ended: where the stream
/// gave the whole answer, the code as the accumulator has edited it and that
/// answer; where the stream failed or gave nothing, none.
pub fn edit_response<E>(
    accumulator: &SearchAndReplaceAccumulator,
    stream_result: Option<Result<String, E>>,
) -> (res: Option<SearchAndReplaceEditingResponse>)
    ensures
        match stream_result {
            Some(Ok(response)) => res matches Some(r) && r.spec_updated_code() == join(
                accumulator.state().code,
            ) && r.spec_response() == response@,
            _ => res is None,
        },
{
    match stream_result {
        Some(Ok(response)) => Some(SearchAndReplaceEditingResponse::new(accumulator.code(), response)),
        _ => None,
    }
}

} // verus!
