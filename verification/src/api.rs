use crate::config::{mood_or_default, rule_block, Config, ConfigView, Mood};
use crate::error::{text_result_view, written_text, ErrorView, SorryError};
use crate::history::{format_history_context, history_context};
use crate::json::{
    elements_of, json_document, json_pretty, json_tree, json_trees, list_value, member_of,
    object2, object_of, parse_document, pretty_text, text_of, text_value, Json,
};
use crate::text::{optional_text, texts};
use vstd::prelude::*;
use vstd::string::StringExecFns;

verus! {

/// What is sent to a provider for one question.
#[derive(Debug)]
pub struct ChatRequest {
    /// The address of the provider's chat completions.
    pub url: String,
    /// The value of the authorization header.
    pub authorization: String,
    pub model: String,
    /// The content of the system message.
    pub system: String,
    /// The content of the user message.
    pub user: String,
}

/// A `ChatRequest` with its texts as sequences of characters.
pub struct RequestView {
    pub url: Seq<char>,
    pub authorization: Seq<char>,
    pub model: Seq<char>,
    pub system: Seq<char>,
    pub user: Seq<char>,
}

impl View for ChatRequest {
    type V = RequestView;

    open spec fn view(&self) -> RequestView {
        RequestView {
            url: self.url@,
            authorization: self.authorization@,
            model: self.model@,
            system: self.system@,
            user: self.user@,
        }
    }
}

/// The prompt made of the words of the command line: the words with one
/// space between each two.
pub open spec fn joined_words(words: Seq<Seq<char>>) -> Seq<char>
    decreases words.len(),
{
    if words.len() == 0 {
        Seq::empty()
    } else if words.len() == 1 {
        words[0]
    } else {
        joined_words(words.drop_last()) + " "@ + words.last()
    }
}

/// Joins the words of the command line to a prompt. With no word there is
/// no prompt.
pub fn join_prompt(words: &Vec<String>) -> (r: Result<String, SorryError>)
    ensures
        match r {
            Ok(p) => words.len() > 0 && p@ == joined_words(texts(words@)),
            Err(e) => words.len() == 0 && e@ == ErrorView::EmptyPrompt,
        },
{
    if words.len() == 0 {
        return Err(SorryError::EmptyPrompt);
    }
    let mut out = String::from_str(words[0].as_str());
    let mut i: usize = 1;
    assert(texts(words@).take(1) =~= seq![words@[0]@]);
    while i < words.len()
        invariant
            1 <= i <= words.len(),
            out@ == joined_words(texts(words@).take(i as int)),
        decreases words.len() - i,
    {
        proof {
            let s = texts(words@).take(i + 1);
            assert(s.drop_last() =~= texts(words@).take(i as int));
            assert(s.last() == words@[i as int]@);
        }
        out.append(" ");
        out.append(words[i].as_str());
        i = i + 1;
    }
    assert(texts(words@).take(i as int) =~= texts(words@));
    Ok(out)
}

/// The user message: the question as it stands where there is no history,
/// else the excerpt of the history and then the question under a label.
pub open spec fn user_message(prompt: Seq<char>, commands: Seq<Seq<char>>) -> Seq<char> {
    let context = history_context(commands);
    if context.len() == 0 {
        prompt
    } else {
        context + "My question/problem: "@ + prompt
    }
}

/// Composes the user message from the question and the recent commands.
pub fn build_user_message(prompt: &str, commands: &[String]) -> (r: String)
    ensures
        r@ == user_message(prompt@, texts(commands@)),
{
    let mut context = format_history_context(commands);
    if context.as_str().is_empty() {
        String::from_str(prompt)
    } else {
        context.append("My question/problem: ");
        context.append(prompt);
        context
    }
}

/// The request for a question, or the reason why none can be made: no
/// provider is selected, the selected one is not configured, or it has no
/// key.
pub open spec fn request_for(config: ConfigView, prompt: Seq<char>, commands: Seq<Seq<char>>) -> Result<
    RequestView,
    ErrorView,
> {
    match config.provider {
        None => Err(ErrorView::NoProvider),
        Some(name) => if !config.providers.contains_key(name) {
            Err(ErrorView::ProviderNotFound(name))
        } else if config.providers[name].api_key.len() == 0 {
            Err(ErrorView::ApiKeyUnset(name))
        } else {
            Ok(
                RequestView {
                    url: config.providers[name].base_url + "/chat/completions"@,
                    authorization: "Bearer "@ + config.providers[name].api_key,
                    model: config.providers[name].model,
                    system: rule_block() + mood_or_default(config.mood).personality_text(),
                    user: user_message(prompt, commands),
                },
            )
        },
    }
}

/// The view of a request or of the error in its place.
pub open spec fn request_result_view(r: Result<ChatRequest, SorryError>) -> Result<
    RequestView,
    ErrorView,
> {
    match r {
        Ok(q) => Ok(q@),
        Err(e) => Err(e@),
    }
}

/// Makes the request for a question from the configuration and the recent
/// commands.
pub fn prepare_request(config: &Config, prompt: &str, commands: &[String]) -> (r: Result<
    ChatRequest,
    SorryError,
>)
    ensures
        request_result_view(r) == request_for(config@, prompt@, texts(commands@)),
{
    let name = match &config.provider {
        Some(name) => name,
        None => {
            return Err(SorryError::NoProvider);
        },
    };
    let provider = match config.providers.get(name.as_str()) {
        Some(provider) => provider,
        None => {
            return Err(SorryError::ProviderNotFound(name.clone()));
        },
    };
    if provider.api_key.as_str().is_empty() {
        return Err(SorryError::ApiKeyUnset(name.clone()));
    }
    let mood = match config.mood {
        Some(m) => m,
        None => Mood::Princess,
    };
    let mut url = provider.base_url.clone();
    url.append("/chat/completions");
    let mut authorization = String::from_str("Bearer ");
    authorization.append(provider.api_key.as_str());
    Ok(
        ChatRequest {
            url,
            authorization,
            model: provider.model.clone(),
            system: mood.system_prompt(),
            user: build_user_message(prompt, commands),
        },
    )
}

/// Whether a status code reports success.
pub open spec fn is_success(code: u16) -> bool {
    200 <= code <= 299
}

/// What an answer of the provider comes to. `api_message` is the message
/// of the error that the body describes, where it describes one; `choices`
/// holds the content of each choice of the chat completion that the body
/// describes, or says why the body describes none.
///
/// Without success the message is reported where there is one, else the
/// status and the body. With success the answer is the first choice; none
/// at all is an empty response, and a body that is no chat completion is
/// reported with the body.
pub open spec fn response_outcome(
    code: u16,
    status: Seq<char>,
    body: Seq<char>,
    api_message: Option<Seq<char>>,
    choices: Result<Seq<Seq<char>>, Seq<char>>,
) -> Result<Seq<char>, ErrorView> {
    if !is_success(code) {
        match api_message {
            Some(m) => Err(ErrorView::Api(m)),
            None => Err(ErrorView::Status { status, body }),
        }
    } else {
        match choices {
            Err(detail) => Err(ErrorView::Parse { detail, body }),
            Ok(contents) => if contents.len() == 0 {
                Err(ErrorView::EmptyResponse)
            } else {
                Ok(contents[0])
            },
        }
    }
}

/// The view of the choices of a chat completion, or of the reason why
/// there are none.
pub open spec fn choices_view(r: Result<Vec<String>, String>) -> Result<Seq<Seq<char>>, Seq<char>> {
    match r {
        Ok(v) => Ok(texts(v@)),
        Err(e) => Err(e@),
    }
}

/// Decides what an answer of the provider comes to: the reply, or the
/// error to report.
pub fn interpret_response(
    code: u16,
    status: &str,
    body: &str,
    api_message: Option<String>,
    choices: Result<Vec<String>, String>,
) -> (r: Result<String, SorryError>)
    ensures
        text_result_view(r) == response_outcome(
            code,
            status@,
            body@,
            optional_text(api_message),
            choices_view(choices),
        ),
{
    if code < 200 || code > 299 {
        return match api_message {
            Some(m) => Err(SorryError::Api(m)),
            None => Err(
                SorryError::Status { status: String::from_str(status), body: String::from_str(body) },
            ),
        };
    }
    match choices {
        Err(detail) => Err(SorryError::Parse { detail, body: String::from_str(body) }),
        Ok(contents) => {
            if contents.len() == 0 {
                Err(SorryError::EmptyResponse)
            } else {
                Ok(contents[0].clone())
            }
        },
    }
}

/// The message of the error that a document describes: the string under
/// `message` in the object under `error`.
pub open spec fn error_message_in(doc: Json) -> Option<Seq<char>> {
    match doc.member("error"@) {
        Some(error) => match error.member("message"@) {
            Some(message) => message.text(),
            None => None,
        },
        None => None,
    }
}

/// The content of one choice of a chat completion: the string under
/// `content` in the object under `message`.
pub open spec fn choice_content(choice: Json) -> Option<Seq<char>> {
    match choice.member("message"@) {
        Some(message) => match message.member("content"@) {
            Some(content) => content.text(),
            None => None,
        },
        None => None,
    }
}

/// The contents of the choices, where each of them has one.
pub open spec fn choice_contents(items: Seq<Json>) -> Result<Seq<Seq<char>>, Seq<char>> {
    if forall|i: int| 0 <= i < items.len() ==> (#[trigger] choice_content(items[i])) is Some {
        Ok(
            Seq::new(
                items.len(),
                |i: int|
                    match choice_content(items[i]) {
                        Some(c) => c,
                        None => Seq::empty(),
                    },
            ),
        )
    } else {
        Err("a choice has no `message` with a `content` string"@)
    }
}

/// The contents of the choices of the chat completion that a document
/// describes: the document holds a list under `choices`, each element of
/// which has a content. Else the reason why it describes none.
pub open spec fn choices_in(doc: Json) -> Result<Seq<Seq<char>>, Seq<char>> {
    match doc.member("choices"@) {
        None => Err("missing field `choices`"@),
        Some(choices) => match choices.elements() {
            None => Err("field `choices` is not a list"@),
            Some(items) => choice_contents(items),
        },
    }
}

/// Reads the message of the error that a document describes, if it
/// describes one.
pub fn decode_error_message(doc: &serde_json::Value) -> (r: Option<String>)
    ensures
        optional_text(r) == error_message_in(json_tree(*doc)),
{
    match member_of(doc, "error") {
        Some(error) => match member_of(error, "message") {
            Some(message) => text_of(message),
            None => None,
        },
        None => None,
    }
}

fn decode_choice(choice: &serde_json::Value) -> (r: Option<String>)
    ensures
        optional_text(r) == choice_content(json_tree(*choice)),
{
    match member_of(choice, "message") {
        Some(message) => match member_of(message, "content") {
            Some(content) => text_of(content),
            None => None,
        },
        None => None,
    }
}

/// Reads the contents of the choices of the chat completion that a
/// document describes.
pub fn decode_choices(doc: &serde_json::Value) -> (r: Result<Vec<String>, String>)
    ensures
        choices_view(r) == choices_in(json_tree(*doc)),
{
    let choices = match member_of(doc, "choices") {
        Some(choices) => choices,
        None => {
            return Err(String::from_str("missing field `choices`"));
        },
    };
    let items = match elements_of(choices) {
        Some(items) => items,
        None => {
            return Err(String::from_str("field `choices` is not a list"));
        },
    };
    let ghost trees = items@.map_values(|item: serde_json::Value| json_tree(item));
    let mut out: Vec<String> = Vec::new();
    let mut i: usize = 0;
    while i < items.len()
        invariant
            i <= items.len(),
            out.len() == i,
            trees == items@.map_values(|item: serde_json::Value| json_tree(item)),
            choices_in(json_tree(*doc)) == choice_contents(trees),
            forall|j: int| 0 <= j < i ==> (#[trigger] choice_content(trees[j])) == Some(out@[j]@),
        decreases items.len() - i,
    {
        match decode_choice(&items[i]) {
            Some(content) => {
                out.push(content);
            },
            None => {
                assert(choice_content(trees[i as int]) is None);
                return Err(String::from_str("a choice has no `message` with a `content` string"));
            },
        }
        i = i + 1;
    }
    proof {
        assert(choice_contents(trees) is Ok);
        assert(texts(out@) =~= choice_contents(trees)->Ok_0);
    }
    Ok(out)
}

/// What the body of an answer describes, once it is parsed: the message
/// of an error, where it is a document that describes one.
pub open spec fn parsed_message(parsed: Result<Json, Seq<char>>) -> Option<Seq<char>> {
    match parsed {
        Ok(doc) => error_message_in(doc),
        Err(_) => None,
    }
}

/// What the body of an answer describes, once it is parsed: the contents
/// of the choices of a chat completion, or the reason why there are none,
/// which for a body that is no JSON document is the parser's.
pub open spec fn parsed_choices(parsed: Result<Json, Seq<char>>) -> Result<
    Seq<Seq<char>>,
    Seq<char>,
> {
    match parsed {
        Ok(doc) => choices_in(doc),
        Err(detail) => Err(detail),
    }
}

/// What an answer of the provider comes to, given what its body parses
/// to.
pub open spec fn document_outcome(
    code: u16,
    status: Seq<char>,
    body: Seq<char>,
    parsed: Result<Json, Seq<char>>,
) -> Result<Seq<char>, ErrorView> {
    response_outcome(code, status, body, parsed_message(parsed), parsed_choices(parsed))
}

/// The view of a parsed body, or of the parser's error in its place.
pub open spec fn parsed_view(parsed: Result<serde_json::Value, String>) -> Result<Json, Seq<char>> {
    match parsed {
        Ok(doc) => Ok(json_tree(doc)),
        Err(detail) => Err(detail@),
    }
}

/// Decides what an answer of the provider comes to, from its status, its
/// body and what the body was parsed to.
pub fn interpret_document(
    code: u16,
    status: &str,
    body: &str,
    parsed: Result<serde_json::Value, String>,
) -> (r: Result<String, SorryError>)
    ensures
        text_result_view(r) == document_outcome(code, status@, body@, parsed_view(parsed)),
{
    match parsed {
        Ok(doc) => {
            let api_message = decode_error_message(&doc);
            let choices = decode_choices(&doc);
            interpret_response(code, status, body, api_message, choices)
        },
        Err(detail) => interpret_response(code, status, body, None, Err(detail)),
    }
}

/// Decides what an answer of the provider comes to, from its status and
/// its body: the reply, or the error to report.
pub fn interpret_body(code: u16, status: &str, body: &str) -> (r: Result<String, SorryError>)
    ensures
        text_result_view(r) == document_outcome(code, status@, body@, json_document(body@)),
{
    let parsed = parse_document(body);
    interpret_document(code, status, body, parsed)
}

/// One message of a chat as a document: an object with the role and the
/// content.
pub open spec fn message_tree(role: Seq<char>, content: Seq<char>) -> Json {
    Json::Object(object_of(seq!["role"@, "content"@], seq![Json::Text(role), Json::Text(content)]))
}

/// The payload of a request as a document: the model, and two messages,
/// the system's and then the user's.
pub open spec fn request_tree(q: RequestView) -> Json {
    Json::Object(
        object_of(
            seq!["model"@, "messages"@],
            seq![
                Json::Text(q.model),
                Json::List(seq![message_tree("system"@, q.system), message_tree("user"@, q.user)]),
            ],
        ),
    )
}

fn message_value(role: &str, content: &str) -> (r: serde_json::Value)
    ensures
        json_tree(r) == message_tree(role@, content@),
{
    proof {
        reveal_strlit("role");
        reveal_strlit("content");
        assert("role"@.len() == 4 && "content"@.len() == 7);
    }
    object2("role", text_value(role), "content", text_value(content))
}

/// The payload of a request as a document.
pub fn request_to_value(request: &ChatRequest) -> (r: serde_json::Value)
    ensures
        json_tree(r) == request_tree(request@),
{
    let mut messages: Vec<serde_json::Value> = Vec::new();
    messages.push(message_value("system", request.system.as_str()));
    messages.push(message_value("user", request.user.as_str()));
    proof {
        reveal_strlit("model");
        reveal_strlit("messages");
        assert("model"@.len() == 5 && "messages"@.len() == 8);
        assert(json_trees(messages@) =~= seq![
            message_tree("system"@, request@.system),
            message_tree("user"@, request@.user),
        ]);
    }
    object2("model", text_value(request.model.as_str()), "messages", list_value(messages))
}

/// The payload of a request as the text that is sent.
pub fn request_body(request: &ChatRequest) -> (r: Result<String, SorryError>)
    ensures
        text_result_view(r) == written_text(json_pretty(request_tree(request@))),
{
    let doc = request_to_value(request);
    match pretty_text(&doc) {
        Ok(text) => Ok(text),
        Err(e) => Err(SorryError::Encode(e)),
    }
}

} // verus!
