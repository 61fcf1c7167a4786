use sorry::api::{
    build_user_message, decode_choices, decode_error_message, interpret_body, interpret_document,
    interpret_response, join_prompt, prepare_request, request_body, request_to_value,
};
use sorry::config::{Config, Mood, ProviderConfig, Providers};
use sorry::error::SorryError;

fn config_with(provider: Option<&str>, api_key: &str) -> Config {
    let providers = Providers::new().insert(
        "openai",
        ProviderConfig {
            api_key: api_key.to_string(),
            base_url: "https://api.openai.com/v1".to_string(),
            model: "gpt-4o".to_string(),
        },
    );
    Config { provider: provider.map(|p| p.to_string()), mood: Some(Mood::Bro), providers }
}

fn interpret(code: u16, status: &str, body: &str) -> Result<String, SorryError> {
    interpret_body(code, status, body)
}

fn document(text: &str) -> serde_json::Value {
    serde_json::from_str(text).unwrap()
}

#[test]
fn body_with_no_choices_is_an_empty_response_not_a_parse_failure() {
    let error = interpret(200, "200 OK", "{\"choices\":[]}").unwrap_err();
    assert!(matches!(error, SorryError::EmptyResponse));
    assert_eq!(error.message(), "No response from API");
}

#[test]
fn unauthorized_body_surfaces_the_message_of_the_api() {
    let error =
        interpret(401, "401 Unauthorized", "{\"error\":{\"message\":\"invalid key\"}}").unwrap_err();
    assert!(matches!(error, SorryError::Api(_)));
    assert_eq!(error.message(), "API error: invalid key");
}

#[test]
fn body_of_a_chat_completion_gives_the_first_content() {
    let body = "{\"id\":\"x\",\"choices\":[{\"index\":0,\"message\":{\"role\":\"assistant\",\"content\":\"git reflog\"}},{\"message\":{\"content\":\"other\"}}]}";
    assert_eq!(interpret(200, "200 OK", body).unwrap(), "git reflog");
}

#[test]
fn body_that_is_no_chat_completion_is_a_parse_failure() {
    let error = interpret(200, "200 OK", "{\"data\":[]}").unwrap_err();
    assert_eq!(
        error.message(),
        "Failed to parse API response: missing field `choices`. Body: {\"data\":[]}"
    );
    let error = interpret(200, "200 OK", "<html>").unwrap_err();
    assert!(matches!(error, SorryError::Parse { .. }));
    assert!(error.message().ends_with(". Body: <html>"));
}

#[test]
fn body_with_a_malformed_choice_is_a_parse_failure() {
    let body = "{\"choices\":[{\"message\":{\"content\":\"a\"}},{\"message\":{}}]}";
    let error = interpret(200, "200 OK", body).unwrap_err();
    assert!(matches!(error, SorryError::Parse { .. }));
    let error = interpret(200, "200 OK", "{\"choices\":{}}").unwrap_err();
    assert_eq!(
        error.message(),
        "Failed to parse API response: field `choices` is not a list. Body: {\"choices\":{}}"
    );
    let error = interpret(200, "200 OK", "[1, 2]").unwrap_err();
    assert!(matches!(error, SorryError::Parse { .. }));
}

#[test]
fn body_that_is_no_json_reports_the_parsers_words() {
    let error = interpret(200, "200 OK", "{\"choices\": [").unwrap_err();
    let expected = serde_json::from_str::<serde_json::Value>("{\"choices\": [").unwrap_err();
    assert_eq!(
        error.message(),
        format!("Failed to parse API response: {}. Body: {{\"choices\": [", expected)
    );
}

#[test]
fn failure_with_unusable_error_body_reports_the_status() {
    for body in ["{\"error\":\"denied\"}", "{\"error\":{\"message\":5}}", "{\"error\":{}}", "[]", ""] {
        let error = interpret(403, "403 Forbidden", body).unwrap_err();
        assert_eq!(
            error.message(),
            format!("API request failed with status 403 Forbidden: {}", body)
        );
    }
}

#[test]
fn error_message_is_read_from_the_document() {
    let doc = document("{\"error\":{\"message\":\"rate limited\",\"code\":429},\"x\":1}");
    assert_eq!(decode_error_message(&doc), Some("rate limited".to_string()));
    assert_eq!(decode_error_message(&document("{\"message\":\"m\"}")), None);
    assert_eq!(decode_error_message(&document("\"error\"")), None);
    assert_eq!(decode_error_message(&document("null")), None);
}

#[test]
fn choices_are_read_from_the_document() {
    let doc = document(
        "{\"choices\":[{\"message\":{\"content\":\"one\"}},{\"message\":{\"content\":\"two\"}}]}",
    );
    assert_eq!(decode_choices(&doc), Ok(vec!["one".to_string(), "two".to_string()]));
    assert_eq!(decode_choices(&document("{\"choices\":[]}")), Ok(vec![]));
    assert_eq!(
        decode_choices(&document("{}")),
        Err("missing field `choices`".to_string())
    );
    assert_eq!(
        decode_choices(&document("{\"choices\":\"none\"}")),
        Err("field `choices` is not a list".to_string())
    );
    assert_eq!(
        decode_choices(&document("{\"choices\":[{\"message\":{\"content\":null}}]}")),
        Err("a choice has no `message` with a `content` string".to_string())
    );
}

#[test]
fn parsed_document_decides_the_outcome() {
    let parsed = Ok(document("{\"choices\":[{\"message\":{\"content\":\"hi\"}}]}"));
    assert_eq!(interpret_document(200, "200 OK", "raw", parsed).unwrap(), "hi");
    let parsed = Err("EOF while parsing".to_string());
    assert_eq!(
        interpret_document(200, "200 OK", "raw", parsed).unwrap_err().message(),
        "Failed to parse API response: EOF while parsing. Body: raw"
    );
    let parsed = Err("EOF while parsing".to_string());
    assert_eq!(
        interpret_document(500, "500", "raw", parsed).unwrap_err().message(),
        "API request failed with status 500: raw"
    );
}

#[test]
fn failure_without_error_body_reports_the_status() {
    let error = interpret(500, "500 Internal Server Error", "oops").unwrap_err();
    assert_eq!(
        error.message(),
        "API request failed with status 500 Internal Server Error: oops"
    );
}

#[test]
fn empty_choices_are_an_empty_response() {
    let result = interpret_response(200, "200 OK", "{\"choices\":[]}", None, Ok(vec![]));
    match result {
        Err(SorryError::EmptyResponse) => {}
        other => panic!("unexpected: {:?}", other),
    }
    assert_eq!(SorryError::EmptyResponse.message(), "No response from API");
}

#[test]
fn error_body_with_message_is_an_api_error() {
    let result = interpret_response(
        401,
        "401 Unauthorized",
        "{\"error\":{\"message\":\"invalid key\"}}",
        Some("invalid key".to_string()),
        Err("missing field `choices`".to_string()),
    );
    let error = result.unwrap_err();
    assert_eq!(error.message(), "API error: invalid key");
    assert!(matches!(error, SorryError::Api(_)));
}

#[test]
fn error_body_without_message_reports_status_and_body() {
    let result = interpret_response(
        502,
        "502 Bad Gateway",
        "<html>bad gateway</html>",
        None,
        Err("expected value".to_string()),
    );
    assert_eq!(
        result.unwrap_err().message(),
        "API request failed with status 502 Bad Gateway: <html>bad gateway</html>"
    );
}

#[test]
fn first_choice_is_the_answer() {
    let result = interpret_response(
        200,
        "200 OK",
        "{}",
        None,
        Ok(vec!["run git reflog".to_string(), "second".to_string()]),
    );
    assert_eq!(result.unwrap(), "run git reflog");
}

#[test]
fn success_ignores_an_error_message() {
    let result =
        interpret_response(299, "299", "{}", Some("odd".to_string()), Ok(vec!["fine".to_string()]));
    assert_eq!(result.unwrap(), "fine");
}

#[test]
fn status_outside_success_range_fails() {
    for code in [100u16, 199, 300, 404, 500] {
        let result = interpret_response(code, "status", "body", None, Ok(vec!["x".to_string()]));
        assert!(matches!(result, Err(SorryError::Status { .. })));
    }
    for code in [200u16, 201, 204, 299] {
        let result = interpret_response(code, "status", "body", None, Ok(vec!["x".to_string()]));
        assert_eq!(result.unwrap(), "x");
    }
}

#[test]
fn unreadable_body_is_a_parse_failure_with_the_body() {
    let result = interpret_response(
        200,
        "200 OK",
        "not json",
        None,
        Err("expected ident at line 1 column 2".to_string()),
    );
    assert_eq!(
        result.unwrap_err().message(),
        "Failed to parse API response: expected ident at line 1 column 2. Body: not json"
    );
}

#[test]
fn request_needs_a_provider() {
    let error = prepare_request(&config_with(None, "sk"), "help", &[]).unwrap_err();
    assert!(matches!(error, SorryError::NoProvider));
    assert_eq!(
        error.message(),
        "No provider configured. Run 'sorry --config-openai' or 'sorry --config-groq' first."
    );
}

#[test]
fn request_needs_a_configured_provider() {
    let error = prepare_request(&config_with(Some("groq"), "sk"), "help", &[]).unwrap_err();
    assert!(matches!(error, SorryError::ProviderNotFound(_)));
    assert_eq!(error.message(), "Provider 'groq' not found in config.");
}

#[test]
fn request_needs_an_api_key() {
    let error = prepare_request(&config_with(Some("openai"), ""), "help", &[]).unwrap_err();
    assert!(matches!(error, SorryError::ApiKeyUnset(_)));
    assert_eq!(
        error.message(),
        "API key not set for provider 'openai'. Run 'sorry --config-openai' to configure."
    );
}

#[test]
fn request_is_addressed_to_the_provider() {
    let commands = vec!["git reset --hard".to_string()];
    let request =
        prepare_request(&config_with(Some("openai"), "sk-1"), "undo that", &commands).unwrap();
    assert_eq!(request.url, "https://api.openai.com/v1/chat/completions");
    assert_eq!(request.authorization, "Bearer sk-1");
    assert_eq!(request.model, "gpt-4o");
    assert_eq!(request.system, Mood::Bro.system_prompt());
    assert_eq!(
        request.user,
        "Here are my last terminal commands:\n```\n1. git reset --hard\n```\n\nMy question/problem: undo that"
    );
}

#[test]
fn request_uses_the_default_mood_when_none_is_stored() {
    let mut config = config_with(Some("openai"), "sk-1");
    config.mood = None;
    let request = prepare_request(&config, "x", &[]).unwrap();
    assert_eq!(request.system, Mood::Princess.system_prompt());
    assert_eq!(request.user, "x");
}

#[test]
fn user_message_without_history_is_the_question() {
    assert_eq!(build_user_message("what happened", &[]), "what happened");
}

#[test]
fn user_message_with_history_labels_the_question() {
    let commands = vec!["ls".to_string(), "rm -rf build".to_string()];
    assert_eq!(
        build_user_message("oops", &commands),
        "Here are my last terminal commands:\n```\n1. ls\n2. rm -rf build\n```\n\nMy question/problem: oops"
    );
}

#[test]
fn prompt_is_the_words_joined_by_spaces() {
    let words = vec!["I".to_string(), "deleted".to_string(), "main".to_string()];
    assert_eq!(join_prompt(&words).unwrap(), "I deleted main");
    assert_eq!(join_prompt(&vec!["one".to_string()]).unwrap(), "one");
}

#[test]
fn no_words_give_no_prompt() {
    let error = join_prompt(&vec![]).unwrap_err();
    assert!(matches!(error, SorryError::EmptyPrompt));
    assert_eq!(error.message(), "Usage: sorry <your message about what went wrong>");
}

#[test]
fn request_body_holds_the_model_and_two_messages() {
    let commands = vec!["ls".to_string()];
    let request = prepare_request(&config_with(Some("openai"), "sk-1"), "why \"this\"?", &commands)
        .unwrap();
    let body = request_body(&request).unwrap();
    let value: serde_json::Value = serde_json::from_str(&body).unwrap();
    assert_eq!(value, request_to_value(&request));
    assert_eq!(value.as_object().unwrap().len(), 2);
    assert_eq!(value.get("model").unwrap().as_str(), Some("gpt-4o"));
    let messages = value.get("messages").unwrap().as_array().unwrap();
    assert_eq!(messages.len(), 2);
    assert_eq!(messages[0].get("role").unwrap().as_str(), Some("system"));
    assert_eq!(messages[0].get("content").unwrap().as_str(), Some(request.system.as_str()));
    assert_eq!(messages[1].get("role").unwrap().as_str(), Some("user"));
    assert_eq!(messages[1].get("content").unwrap().as_str(), Some(request.user.as_str()));
    assert_eq!(messages[0].as_object().unwrap().len(), 2);
}

#[test]
fn remaining_errors_have_their_messages() {
    assert_eq!(SorryError::Encode("key must be a string".to_string()).message(), "key must be a string");
    assert_eq!(SorryError::EmptyApiKey.message(), "API key cannot be empty.");
    assert_eq!(SorryError::Network("connection refused".to_string()).message(), "connection refused");
}
