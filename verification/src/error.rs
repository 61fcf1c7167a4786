use vstd::prelude::*;
use vstd::string::StringExecFns;

verus! {

/// Why an invocation ends without an answer.
#[derive(Debug)]
pub enum SorryError {
    /// No provider is selected.
    NoProvider,
    /// The selected provider, named here, is not among the configured ones.
    ProviderNotFound(String),
    /// The selected provider, named here, has no API key.
    ApiKeyUnset(String),
    /// The request could not be sent or its answer not be read.
    Network(String),
    /// The provider refused the request with this message.
    Api(String),
    /// The provider refused the request and gave no message that could be
    /// read.
    Status { status: String, body: String },
    /// The answer is not a chat completion.
    Parse { detail: String, body: String },
    /// The answer holds no choice.
    EmptyResponse,
    /// There is no prompt to send.
    EmptyPrompt,
    /// No API key was entered.
    EmptyApiKey,
    /// A document could not be written as text.
    Encode(String),
}

/// A `SorryError` with its texts as sequences of characters.
pub enum ErrorView {
    NoProvider,
    ProviderNotFound(Seq<char>),
    ApiKeyUnset(Seq<char>),
    Network(Seq<char>),
    Api(Seq<char>),
    Status { status: Seq<char>, body: Seq<char> },
    Parse { detail: Seq<char>, body: Seq<char> },
    EmptyResponse,
    EmptyPrompt,
    EmptyApiKey,
    Encode(Seq<char>),
}

impl View for SorryError {
    type V = ErrorView;

    open spec fn view(&self) -> ErrorView {
        match self {
            SorryError::NoProvider => ErrorView::NoProvider,
            SorryError::ProviderNotFound(p) => ErrorView::ProviderNotFound(p@),
            SorryError::ApiKeyUnset(p) => ErrorView::ApiKeyUnset(p@),
            SorryError::Network(m) => ErrorView::Network(m@),
            SorryError::Api(m) => ErrorView::Api(m@),
            SorryError::Status { status, body } => ErrorView::Status {
                status: status@,
                body: body@,
            },
            SorryError::Parse { detail, body } => ErrorView::Parse { detail: detail@, body: body@ },
            SorryError::EmptyResponse => ErrorView::EmptyResponse,
            SorryError::EmptyPrompt => ErrorView::EmptyPrompt,
            SorryError::EmptyApiKey => ErrorView::EmptyApiKey,
            SorryError::Encode(m) => ErrorView::Encode(m@),
        }
    }
}

/// The text in which an error is reported to the user.
pub open spec fn message_text(e: ErrorView) -> Seq<char> {
    match e {
        ErrorView::NoProvider => "No provider configured. Run 'sorry --config-openai' or 'sorry --config-groq' first."@,
        ErrorView::ProviderNotFound(p) => "Provider '"@ + p + "' not found in config."@,
        ErrorView::ApiKeyUnset(p) => "API key not set for provider '"@ + p
            + "'. Run 'sorry --config-"@ + p + "' to configure."@,
        ErrorView::Network(m) => m,
        ErrorView::Api(m) => "API error: "@ + m,
        ErrorView::Status { status, body } => "API request failed with status "@ + status + ": "@
            + body,
        ErrorView::Parse { detail, body } => "Failed to parse API response: "@ + detail
            + ". Body: "@ + body,
        ErrorView::EmptyResponse => "No response from API"@,
        ErrorView::EmptyPrompt => "Usage: sorry <your message about what went wrong>"@,
        ErrorView::EmptyApiKey => "API key cannot be empty."@,
        ErrorView::Encode(m) => m,
    }
}

/// The view of a text, or of the error in its place.
pub open spec fn text_result_view(r: Result<String, SorryError>) -> Result<Seq<char>, ErrorView> {
    match r {
        Ok(s) => Ok(s@),
        Err(e) => Err(e@),
    }
}

/// What writing a document comes to: its text, or the error to report.
pub open spec fn written_text(written: Result<Seq<char>, Seq<char>>) -> Result<
    Seq<char>,
    ErrorView,
> {
    match written {
        Ok(text) => Ok(text),
        Err(e) => Err(ErrorView::Encode(e)),
    }
}

impl SorryError {
    /// The text in which the error is reported to the user.
    pub fn message(&self) -> (r: String)
        ensures
            r@ == message_text(self@),
    {
        match self {
            SorryError::NoProvider => String::from_str(
                "No provider configured. Run 'sorry --config-openai' or 'sorry --config-groq' first.",
            ),
            SorryError::ProviderNotFound(p) => {
                let mut out = String::from_str("Provider '");
                out.append(p.as_str());
                out.append("' not found in config.");
                out
            },
            SorryError::ApiKeyUnset(p) => {
                let mut out = String::from_str("API key not set for provider '");
                out.append(p.as_str());
                out.append("'. Run 'sorry --config-");
                out.append(p.as_str());
                out.append("' to configure.");
                out
            },
            SorryError::Network(m) => m.clone(),
            SorryError::Api(m) => {
                let mut out = String::from_str("API error: ");
                out.append(m.as_str());
                out
            },
            SorryError::Status { status, body } => {
                let mut out = String::from_str("API request failed with status ");
                out.append(status.as_str());
                out.append(": ");
                out.append(body.as_str());
                out
            },
            SorryError::Parse { detail, body } => {
                let mut out = String::from_str("Failed to parse API response: ");
                out.append(detail.as_str());
                out.append(". Body: ");
                out.append(body.as_str());
                out
            },
            SorryError::EmptyResponse => String::from_str("No response from API"),
            SorryError::EmptyPrompt => String::from_str(
                "Usage: sorry <your message about what went wrong>",
            ),
            SorryError::EmptyApiKey => String::from_str("API key cannot be empty."),
            SorryError::Encode(m) => m.clone(),
        }
    }
}

} // verus!
