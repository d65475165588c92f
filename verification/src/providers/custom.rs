//! The OpenAI-compatible backend: its connection descriptor and its wire
//! types.

use vstd::prelude::*;
use crate::providers::ollama::OllamaMessage;
use crate::providers::types::{
    ChatCompletionRequestCommon, ChatCompletionResponseCommon, ResponseFrame, Usage,
};
use crate::json::{
    bytes_of, document_of, holds_object, is_object, json_member, member, read_text, text_at,
    JsonMember,
};
use crate::providers::types::spec_read_usage;
use crate::text::joined;

verus! {

/// How to reach an OpenAI-compatible backend.
#[derive(Clone, Debug, PartialEq, Eq)]
pub struct CustomConfig {
    pub api_base: String,
    pub api_key: Option<String>,
}

/// The stored configuration of an OpenAI-compatible backend, as parsed: the
/// model to target, the address and the credential.
#[derive(Clone, Debug, PartialEq, Eq)]
pub struct RawCustomConfig {
    pub model: Option<String>,
    pub api_base: Option<String>,
    pub api_key: Option<String>,
}

impl CustomConfig {
    /// The address of the chat endpoint.
    pub open spec fn spec_chat_url(self) -> Seq<char> {
        self.api_base@ + "/v1/chat/completions"@
    }

    /// The address to post chat requests to.
    pub fn chat_url(&self) -> (url: String)
        ensures
            url@ == self.spec_chat_url(),
    {
        joined(self.api_base.as_str(), "/v1/chat/completions")
    }
}

/// A chat request to an OpenAI-compatible backend.
#[derive(Clone, Debug, PartialEq)]
pub struct CustomChatCompletionRequest<N> {
    pub common: ChatCompletionRequestCommon<N>,
    pub messages: Vec<OllamaMessage>,
    pub user: Option<String>,
}

impl<N> CustomChatCompletionRequest<N> {
    /// The conversation's options as they can be read back from the
    /// request. `stream` and `reasoning_effort` do not go over the wire as
    /// options and read back as not set.
    pub open spec fn spec_options(self) -> crate::entities::OpenAIOptions<N> {
        crate::entities::OpenAIOptions {
            stream: None,
            temperature: self.common.temperature,
            top_p: self.common.top_p,
            max_tokens: self.common.max_tokens,
            presence_penalty: self.common.presence_penalty,
            frequency_penalty: self.common.frequency_penalty,
            user: self.user,
            reasoning_effort: None,
        }
    }
}

/// The body of a message or of a delta.
#[derive(Clone, Debug, PartialEq, Eq)]
pub struct CustomContent {
    pub content: Option<String>,
}

/// One choice of a response: a whole message in a buffered response, a
/// delta in a streamed one.
#[derive(Clone, Debug, PartialEq, Eq)]
pub struct CustomChoice {
    pub message: Option<CustomContent>,
    pub delta: Option<CustomContent>,
    pub finish_reason: Option<String>,
}

impl CustomChoice {
    /// The content of the choice: that of the message, or else of the delta.
    pub open spec fn carried(self) -> Option<String> {
        match self.message {
            Some(body) => body.content,
            None => match self.delta {
                Some(body) => body.content,
                None => None,
            },
        }
    }

    fn into_content(self) -> (content: Option<String>)
        ensures
            content == self.carried(),
    {
        match self.message {
            Some(body) => body.content,
            None => match self.delta {
                Some(body) => body.content,
                None => None,
            },
        }
    }
}

/// The frame of a usage and a first choice: the content of the choice and
/// the prompt and completion counts of the usage.
pub open spec fn frame_of(usage: Option<Usage>, first: Option<CustomChoice>) -> ResponseFrame {
    ResponseFrame {
        content_delta: match first {
            Some(choice) => choice.carried(),
            None => None,
        },
        prompt_tokens: match usage {
            Some(usage) => Some(usage.prompt_tokens),
            None => None,
        },
        completion_tokens: match usage {
            Some(usage) => Some(usage.completion_tokens),
            None => None,
        },
        is_terminal: false,
    }
}

/// A chat response of an OpenAI-compatible backend: a whole buffered
/// response or one event of a stream.
#[derive(Clone, Debug, PartialEq, Eq)]
pub struct CustomChatCompletionResponse {
    pub common: ChatCompletionResponseCommon,
    pub choices: Vec<CustomChoice>,
}

impl CustomChatCompletionResponse {
    /// The response as a frame: the content of the first choice and the
    /// token counts as reported. It is never terminal: a stream of this
    /// backend ends with a sentinel of its own.
    pub open spec fn spec_frame(self) -> ResponseFrame {
        frame_of(
            self.common.usage,
            if self.choices@.len() > 0 {
                Some(self.choices@[0])
            } else {
                None
            },
        )
    }

    /// The response as a frame: see
    /// [`CustomChatCompletionResponse::spec_frame`].
    pub fn into_frame(self) -> (frame: ResponseFrame)
        ensures
            frame == self.spec_frame(),
    {
        let (prompt_tokens, completion_tokens) = match &self.common.usage {
            Some(usage) => (Some(usage.prompt_tokens), Some(usage.completion_tokens)),
            None => (None, None),
        };
        let mut choices = self.choices;
        let content_delta = if choices.len() > 0 {
            choices.remove(0).into_content()
        } else {
            None
        };
        ResponseFrame { content_delta, prompt_tokens, completion_tokens, is_terminal: false }
    }
}

impl RawCustomConfig {
    /// The configuration that a stored payload holds. The payload must be a
    /// JSON object; `model`, `api_base` and `api_key` may each be left out
    /// or be `null`, and must else be strings.
    pub open spec fn spec_read(document: Seq<u8>) -> Option<Self> {
        if !is_object(document) {
            None
        } else {
            match (
                text_at(document, "/model"@),
                text_at(document, "/api_base"@),
                text_at(document, "/api_key"@),
            ) {
                (Some(model), Some(api_base), Some(api_key)) => Some(
                    RawCustomConfig { model, api_base, api_key },
                ),
                _ => None,
            }
        }
    }

    /// Reads a stored payload: see [`RawCustomConfig::spec_read`].
    pub fn read(payload: &str) -> (raw: Option<Self>)
        ensures
            raw == Self::spec_read(bytes_of(payload@)),
    {
        let document = document_of(payload);
        if !holds_object(document) {
            return None;
        }
        let model = read_text(document, "/model");
        let api_base = read_text(document, "/api_base");
        let api_key = read_text(document, "/api_key");
        match (model, api_base, api_key) {
            (Some(model), Some(api_base), Some(api_key)) => Some(
                RawCustomConfig { model, api_base, api_key },
            ),
            _ => None,
        }
    }
}

/// The body that stands at one place of a payload: none where the place is
/// left out or `null`; else it must be an object, whose `content`, at the
/// second place, may be set to a string.
pub open spec fn spec_read_body(
    document: Seq<u8>,
    place: Seq<char>,
    content: Seq<char>,
) -> Option<Option<CustomContent>> {
    match json_member(document, place) {
        Some(member) => if member.is_unset() {
            Some(None)
        } else if member is Object {
            match text_at(document, content) {
                Some(content) => Some(Some(CustomContent { content })),
                None => None,
            }
        } else {
            None
        },
        None => None,
    }
}

/// The first choice that a response payload holds: none where `choices` is
/// left out, `null` or an empty array; else `choices` must be an array
/// whose first entry is an object with bodies `message` and `delta` as
/// [`spec_read_body`] says, and a `finish_reason` that may be set to a
/// string.
pub open spec fn spec_read_first_choice(document: Seq<u8>) -> Option<Option<CustomChoice>> {
    match json_member(document, "/choices"@) {
        Some(JsonMember::Absent) => Some(None),
        Some(JsonMember::Null) => Some(None),
        Some(JsonMember::Array(n)) => if n == 0 {
            Some(None)
        } else if json_member(document, "/choices/0"@) != Some(JsonMember::Object) {
            None
        } else {
            match (
                spec_read_body(document, "/choices/0/message"@, "/choices/0/message/content"@),
                spec_read_body(document, "/choices/0/delta"@, "/choices/0/delta/content"@),
                text_at(document, "/choices/0/finish_reason"@),
            ) {
                (Some(message), Some(delta), Some(finish_reason)) => Some(
                    Some(CustomChoice { message, delta, finish_reason }),
                ),
                _ => None,
            }
        },
        _ => None,
    }
}

/// The parts of the response that a payload holds: its usage and its first
/// choice. The payload must be a JSON object; the usage is read as
/// [`spec_read_usage`] says and the choice as [`spec_read_first_choice`]
/// says. Further choices and other members are passed over.
pub open spec fn spec_read_parts(document: Seq<u8>) -> Option<(Option<Usage>, Option<CustomChoice>)> {
    if !is_object(document) {
        None
    } else {
        match (spec_read_usage(document), spec_read_first_choice(document)) {
            (Some(usage), Some(first)) => Some((usage, first)),
            _ => None,
        }
    }
}

fn read_body(document: &[u8], place: &str, content: &str) -> (body: Option<Option<CustomContent>>)
    ensures
        body == spec_read_body(document@, place@, content@),
{
    match member(document, place) {
        Some(JsonMember::Absent) => Some(None),
        Some(JsonMember::Null) => Some(None),
        Some(JsonMember::Object) => match read_text(document, content) {
            Some(content) => Some(Some(CustomContent { content })),
            None => None,
        },
        _ => None,
    }
}

fn read_first_choice(document: &[u8]) -> (first: Option<Option<CustomChoice>>)
    ensures
        first == spec_read_first_choice(document@),
{
    match member(document, "/choices") {
        Some(JsonMember::Absent) => Some(None),
        Some(JsonMember::Null) => Some(None),
        Some(JsonMember::Array(n)) => {
            if n == 0 {
                return Some(None);
            }
            match member(document, "/choices/0") {
                Some(JsonMember::Object) => {},
                _ => {
                    return None;
                },
            }
            let message = read_body(
                document,
                "/choices/0/message",
                "/choices/0/message/content",
            );
            let delta = read_body(document, "/choices/0/delta", "/choices/0/delta/content");
            let finish_reason = read_text(document, "/choices/0/finish_reason");
            match (message, delta, finish_reason) {
                (Some(message), Some(delta), Some(finish_reason)) => Some(
                    Some(CustomChoice { message, delta, finish_reason }),
                ),
                _ => None,
            }
        },
        _ => None,
    }
}

impl CustomChatCompletionResponse {
    /// Reads a response payload: its usage and its first choice, as
    /// [`spec_read_parts`] says. The response has no choice or that one.
    pub fn read(document: &[u8]) -> (response: Option<Self>)
        ensures
            match spec_read_parts(document@) {
                Some((usage, first)) => response matches Some(found) && found.common.usage
                    == usage && found.choices@ == (match first {
                    Some(choice) => seq![choice],
                    None => Seq::empty(),
                }) && found.spec_frame() == frame_of(usage, first),
                None => response is None,
            },
    {
        if !holds_object(document) {
            return None;
        }
        let usage = Usage::read(document);
        let first = read_first_choice(document);
        match (usage, first) {
            (Some(usage), Some(first)) => {
                let mut choices: Vec<CustomChoice> = Vec::new();
                match first {
                    Some(choice) => {
                        choices.push(choice);
                        assert(choices@ =~= seq![choice]);
                    },
                    None => {},
                }
                Some(
                    CustomChatCompletionResponse {
                        common: ChatCompletionResponseCommon { usage },
                        choices,
                    },
                )
            },
            _ => None,
        }
    }
}

} // verus!
