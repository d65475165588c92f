//! The local chat backend: its connection descriptor and its wire types.

use vstd::prelude::*;
use vstd::string::StringExecFns;
use crate::entities::MessageDTO;
use crate::json::{
    bytes_of, count_at, document_of, holds_object, is_object, json_member, member, read_count,
    read_text, text_at, JsonMember,
};
use crate::log_utils::{spec_warn, warn};
use crate::providers::types::{
    spec_read_usage, ChatCompletionRequestCommon, ChatCompletionResponseCommon, ResponseFrame,
    Usage,
};
use crate::text::{decimal, decimal_of, joined, str_eq};

verus! {

/// The address of a local chat backend where none is configured.
pub open spec fn spec_default_api_base() -> Seq<char> {
    "http://localhost:11434"@
}

/// How to reach a local chat backend.
#[derive(Clone, Debug, PartialEq, Eq)]
pub struct OllamaConfig {
    pub api_base: String,
}

impl Default for OllamaConfig {
    /// The backend on this machine.
    fn default() -> (config: Self)
        ensures
            config.api_base@ == spec_default_api_base(),
    {
        OllamaConfig { api_base: String::from_str("http://localhost:11434") }
    }
}

/// The stored configuration of a local chat backend, as parsed: the model to
/// target and the address, both optional.
#[derive(Clone, Debug, PartialEq, Eq)]
pub struct RawOllamaConfig {
    pub model: Option<String>,
    pub api_base: Option<String>,
}

impl RawOllamaConfig {
    /// The address that the configuration stands for: the stored one, or the
    /// backend on this machine.
    pub open spec fn spec_api_base(self) -> Seq<char> {
        match self.api_base {
            Some(base) => base@,
            None => spec_default_api_base(),
        }
    }
}

impl vstd::std_specs::convert::FromSpecImpl<RawOllamaConfig> for OllamaConfig {
    /// The conversion is not described by a value: where no address is
    /// stored the result holds a new string. `from` says itself which
    /// characters the address has.
    open spec fn obeys_from_spec() -> bool {
        false
    }

    open spec fn from_spec(raw: RawOllamaConfig) -> Self {
        arbitrary()
    }
}

impl From<RawOllamaConfig> for OllamaConfig {
    /// The connection descriptor of a stored configuration: its address, or
    /// that of the backend on this machine where it has none.
    fn from(raw: RawOllamaConfig) -> (config: Self)
        ensures
            config.api_base@ == raw.spec_api_base(),
    {
        match raw.api_base {
            Some(base) => OllamaConfig { api_base: base },
            None => OllamaConfig::default(),
        }
    }
}

impl OllamaConfig {
    /// The address of the chat endpoint.
    pub open spec fn spec_chat_url(self) -> Seq<char> {
        self.api_base@ + "/api/chat"@
    }

    /// The address of the model catalog.
    pub open spec fn spec_tags_url(self) -> Seq<char> {
        self.api_base@ + "/api/tags"@
    }

    /// The address to post chat requests to.
    pub fn chat_url(&self) -> (url: String)
        ensures
            url@ == self.spec_chat_url(),
    {
        joined(self.api_base.as_str(), "/api/chat")
    }

    /// The address to get the model catalog from.
    pub fn tags_url(&self) -> (url: String)
        ensures
            url@ == self.spec_tags_url(),
    {
        joined(self.api_base.as_str(), "/api/tags")
    }
}

/// A message in the wire vocabulary: the role, with the content.
#[derive(Clone, Debug, PartialEq, Eq)]
pub enum OllamaMessage {
    System(String),
    User(String),
    Assistant(String),
}

impl OllamaMessage {
    /// The content of the message.
    pub open spec fn content(self) -> Seq<char> {
        match self {
            OllamaMessage::System(c) => c@,
            OllamaMessage::User(c) => c@,
            OllamaMessage::Assistant(c) => c@,
        }
    }

    /// The role of the message as the wire names it.
    pub open spec fn role(self) -> Seq<char> {
        match self {
            OllamaMessage::System(_) => "system"@,
            OllamaMessage::User(_) => "user"@,
            OllamaMessage::Assistant(_) => "assistant"@,
        }
    }

    /// The wire message of a stored message. A role that is none of
    /// `system`, `user`, `assistant` counts as `user`.
    pub open spec fn of(message: MessageDTO) -> OllamaMessage {
        if message.role@ == "system"@ {
            OllamaMessage::System(message.content)
        } else if message.role@ == "assistant"@ {
            OllamaMessage::Assistant(message.content)
        } else {
            OllamaMessage::User(message.content)
        }
    }

    /// The role of the message as the wire names it.
    pub fn role_name(&self) -> (name: &'static str)
        ensures
            name@ == self.role(),
    {
        match self {
            OllamaMessage::System(_) => "system",
            OllamaMessage::User(_) => "user",
            OllamaMessage::Assistant(_) => "assistant",
        }
    }
}

impl vstd::std_specs::convert::FromSpecImpl<MessageDTO> for OllamaMessage {
    open spec fn obeys_from_spec() -> bool {
        true
    }

    open spec fn from_spec(message: MessageDTO) -> Self {
        OllamaMessage::of(message)
    }
}

impl From<MessageDTO> for OllamaMessage {
    fn from(message: MessageDTO) -> (wire: Self)
        ensures
            wire == OllamaMessage::of(message),
            wire.content() == message.content@,
    {
        if str_eq(message.role.as_str(), "system") {
            OllamaMessage::System(message.content)
        } else if str_eq(message.role.as_str(), "assistant") {
            OllamaMessage::Assistant(message.content)
        } else {
            OllamaMessage::User(message.content)
        }
    }
}

/// The generation options as the local chat backend takes them.
#[derive(Clone, Debug, PartialEq)]
pub struct OllamaOptions<N> {
    pub temperature: Option<N>,
    pub top_p: Option<N>,
    pub top_k: Option<N>,
    pub stream: Option<bool>,
}

impl<N> OllamaOptions<N> {
    /// The wire options of a conversation's options: every field as it was
    /// set.
    pub open spec fn of(options: crate::entities::OllamaOptions<N>) -> OllamaOptions<N> {
        OllamaOptions {
            temperature: options.temperature,
            top_p: options.top_p,
            top_k: options.top_k,
            stream: options.stream,
        }
    }

    /// The conversation's options that these wire options came from: the
    /// inverse of [`OllamaOptions::of`].
    pub open spec fn recovered(self) -> crate::entities::OllamaOptions<N> {
        crate::entities::OllamaOptions {
            stream: self.stream,
            temperature: self.temperature,
            top_p: self.top_p,
            top_k: self.top_k,
        }
    }
}

impl<N> vstd::std_specs::convert::FromSpecImpl<crate::entities::OllamaOptions<N>> for OllamaOptions<N> {
    open spec fn obeys_from_spec() -> bool {
        true
    }

    open spec fn from_spec(options: crate::entities::OllamaOptions<N>) -> Self {
        OllamaOptions::of(options)
    }
}

impl<N> From<crate::entities::OllamaOptions<N>> for OllamaOptions<N> {
    fn from(options: crate::entities::OllamaOptions<N>) -> (wire: Self)
        ensures
            wire == OllamaOptions::of(options),
    {
        OllamaOptions {
            temperature: options.temperature,
            top_p: options.top_p,
            top_k: options.top_k,
            stream: options.stream,
        }
    }
}

/// A chat request to the local chat backend.
#[derive(Clone, Debug, PartialEq)]
pub struct OllamaChatCompletionRequest<N> {
    pub common: ChatCompletionRequestCommon<N>,
    pub messages: Vec<OllamaMessage>,
    pub options: Option<OllamaOptions<N>>,
}

impl<N> OllamaChatCompletionRequest<N> {
    /// The conversation's options as they can be read back from the
    /// request.
    pub open spec fn spec_options(self) -> Option<crate::entities::OllamaOptions<N>> {
        match self.options {
            Some(options) => Some(options.recovered()),
            None => None,
        }
    }
}

/// Reading the options back from the wire gives every field as it was set.
pub proof fn lemma_options_round_trip<N>(options: crate::entities::OllamaOptions<N>)
    ensures
        OllamaOptions::of(options).recovered() == options,
{
}

/// A chat response of the local chat backend: a whole buffered response or
/// one line of a stream.
#[derive(Clone, Debug, PartialEq, Eq)]
pub struct OllamaChatCompletionResponse {
    pub common: ChatCompletionResponseCommon,
    pub message: Option<OllamaMessage>,
    pub prompt_eval_count: Option<u32>,
    pub eval_count: Option<u32>,
}

impl OllamaChatCompletionResponse {
    /// What is worth a warning about the response. A message that is not
    /// the assistant's is; a buffered response without any message is too,
    /// whereas in a stream such a line is the regular end.
    pub open spec fn spec_anomaly(self, streamed: bool) -> Option<Seq<char>> {
        match self.message {
            Some(OllamaMessage::Assistant(_)) => None,
            Some(_) => Some(
                if streamed {
                    "OllamaChat::create_stream returned a non-assistant message"@
                } else {
                    "OllamaChat::create returned a non-assistant message"@
                },
            ),
            None => if streamed {
                None
            } else {
                Some("OllamaChat::create returned an empty message"@)
            },
        }
    }

    /// The log line for what is worth a warning about the response, if
    /// anything; `tag` names the operation.
    pub fn anomaly(&self, tag: &str, streamed: bool) -> (line: Option<String>)
        ensures
            match self.spec_anomaly(streamed) {
                Some(msg) => line matches Some(l) && l@ == spec_warn(tag@, msg),
                None => line is None,
            },
    {
        match &self.message {
            Some(OllamaMessage::Assistant(_)) => None,
            Some(_) => if streamed {
                Some(warn(tag, "OllamaChat::create_stream returned a non-assistant message"))
            } else {
                Some(warn(tag, "OllamaChat::create returned a non-assistant message"))
            },
            None => if streamed {
                None
            } else {
                Some(warn(tag, "OllamaChat::create returned an empty message"))
            },
        }
    }

    /// The response as a frame: the assistant's content, the token counts as
    /// reported, and terminal where the response has no message at all.
    pub open spec fn spec_frame(self) -> ResponseFrame {
        ResponseFrame {
            content_delta: match self.message {
                Some(OllamaMessage::Assistant(content)) => Some(content),
                _ => None,
            },
            prompt_tokens: self.prompt_eval_count,
            completion_tokens: self.eval_count,
            is_terminal: self.message is None,
        }
    }

    /// The response as a frame: see [`OllamaChatCompletionResponse::spec_frame`].
    pub fn into_frame(self) -> (frame: ResponseFrame)
        ensures
            frame == self.spec_frame(),
    {
        let is_terminal = self.message.is_none();
        let content_delta = match self.message {
            Some(OllamaMessage::Assistant(content)) => Some(content),
            _ => None,
        };
        ResponseFrame {
            content_delta,
            prompt_tokens: self.prompt_eval_count,
            completion_tokens: self.eval_count,
            is_terminal,
        }
    }
}

/// One entry of the model catalog.
#[derive(Clone, Debug, PartialEq, Eq)]
pub struct OllamaModel {
    pub name: String,
    pub modified_at: String,
    pub size: u64,
}

/// The model catalog of a local chat backend.
#[derive(Clone, Debug, PartialEq, Eq)]
pub struct OllamaListModelsResponse {
    pub models: Vec<OllamaModel>,
}

impl RawOllamaConfig {
    /// The configuration that a stored payload holds. The payload must be a
    /// JSON object; `model` and `api_base` may each be left out or be
    /// `null`, and must else be strings.
    pub open spec fn spec_read(document: Seq<u8>) -> Option<Self> {
        if !is_object(document) {
            None
        } else {
            match (text_at(document, "/model"@), text_at(document, "/api_base"@)) {
                (Some(model), Some(api_base)) => Some(RawOllamaConfig { model, api_base }),
                _ => None,
            }
        }
    }

    /// Reads a stored payload: see [`RawOllamaConfig::spec_read`].
    pub fn read(payload: &str) -> (raw: Option<Self>)
        ensures
            raw == Self::spec_read(bytes_of(payload@)),
    {
        let document = document_of(payload);
        if !holds_object(document) {
            return None;
        }
        let model = read_text(document, "/model");
        let api_base = read_text(document, "/api_base");
        match (model, api_base) {
            (Some(model), Some(api_base)) => Some(RawOllamaConfig { model, api_base }),
            _ => None,
        }
    }
}

impl OllamaMessage {
    /// The wire message of a role as the wire names it; none for a name
    /// that the wire does not know.
    pub open spec fn spec_named(role: Seq<char>, content: String) -> Option<OllamaMessage> {
        if role == "system"@ {
            Some(OllamaMessage::System(content))
        } else if role == "user"@ {
            Some(OllamaMessage::User(content))
        } else if role == "assistant"@ {
            Some(OllamaMessage::Assistant(content))
        } else {
            None
        }
    }

    /// See [`OllamaMessage::spec_named`].
    pub fn named(role: &str, content: String) -> (message: Option<OllamaMessage>)
        ensures
            message == OllamaMessage::spec_named(role@, content),
    {
        if str_eq(role, "system") {
            Some(OllamaMessage::System(content))
        } else if str_eq(role, "user") {
            Some(OllamaMessage::User(content))
        } else if str_eq(role, "assistant") {
            Some(OllamaMessage::Assistant(content))
        } else {
            None
        }
    }
}

/// The message that a response payload holds: none where the member
/// `message` is left out or `null`; else it must be an object with a string
/// `role` that the wire knows and a string `content`.
pub open spec fn spec_read_message(document: Seq<u8>) -> Option<Option<OllamaMessage>> {
    match json_member(document, "/message"@) {
        Some(member) => if member.is_unset() {
            Some(None)
        } else if member is Object {
            match (text_at(document, "/message/role"@), text_at(document, "/message/content"@)) {
                (Some(Some(role)), Some(Some(content))) => match OllamaMessage::spec_named(
                    role@,
                    content,
                ) {
                    Some(message) => Some(Some(message)),
                    None => None,
                },
                _ => None,
            }
        } else {
            None
        },
        None => None,
    }
}

fn read_message(document: &[u8]) -> (message: Option<Option<OllamaMessage>>)
    ensures
        message == spec_read_message(document@),
{
    match member(document, "/message") {
        Some(JsonMember::Absent) => Some(None),
        Some(JsonMember::Null) => Some(None),
        Some(JsonMember::Object) => {
            let role = read_text(document, "/message/role");
            let content = read_text(document, "/message/content");
            match (role, content) {
                (Some(Some(role)), Some(Some(content))) => {
                    match OllamaMessage::named(role.as_str(), content) {
                        Some(message) => Some(Some(message)),
                        None => None,
                    }
                },
                _ => None,
            }
        },
        _ => None,
    }
}

impl OllamaChatCompletionResponse {
    /// The response that a payload holds. The payload must be a JSON
    /// object. Its message is read as [`spec_read_message`] says and its
    /// usage as [`spec_read_usage`] says; `prompt_eval_count` and
    /// `eval_count` may each be left out or be `null`, and must else be
    /// integers from 0 to 2^32 - 1. Other members are passed over.
    pub open spec fn spec_read(document: Seq<u8>) -> Option<Self> {
        if !is_object(document) {
            None
        } else {
            match (
                spec_read_usage(document),
                spec_read_message(document),
                count_at(document, "/prompt_eval_count"@),
                count_at(document, "/eval_count"@),
            ) {
                (Some(usage), Some(message), Some(prompt_eval_count), Some(eval_count)) => Some(
                    OllamaChatCompletionResponse {
                        common: ChatCompletionResponseCommon { usage },
                        message,
                        prompt_eval_count,
                        eval_count,
                    },
                ),
                _ => None,
            }
        }
    }

    /// Reads a response payload: see
    /// [`OllamaChatCompletionResponse::spec_read`].
    pub fn read(document: &[u8]) -> (response: Option<Self>)
        ensures
            response == Self::spec_read(document@),
    {
        if !holds_object(document) {
            return None;
        }
        let usage = Usage::read(document);
        let message = read_message(document);
        let prompt_eval_count = read_count(document, "/prompt_eval_count");
        let eval_count = read_count(document, "/eval_count");
        match (usage, message, prompt_eval_count, eval_count) {
            (Some(usage), Some(message), Some(prompt_eval_count), Some(eval_count)) => Some(
                OllamaChatCompletionResponse {
                    common: ChatCompletionResponseCommon { usage },
                    message,
                    prompt_eval_count,
                    eval_count,
                },
            ),
            _ => None,
        }
    }
}

/// The place of one field of the catalog entry of the given index.
pub open spec fn model_pointer(index: int, field: Seq<char>) -> Seq<char> {
    "/models/"@ + decimal(index as nat) + field
}

/// The catalog entry of the given index that a payload holds: it must have
/// strings `name` and `modified_at` and a `size` from 0 to 2^64 - 1.
pub open spec fn spec_read_model(document: Seq<u8>, index: int) -> Option<OllamaModel> {
    match (
        text_at(document, model_pointer(index, "/name"@)),
        text_at(document, model_pointer(index, "/modified_at"@)),
        json_member(document, model_pointer(index, "/size"@)),
    ) {
        (Some(Some(name)), Some(Some(modified_at)), Some(JsonMember::Number(_, Some(size)))) => Some(
            OllamaModel { name, modified_at, size },
        ),
        _ => None,
    }
}

/// The number of entries of the catalog that a payload holds: the payload
/// must be a JSON object whose `models` is an array.
pub open spec fn spec_catalog_len(document: Seq<u8>) -> Option<nat> {
    if !is_object(document) {
        None
    } else {
        match json_member(document, "/models"@) {
            Some(JsonMember::Array(n)) => Some(n as nat),
            _ => None,
        }
    }
}

fn read_model(document: &[u8], index: usize) -> (model: Option<OllamaModel>)
    ensures
        model == spec_read_model(document@, index as int),
{
    let number = decimal_of(index as u64);
    let entry = joined("/models/", number.as_str());
    let name = read_text(document, joined(entry.as_str(), "/name").as_str());
    let modified_at = read_text(document, joined(entry.as_str(), "/modified_at").as_str());
    let size = member(document, joined(entry.as_str(), "/size").as_str());
    match (name, modified_at, size) {
        (Some(Some(name)), Some(Some(modified_at)), Some(JsonMember::Number(_, Some(size)))) => Some(
            OllamaModel { name, modified_at, size },
        ),
        _ => None,
    }
}

/// Whether a payload holds a catalog that can be read: it has one by
/// [`spec_catalog_len`], and every entry of it can be read by
/// [`spec_read_model`].
pub open spec fn has_catalog(document: Seq<u8>) -> bool {
    spec_catalog_len(document) matches Some(n) && forall|i: int|
        0 <= i < n ==> (#[trigger] spec_read_model(document, i)) is Some
}

impl OllamaListModelsResponse {
    /// Reads the catalog that a payload holds: every entry, in order. There
    /// is a catalog exactly where [`has_catalog`] says so.
    pub fn read(document: &[u8]) -> (catalog: Option<Self>)
        ensures
            catalog is Some <==> has_catalog(document@),
            catalog matches Some(found) ==> spec_catalog_len(document@) == Some(
                found.models@.len(),
            ) && forall|i: int|
                0 <= i < found.models@.len() ==> spec_read_model(document@, i) == Some(
                    #[trigger] found.models@[i],
                ),
    {
        if !holds_object(document) {
            return None;
        }
        let count = match member(document, "/models") {
            Some(JsonMember::Array(count)) => count,
            _ => {
                return None;
            },
        };
        let mut models: Vec<OllamaModel> = Vec::new();
        let mut i: usize = 0;
        while i < count
            invariant
                i <= count,
                spec_catalog_len(document@) == Some(count as nat),
                models@.len() == i,
                forall|j: int|
                    0 <= j < i ==> spec_read_model(document@, j) == Some(
                        #[trigger] models@[j],
                    ),
            decreases count - i,
        {
            match read_model(document, i) {
                Some(model) => {
                    models.push(model);
                },
                None => {
                    assert(spec_read_model(document@, i as int) is None);
                    return None;
                },
            }
            i += 1;
        }
        assert forall|k: int| 0 <= k < count implies (#[trigger] spec_read_model(
            document@,
            k,
        )) is Some by {
            assert(spec_read_model(document@, k) == Some(models@[k]));
        }
        Some(OllamaListModelsResponse { models })
    }
}

} // verus!
