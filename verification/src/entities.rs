//! The stored records that the gateway consumes: provider configurations,
//! conversation options, messages and the proxy setting. The gateway reads
//! them; it never stores them.
//!
//! Sampling parameters (temperature and the like) are carried through to the
//! provider untouched, whatever their numeric type `N`. Options that are
//! read from a stored payload carry them as [`JsonNumber`]s.

use vstd::prelude::*;
use vstd::string::StringExecFns;
use crate::json::{
    bytes_of, count_at, document_of, flag_at, holds_object, is_object, number_at, read_count,
    read_flag, read_number, read_text, text_at, JsonNumber,
};
use crate::text::str_eq;

verus! {

/// The backend kinds. `Ollama` is a local chat endpoint, `Custom` a generic
/// OpenAI-compatible endpoint.
#[derive(Clone, Copy, Debug, PartialEq, Eq, Structural)]
pub enum Providers {
    Ollama,
    Custom,
}

impl Providers {
    /// The tag under which a kind is stored.
    pub open spec fn spec_tag(self) -> Seq<char> {
        match self {
            Providers::Ollama => "ollama"@,
            Providers::Custom => "custom"@,
        }
    }

    /// The kind that a stored tag names, if any.
    pub open spec fn spec_from_tag(tag: Seq<char>) -> Option<Providers> {
        if tag == "ollama"@ {
            Some(Providers::Ollama)
        } else if tag == "custom"@ {
            Some(Providers::Custom)
        } else {
            None
        }
    }

    /// The tag under which this kind is stored. Reading the tag back gives
    /// the kind.
    pub fn as_str(&self) -> (tag: &'static str)
        ensures
            tag@ == self.spec_tag(),
            Providers::spec_from_tag(tag@) == Some(*self),
    {
        proof {
            reveal_strlit("ollama");
            reveal_strlit("custom");
            assert("ollama"@[0] != "custom"@[0]);
        }
        match self {
            Providers::Ollama => "ollama",
            Providers::Custom => "custom",
        }
    }

    /// The kind that a stored tag names: `None` for a tag that names no
    /// known kind.
    pub fn from_tag(tag: &str) -> (kind: Option<Providers>)
        ensures
            kind == Providers::spec_from_tag(tag@),
    {
        if str_eq(tag, "ollama") {
            Some(Providers::Ollama)
        } else if str_eq(tag, "custom") {
            Some(Providers::Custom)
        } else {
            None
        }
    }
}

/// A backend kind as it is offered for selection.
#[derive(Clone, Debug, PartialEq, Eq)]
pub struct Provider {
    pub id: String,
    pub name: String,
}

impl Provider {
    /// The providers on offer, in display order: one per backend kind, its
    /// `id` being the kind's tag.
    pub fn all() -> (list: Vec<Provider>)
        ensures
            list@.len() == 2,
            list@[0].id@ == Providers::Ollama.spec_tag(),
            list@[0].name@ == "Ollama"@,
            list@[1].id@ == Providers::Custom.spec_tag(),
            list@[1].name@ == "Custom"@,
    {
        let mut list: Vec<Provider> = Vec::new();
        list.push(
            Provider { id: String::from_str("ollama"), name: String::from_str("Ollama") },
        );
        list.push(
            Provider { id: String::from_str("custom"), name: String::from_str("Custom") },
        );
        list
    }
}

/// A stored model configuration: the provider tag and the connection
/// parameters as a JSON payload whose shape depends on the provider.
#[derive(Clone, Debug, PartialEq, Eq)]
pub struct GenericConfig {
    pub provider: String,
    pub config: String,
}

/// The generation options of a conversation, as the stored JSON payload.
#[derive(Clone, Debug, PartialEq, Eq)]
pub struct GenericOptions {
    pub options: String,
}

/// The generation options of a conversation with an OpenAI-compatible
/// backend.
#[derive(Clone, Debug, PartialEq)]
pub struct OpenAIOptions<N> {
    pub stream: Option<bool>,
    pub temperature: Option<N>,
    pub top_p: Option<N>,
    pub max_tokens: Option<u32>,
    pub presence_penalty: Option<N>,
    pub frequency_penalty: Option<N>,
    pub user: Option<String>,
    pub reasoning_effort: Option<N>,
}

/// The generation options of a conversation with a local chat backend.
#[derive(Clone, Debug, PartialEq)]
pub struct OllamaOptions<N> {
    pub stream: Option<bool>,
    pub temperature: Option<N>,
    pub top_p: Option<N>,
    pub top_k: Option<N>,
}

/// One message of a conversation as it is stored: the role by name.
#[derive(Clone, Debug, PartialEq, Eq)]
pub struct MessageDTO {
    pub role: String,
    pub content: String,
}

/// The outbound proxy setting.
#[derive(Clone, Debug, PartialEq, Eq)]
pub struct ProxySetting {
    pub enabled: bool,
    pub protocol: String,
    pub host: String,
    pub port: u16,
}

impl OllamaOptions<JsonNumber> {
    /// The options that an options payload holds. The payload must be a
    /// JSON object. Each option may be left out or be `null`, and is then
    /// not set; `stream` must else be a boolean and each of the others a
    /// number. Other members are passed over.
    pub open spec fn spec_read(document: Seq<u8>) -> Option<Self> {
        if !is_object(document) {
            None
        } else {
            match (
                flag_at(document, "/stream"@),
                number_at(document, "/temperature"@),
                number_at(document, "/top_p"@),
                number_at(document, "/top_k"@),
            ) {
                (Some(stream), Some(temperature), Some(top_p), Some(top_k)) => Some(
                    OllamaOptions { stream, temperature, top_p, top_k },
                ),
                _ => None,
            }
        }
    }

    /// Reads an options payload: see [`OllamaOptions::spec_read`].
    pub fn read(payload: &str) -> (options: Option<Self>)
        ensures
            options == Self::spec_read(bytes_of(payload@)),
    {
        let document = document_of(payload);
        if !holds_object(document) {
            return None;
        }
        let stream = read_flag(document, "/stream");
        let temperature = read_number(document, "/temperature");
        let top_p = read_number(document, "/top_p");
        let top_k = read_number(document, "/top_k");
        match (stream, temperature, top_p, top_k) {
            (Some(stream), Some(temperature), Some(top_p), Some(top_k)) => Some(
                OllamaOptions { stream, temperature, top_p, top_k },
            ),
            _ => None,
        }
    }
}

impl OpenAIOptions<JsonNumber> {
    /// The options that an options payload holds. The payload must be a
    /// JSON object. Each option may be left out or be `null`, and is then
    /// not set; `stream` must else be a boolean, `max_tokens` an integer
    /// from 0 to 2^32 - 1, `user` a string and each of the others a number.
    /// Other members are passed over.
    pub open spec fn spec_read(document: Seq<u8>) -> Option<Self> {
        if !is_object(document) {
            None
        } else {
            match (
                flag_at(document, "/stream"@),
                number_at(document, "/temperature"@),
                number_at(document, "/top_p"@),
                count_at(document, "/max_tokens"@),
                number_at(document, "/presence_penalty"@),
                number_at(document, "/frequency_penalty"@),
                text_at(document, "/user"@),
                number_at(document, "/reasoning_effort"@),
            ) {
                (
                    Some(stream),
                    Some(temperature),
                    Some(top_p),
                    Some(max_tokens),
                    Some(presence_penalty),
                    Some(frequency_penalty),
                    Some(user),
                    Some(reasoning_effort),
                ) => Some(
                    OpenAIOptions {
                        stream,
                        temperature,
                        top_p,
                        max_tokens,
                        presence_penalty,
                        frequency_penalty,
                        user,
                        reasoning_effort,
                    },
                ),
                _ => None,
            }
        }
    }

    /// Reads an options payload: see [`OpenAIOptions::spec_read`].
    pub fn read(payload: &str) -> (options: Option<Self>)
        ensures
            options == Self::spec_read(bytes_of(payload@)),
    {
        let document = document_of(payload);
        if !holds_object(document) {
            return None;
        }
        let stream = read_flag(document, "/stream");
        let temperature = read_number(document, "/temperature");
        let top_p = read_number(document, "/top_p");
        let max_tokens = read_count(document, "/max_tokens");
        let presence_penalty = read_number(document, "/presence_penalty");
        let frequency_penalty = read_number(document, "/frequency_penalty");
        let user = read_text(document, "/user");
        let reasoning_effort = read_number(document, "/reasoning_effort");
        match (
            stream,
            temperature,
            top_p,
            max_tokens,
            presence_penalty,
            frequency_penalty,
            user,
            reasoning_effort,
        ) {
            (
                Some(stream),
                Some(temperature),
                Some(top_p),
                Some(max_tokens),
                Some(presence_penalty),
                Some(frequency_penalty),
                Some(user),
                Some(reasoning_effort),
            ) => Some(
                OpenAIOptions {
                    stream,
                    temperature,
                    top_p,
                    max_tokens,
                    presence_penalty,
                    frequency_penalty,
                    user,
                    reasoning_effort,
                },
            ),
            _ => None,
        }
    }
}

/// The proxy setting that a stored payload holds. The payload must be a
/// JSON object with a boolean `enabled`, strings `protocol` and `host`, and
/// a `port` from 0 to 65535.
pub open spec fn spec_read_proxy(document: Seq<u8>) -> Option<ProxySetting> {
    if !is_object(document) {
        None
    } else {
        match (
            flag_at(document, "/enabled"@),
            text_at(document, "/protocol"@),
            text_at(document, "/host"@),
            count_at(document, "/port"@),
        ) {
            (Some(Some(enabled)), Some(Some(protocol)), Some(Some(host)), Some(Some(port))) => if port
                <= u16::MAX {
                Some(ProxySetting { enabled, protocol, host, port: port as u16 })
            } else {
                None
            },
            _ => None,
        }
    }
}

impl ProxySetting {
    /// Reads the stored proxy setting: see [`spec_read_proxy`].
    pub fn read(payload: &str) -> (setting: Option<Self>)
        ensures
            setting == spec_read_proxy(bytes_of(payload@)),
    {
        let document = document_of(payload);
        if !holds_object(document) {
            return None;
        }
        let enabled = read_flag(document, "/enabled");
        let protocol = read_text(document, "/protocol");
        let host = read_text(document, "/host");
        let port = read_count(document, "/port");
        match (enabled, protocol, host, port) {
            (Some(Some(enabled)), Some(Some(protocol)), Some(Some(host)), Some(Some(port))) => {
                if port <= 0xffff {
                    Some(ProxySetting { enabled, protocol, host, port: port as u16 })
                } else {
                    None
                }
            },
            _ => None,
        }
    }
}

} // verus!
