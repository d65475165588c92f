//! The client: resolves a stored configuration to a backend and prepares
//! the operations on it.

use vstd::prelude::*;
use crate::chat::{ChatRequestExecutor, GlobalSettings};
use crate::entities::{GenericConfig, GenericOptions, MessageDTO, OpenAIOptions, Providers};
use crate::errors::{BuildError, ChatError, ConfigError, ListError};
use crate::json::{bytes_of, JsonNumber};
use crate::models::ListModelsRequestExecutor;
use crate::providers::custom::{CustomConfig, RawCustomConfig};
use crate::providers::ollama::{OllamaConfig, RawOllamaConfig};

verus! {

/// A stored configuration payload as it was read, by the shape it was read
/// as.
#[derive(Clone, Debug, PartialEq, Eq)]
pub enum RawConfig {
    Ollama(RawOllamaConfig),
    Custom(RawCustomConfig),
}

/// A generation options payload as it was read, by the shape it was read
/// as.
#[derive(Clone, Debug, PartialEq)]
pub enum ParsedOptions<N> {
    Ollama(crate::entities::OllamaOptions<N>),
    OpenAI(OpenAIOptions<N>),
}

impl RawConfig {
    /// The configuration that a payload holds, in the shape of a backend
    /// kind.
    pub open spec fn spec_read(kind: Providers, document: Seq<u8>) -> Option<RawConfig> {
        match kind {
            Providers::Ollama => match RawOllamaConfig::spec_read(document) {
                Some(raw) => Some(RawConfig::Ollama(raw)),
                None => None,
            },
            Providers::Custom => match RawCustomConfig::spec_read(document) {
                Some(raw) => Some(RawConfig::Custom(raw)),
                None => None,
            },
        }
    }

    /// The configuration that a stored configuration holds: its payload in
    /// the shape of the kind that its tag names.
    pub open spec fn spec_of(config: GenericConfig) -> Option<RawConfig> {
        match Providers::spec_from_tag(config.provider@) {
            Some(kind) => RawConfig::spec_read(kind, bytes_of(config.config@)),
            None => None,
        }
    }

    /// Reads a configuration payload in the shape of a backend kind.
    pub fn read(kind: Providers, payload: &str) -> (raw: Option<RawConfig>)
        ensures
            raw == RawConfig::spec_read(kind, bytes_of(payload@)),
    {
        match kind {
            Providers::Ollama => match RawOllamaConfig::read(payload) {
                Some(raw) => Some(RawConfig::Ollama(raw)),
                None => None,
            },
            Providers::Custom => match RawCustomConfig::read(payload) {
                Some(raw) => Some(RawConfig::Custom(raw)),
                None => None,
            },
        }
    }
}

impl ParsedOptions<JsonNumber> {
    /// The options that a payload holds, in the shape of a backend kind.
    pub open spec fn spec_read(kind: Providers, document: Seq<u8>) -> Option<Self> {
        match kind {
            Providers::Ollama => match crate::entities::OllamaOptions::<JsonNumber>::spec_read(
                document,
            ) {
                Some(given) => Some(ParsedOptions::Ollama(given)),
                None => None,
            },
            Providers::Custom => match OpenAIOptions::<JsonNumber>::spec_read(document) {
                Some(given) => Some(ParsedOptions::OpenAI(given)),
                None => None,
            },
        }
    }

    /// Reads an options payload in the shape of a backend kind.
    pub fn read(kind: Providers, payload: &str) -> (parsed: Option<Self>)
        ensures
            parsed == Self::spec_read(kind, bytes_of(payload@)),
    {
        match kind {
            Providers::Ollama => match crate::entities::OllamaOptions::<JsonNumber>::read(payload) {
                Some(given) => Some(ParsedOptions::Ollama(given)),
                None => None,
            },
            Providers::Custom => match OpenAIOptions::<JsonNumber>::read(payload) {
                Some(given) => Some(ParsedOptions::OpenAI(given)),
                None => None,
            },
        }
    }
}

/// A backend that is ready for use: how to reach it and which model to
/// target, if one is set.
#[derive(Clone, Debug, PartialEq, Eq)]
pub enum LLMClient {
    OllamaClient(OllamaConfig, Option<String>),
    CustomClient(CustomConfig, Option<String>),
}

impl LLMClient {
    /// The backend kind of the client.
    pub open spec fn spec_kind(self) -> Providers {
        match self {
            LLMClient::OllamaClient(_, _) => Providers::Ollama,
            LLMClient::CustomClient(_, _) => Providers::Custom,
        }
    }

    /// The model that the client targets.
    pub open spec fn spec_model(self) -> Option<String> {
        match self {
            LLMClient::OllamaClient(_, model) => model,
            LLMClient::CustomClient(_, model) => model,
        }
    }

    /// Whether a configuration that was read has the shape that a backend
    /// kind expects. A local chat backend has a default address; an
    /// OpenAI-compatible one must be given its address.
    pub open spec fn fits(kind: Providers, parsed: Option<RawConfig>) -> bool {
        match (kind, parsed) {
            (Providers::Ollama, Some(RawConfig::Ollama(_))) => true,
            (Providers::Custom, Some(RawConfig::Custom(raw))) => raw.api_base is Some,
            _ => false,
        }
    }

    /// What resolving a stored configuration comes to, given what its
    /// payload was read as, `None` where it could not be read.
    ///
    /// A tag that names no backend kind is refused first. A payload that
    /// was not read, or not in the shape of the kind, is refused with the
    /// payload in the error. Otherwise the client is of the kind that the
    /// tag names, reaches the address of the configuration, and targets its
    /// model.
    pub open spec fn resolves(
        config: GenericConfig,
        parsed: Option<RawConfig>,
        client: Result<Self, ConfigError>,
    ) -> bool {
        match Providers::spec_from_tag(config.provider@) {
            None => client == Err::<Self, ConfigError>(ConfigError::UnsupportedProvider),
            Some(kind) => if LLMClient::fits(kind, parsed) {
                match parsed {
                    Some(RawConfig::Ollama(raw)) => client matches Ok(
                        LLMClient::OllamaClient(target, model),
                    ) && target.api_base@ == raw.spec_api_base() && model == raw.model,
                    Some(RawConfig::Custom(raw)) => client == Ok::<Self, ConfigError>(
                        LLMClient::CustomClient(
                            CustomConfig { api_base: raw.api_base->0, api_key: raw.api_key },
                            raw.model,
                        ),
                    ),
                    None => false,
                }
            } else {
                client == Err::<Self, ConfigError>(ConfigError::MalformedConfig(config.config))
            },
        }
    }

    /// Whether `prepared` is what preparing a chat in the given mode comes
    /// to, given what the options payload was read as. A client without a
    /// model prepares nothing. Options that were not read, or not in the
    /// shape of the client's kind, are refused with the payload. Otherwise
    /// the request is the one that the executor builds for the client's
    /// backend.
    pub open spec fn prepares<N>(
        self,
        messages: Seq<MessageDTO>,
        options: GenericOptions,
        parsed: Option<ParsedOptions<N>>,
        global_settings: GlobalSettings,
        stream: bool,
        prepared: Result<ChatRequestExecutor<N>, ChatError>,
    ) -> bool {
        let refused = Err::<ChatRequestExecutor<N>, ChatError>(
            ChatError::Build(BuildError::InvalidOptions(options.options)),
        );
        match self.spec_model() {
            None => prepared == Err::<ChatRequestExecutor<N>, ChatError>(
                ChatError::Build(BuildError::MissingModel),
            ),
            Some(model) => match self {
                LLMClient::OllamaClient(config, _) => match parsed {
                    Some(ParsedOptions::Ollama(given)) => prepared matches Ok(executor)
                        && executor.is_ollama_request(config, messages, given, model, stream),
                    _ => prepared == refused,
                },
                LLMClient::CustomClient(config, _) => match parsed {
                    Some(ParsedOptions::OpenAI(given)) => prepared matches Ok(executor)
                        && executor.is_custom_request(
                        config,
                        messages,
                        given,
                        global_settings.max_tokens,
                        model,
                        stream,
                    ),
                    _ => prepared == refused,
                },
            },
        }
    }

    /// Resolves a stored configuration whose payload was read already: see
    /// [`LLMClient::resolves`].
    pub fn resolve(config: GenericConfig, parsed: Option<RawConfig>) -> (client: Result<
        Self,
        ConfigError,
    >)
        ensures
            LLMClient::resolves(config, parsed, client),
    {
        let kind = match Providers::from_tag(config.provider.as_str()) {
            Some(kind) => kind,
            None => {
                return Err(ConfigError::UnsupportedProvider);
            },
        };
        match (kind, parsed) {
            (Providers::Ollama, Some(RawConfig::Ollama(raw))) => {
                let model = raw.model;
                let target = OllamaConfig::from(
                    RawOllamaConfig { model: None, api_base: raw.api_base },
                );
                Ok(LLMClient::OllamaClient(target, model))
            },
            (Providers::Custom, Some(RawConfig::Custom(raw))) => {
                match raw.api_base {
                    Some(api_base) => Ok(
                        LLMClient::CustomClient(
                            CustomConfig { api_base, api_key: raw.api_key },
                            raw.model,
                        ),
                    ),
                    None => Err(ConfigError::MalformedConfig(config.config)),
                }
            },
            _ => Err(ConfigError::MalformedConfig(config.config)),
        }
    }

    /// Resolves a stored configuration.
    ///
    /// The payload is read in the shape of the kind that the tag names: see
    /// [`RawConfig::spec_of`]. What comes of it is as
    /// [`LLMClient::resolves`] says. Nothing is sent or stored.
    pub fn new(config: GenericConfig) -> (client: Result<Self, ConfigError>)
        ensures
            LLMClient::resolves(config, RawConfig::spec_of(config), client),
    {
        let parsed = match Providers::from_tag(config.provider.as_str()) {
            Some(kind) => RawConfig::read(kind, config.config.as_str()),
            None => None,
        };
        Self::resolve(config, parsed)
    }

    /// The backend kind of the client.
    pub fn kind(&self) -> (kind: Providers)
        ensures
            kind == self.spec_kind(),
    {
        match self {
            LLMClient::OllamaClient(_, _) => Providers::Ollama,
            LLMClient::CustomClient(_, _) => Providers::Custom,
        }
    }

    /// Prepares a chat in the given mode from options that were read
    /// already: see [`LLMClient::prepares`].
    pub fn prepare<N>(
        &self,
        messages: Vec<MessageDTO>,
        options: GenericOptions,
        parsed: Option<ParsedOptions<N>>,
        global_settings: GlobalSettings,
        stream: bool,
    ) -> (prepared: Result<ChatRequestExecutor<N>, ChatError>)
        ensures
            self.prepares(messages@, options, parsed, global_settings, stream, prepared),
    {
        match self {
            LLMClient::OllamaClient(config, model) => {
                let model = match model {
                    Some(model) => model.clone(),
                    None => {
                        return Err(ChatError::Build(BuildError::MissingModel));
                    },
                };
                let given = match parsed {
                    Some(ParsedOptions::Ollama(given)) => Some(given),
                    _ => None,
                };
                match ChatRequestExecutor::ollama_with(
                    config,
                    messages,
                    options,
                    given,
                    global_settings,
                    model,
                    stream,
                ) {
                    Ok(executor) => Ok(executor),
                    Err(error) => Err(ChatError::Build(error)),
                }
            },
            LLMClient::CustomClient(config, model) => {
                let model = match model {
                    Some(model) => model.clone(),
                    None => {
                        return Err(ChatError::Build(BuildError::MissingModel));
                    },
                };
                let given = match parsed {
                    Some(ParsedOptions::OpenAI(given)) => Some(given),
                    _ => None,
                };
                match ChatRequestExecutor::custom_with(
                    config,
                    messages,
                    options,
                    given,
                    global_settings,
                    model,
                    stream,
                ) {
                    Ok(executor) => Ok(executor),
                    Err(error) => Err(ChatError::Build(error)),
                }
            },
        }
    }

    /// Prepares a single-shot chat: the request to send, which states that
    /// no stream is wanted.
    ///
    /// Without a model the chat fails with [`BuildError::MissingModel`].
    /// The options payload is read in the shape of the client's kind; if it
    /// cannot be read the chat fails with [`BuildError::InvalidOptions`]
    /// and the payload. In both cases nothing is to be sent.
    pub fn chat(
        &self,
        messages: Vec<MessageDTO>,
        options: GenericOptions,
        global_settings: GlobalSettings,
    ) -> (prepared: Result<ChatRequestExecutor<JsonNumber>, ChatError>)
        ensures
            self.prepares(
                messages@,
                options,
                ParsedOptions::<JsonNumber>::spec_read(
                    self.spec_kind(),
                    bytes_of(options.options@),
                ),
                global_settings,
                false,
                prepared,
            ),
    {
        let parsed = ParsedOptions::<JsonNumber>::read(self.kind(), options.options.as_str());
        self.prepare(messages, options, parsed, global_settings, false)
    }

    /// Prepares a streamed chat: the request to send, which states that a
    /// stream is wanted. It fails as [`LLMClient::chat`] does.
    pub fn chat_stream(
        &self,
        messages: Vec<MessageDTO>,
        options: GenericOptions,
        global_settings: GlobalSettings,
    ) -> (prepared: Result<ChatRequestExecutor<JsonNumber>, ChatError>)
        ensures
            self.prepares(
                messages@,
                options,
                ParsedOptions::<JsonNumber>::spec_read(
                    self.spec_kind(),
                    bytes_of(options.options@),
                ),
                global_settings,
                true,
                prepared,
            ),
    {
        let parsed = ParsedOptions::<JsonNumber>::read(self.kind(), options.options.as_str());
        self.prepare(messages, options, parsed, global_settings, true)
    }

    /// Prepares the listing of the backend's models. Only a local chat
    /// backend has a catalog.
    pub fn models(&self) -> (prepared: Result<ListModelsRequestExecutor, ListError>)
        ensures
            match *self {
                LLMClient::OllamaClient(config, _) => prepared matches Ok(
                    ListModelsRequestExecutor::OllamaListModelsRequestExecutor(target),
                ) && target.api_base@ == config.api_base@,
                LLMClient::CustomClient(_, _) => prepared == Err::<
                    ListModelsRequestExecutor,
                    ListError,
                >(ListError::Unsupported),
            },
    {
        match self {
            LLMClient::OllamaClient(config, _) => Ok(ListModelsRequestExecutor::ollama(config)),
            LLMClient::CustomClient(_, _) => Err(ListError::Unsupported),
        }
    }
}

} // verus!
