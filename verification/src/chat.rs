//! The chat executor: builds the request for a backend and turns what the
//! backend answers into replies.
//!
//! The HTTP exchange itself is the caller's part. The executor says where a
//! request goes and what it holds, and decides what a response means.

use vstd::prelude::*;
use crate::entities::{GenericOptions, MessageDTO, OpenAIOptions, Providers};
use crate::errors::{BuildError, ChatError, DecodeError, TransportError};
use crate::json::{bytes_of, document_of, JsonNumber};
use crate::log_utils::{spec_warn, warn};
use crate::providers::custom::{CustomChatCompletionRequest, CustomConfig};
use crate::providers::ollama::{
    OllamaChatCompletionRequest, OllamaConfig, OllamaMessage, OllamaOptions,
};
use crate::providers::types::{ChatCompletionRequestCommon, ResponseFrame};
use crate::segmenter::{answer_of, ends_in_reasoning, reasoning_of, split_reasoning};
use crate::stream::BotReplyStream;
use crate::usage::{spec_sum_option, sum_option};

verus! {

/// A reply, or one increment of a streamed reply.
///
/// In a stream each value is a delta: the text that one frame added to the
/// answer or to the reasoning, and the token counts that the frame reported.
#[derive(Clone, Debug, Default, PartialEq, Eq)]
pub struct BotReply {
    pub message: String,
    pub reasoning: Option<String>,
    pub prompt_token: Option<u32>,
    pub completion_token: Option<u32>,
    pub reasoning_token: Option<u32>,
    pub total_token: Option<u32>,
}

/// The mathematical value of a [`BotReply`].
pub ghost struct ReplyModel {
    pub message: Seq<char>,
    pub reasoning: Option<Seq<char>>,
    pub prompt_token: Option<u32>,
    pub completion_token: Option<u32>,
    pub reasoning_token: Option<u32>,
    pub total_token: Option<u32>,
}

impl View for BotReply {
    type V = ReplyModel;

    open spec fn view(&self) -> ReplyModel {
        ReplyModel {
            message: self.message@,
            reasoning: match self.reasoning {
                Some(text) => Some(text@),
                None => None,
            },
            prompt_token: self.prompt_token,
            completion_token: self.completion_token,
            reasoning_token: self.reasoning_token,
            total_token: self.total_token,
        }
    }
}

/// Settings that hold for every provider.
#[derive(Clone, Copy, Debug, PartialEq, Eq, Structural)]
pub struct GlobalSettings {
    /// The ceiling on the tokens of one completion; 0 where none is set.
    pub max_tokens: u32,
}

/// The reply that a whole buffered response stands for: the content split
/// into answer and reasoning, the token counts as reported, their total
/// where both are there, and never a count of reasoning tokens. Reasoning is
/// absent where the content holds none.
pub open spec fn reply_of(frame: ResponseFrame) -> ReplyModel {
    ReplyModel {
        message: answer_of(frame.content()),
        reasoning: if reasoning_of(frame.content()).len() > 0 {
            Some(reasoning_of(frame.content()))
        } else {
            None
        },
        prompt_token: frame.prompt_tokens,
        completion_token: frame.completion_tokens,
        reasoning_token: None,
        total_token: spec_sum_option(frame.prompt_tokens, frame.completion_tokens),
    }
}

/// The token limit to send: what the conversation asks for, held under the
/// global ceiling. A ceiling of 0 means there is none.
pub open spec fn spec_capped(requested: Option<u32>, ceiling: u32) -> Option<u32> {
    if ceiling == 0 {
        requested
    } else {
        match requested {
            Some(limit) => Some(
                if limit <= ceiling {
                    limit
                } else {
                    ceiling
                },
            ),
            None => Some(ceiling),
        }
    }
}

/// The token limit to send for a conversation.
pub fn capped(requested: Option<u32>, ceiling: u32) -> (limit: Option<u32>)
    ensures
        limit == spec_capped(requested, ceiling),
{
    if ceiling == 0 {
        requested
    } else {
        match requested {
            Some(limit) => Some(
                if limit <= ceiling {
                    limit
                } else {
                    ceiling
                },
            ),
            None => Some(ceiling),
        }
    }
}

/// The stored messages in the wire vocabulary, in conversation order.
pub fn wire_messages(messages: Vec<MessageDTO>) -> (wire: Vec<OllamaMessage>)
    ensures
        wire@.len() == messages@.len(),
        forall|i: int| 0 <= i < wire@.len() ==> wire@[i] == OllamaMessage::of(messages@[i]),
{
    let mut wire: Vec<OllamaMessage> = Vec::new();
    let mut i: usize = 0;
    while i < messages.len()
        invariant
            i <= messages.len(),
            wire@.len() == i,
            forall|j: int| 0 <= j < i ==> wire@[j] == OllamaMessage::of(messages@[j]),
        decreases messages.len() - i,
    {
        let message = MessageDTO {
            role: messages[i].role.clone(),
            content: messages[i].content.clone(),
        };
        wire.push(OllamaMessage::from(message));
        i += 1;
    }
    wire
}

/// What is worth a warning about the content of a buffered response: that
/// it ends inside a reasoning segment that was never closed.
pub open spec fn spec_unclosed(frame: ResponseFrame) -> Option<Seq<char>> {
    if ends_in_reasoning(frame.content()) {
        Some("The response ended inside a reasoning segment that was never closed"@)
    } else {
        None
    }
}

/// Where both counts of a response are there and their sum fits, the total
/// of its reply is that sum; in every other case the reply has no total. It
/// never has a count of reasoning tokens.
pub proof fn lemma_total_is_sum(frame: ResponseFrame)
    ensures
        reply_of(frame).reasoning_token is None,
        match (frame.prompt_tokens, frame.completion_tokens) {
            (Some(prompt), Some(completion)) => if prompt + completion <= u32::MAX {
                reply_of(frame).total_token == Some((prompt + completion) as u32)
            } else {
                reply_of(frame).total_token is None
            },
            _ => reply_of(frame).total_token is None,
        },
{
}

/// Reading the options back from a request to an OpenAI-compatible backend
/// gives every option that goes over the wire as it was set; the token
/// limit as it was set where there is no ceiling or the limit is under it,
/// and held under the ceiling otherwise.
pub proof fn lemma_custom_options_round_trip<N>(
    executor: ChatRequestExecutor<N>,
    config: CustomConfig,
    messages: Seq<MessageDTO>,
    given: OpenAIOptions<N>,
    ceiling: u32,
    model: String,
    stream: bool,
)
    requires
        executor.is_custom_request(config, messages, given, ceiling, model, stream),
    ensures
        executor matches ChatRequestExecutor::CustomChatRequestExecutor(_, request)
            && request.spec_options() == (OpenAIOptions {
            stream: None,
            max_tokens: spec_capped(given.max_tokens, ceiling),
            reasoning_effort: None,
            ..given
        }),
        ceiling == 0 || (given.max_tokens matches Some(limit) && limit <= ceiling)
            ==> spec_capped(given.max_tokens, ceiling) == given.max_tokens,
{
}

/// A chat request that is ready to be sent, with the backend it goes to.
#[derive(Clone, Debug, PartialEq)]
pub enum ChatRequestExecutor<N> {
    OllamaChatRequestExecutor(OllamaConfig, OllamaChatCompletionRequest<N>),
    CustomChatRequestExecutor(CustomConfig, CustomChatCompletionRequest<N>),
}

impl<N> ChatRequestExecutor<N> {
    /// The backend kind that the request goes to.
    pub open spec fn spec_kind(self) -> Providers {
        match self {
            ChatRequestExecutor::OllamaChatRequestExecutor(_, _) => Providers::Ollama,
            ChatRequestExecutor::CustomChatRequestExecutor(_, _) => Providers::Custom,
        }
    }

    /// The address that the request goes to.
    pub open spec fn spec_endpoint(self) -> Seq<char> {
        match self {
            ChatRequestExecutor::OllamaChatRequestExecutor(config, _) => config.spec_chat_url(),
            ChatRequestExecutor::CustomChatRequestExecutor(config, _) => config.spec_chat_url(),
        }
    }

    /// Whether `self` is the request to a local chat backend that is made
    /// of these parts: the messages in the wire vocabulary and in order, the
    /// options as they were set, the model, and the mode stated explicitly.
    /// No other field of the request is set.
    pub open spec fn is_ollama_request(
        self,
        config: OllamaConfig,
        messages: Seq<MessageDTO>,
        given: crate::entities::OllamaOptions<N>,
        model: String,
        stream: bool,
    ) -> bool {
        &&& self matches ChatRequestExecutor::OllamaChatRequestExecutor(target, request)
        &&& target.api_base@ == config.api_base@
        &&& request.common == (ChatCompletionRequestCommon::<N> {
            model,
            stream: Some(stream),
            stream_options: None,
            temperature: None,
            top_p: None,
            max_tokens: None,
            presence_penalty: None,
            frequency_penalty: None,
        })
        &&& request.messages@.len() == messages.len()
        &&& forall|i: int|
            0 <= i < messages.len() ==> request.messages@[i] == OllamaMessage::of(messages[i])
        &&& request.options == Some(OllamaOptions::of(given))
        &&& request.spec_options() == Some(given)
    }

    /// Whether `self` is the request to an OpenAI-compatible backend that is
    /// made of these parts: the messages in the wire vocabulary and in
    /// order, the model, the mode stated explicitly, the token limit held
    /// under the ceiling, and every other option as it was set.
    pub open spec fn is_custom_request(
        self,
        config: CustomConfig,
        messages: Seq<MessageDTO>,
        given: OpenAIOptions<N>,
        ceiling: u32,
        model: String,
        stream: bool,
    ) -> bool {
        &&& self matches ChatRequestExecutor::CustomChatRequestExecutor(target, request)
        &&& target.api_base@ == config.api_base@
        &&& target.api_key == config.api_key
        &&& request.common == (ChatCompletionRequestCommon::<N> {
            model,
            stream: Some(stream),
            stream_options: None,
            temperature: given.temperature,
            top_p: given.top_p,
            max_tokens: spec_capped(given.max_tokens, ceiling),
            presence_penalty: given.presence_penalty,
            frequency_penalty: given.frequency_penalty,
        })
        &&& request.user == given.user
        &&& request.messages@.len() == messages.len()
        &&& forall|i: int|
            0 <= i < messages.len() ==> request.messages@[i] == OllamaMessage::of(messages[i])
    }

    /// What building the request for a local chat backend comes to, given
    /// what the options payload was read as, `None` where it could not be
    /// read: then the request fails with the payload in the error and
    /// nothing is to be sent. Otherwise the request is as
    /// [`ChatRequestExecutor::is_ollama_request`] says.
    pub open spec fn builds_ollama(
        config: OllamaConfig,
        messages: Seq<MessageDTO>,
        options: GenericOptions,
        parsed: Option<crate::entities::OllamaOptions<N>>,
        model: String,
        stream: bool,
        built: Result<Self, BuildError>,
    ) -> bool {
        match parsed {
            None => built == Err::<Self, BuildError>(BuildError::InvalidOptions(options.options)),
            Some(given) => built matches Ok(executor) && executor.is_ollama_request(
                config,
                messages,
                given,
                model,
                stream,
            ),
        }
    }

    /// What building the request for an OpenAI-compatible backend comes to,
    /// given what the options payload was read as. It fails as
    /// [`ChatRequestExecutor::builds_ollama`] says; otherwise the request is
    /// as [`ChatRequestExecutor::is_custom_request`] says.
    pub open spec fn builds_custom(
        config: CustomConfig,
        messages: Seq<MessageDTO>,
        options: GenericOptions,
        parsed: Option<OpenAIOptions<N>>,
        ceiling: u32,
        model: String,
        stream: bool,
        built: Result<Self, BuildError>,
    ) -> bool {
        match parsed {
            None => built == Err::<Self, BuildError>(BuildError::InvalidOptions(options.options)),
            Some(given) => built matches Ok(executor) && executor.is_custom_request(
                config,
                messages,
                given,
                ceiling,
                model,
                stream,
            ),
        }
    }

    /// Builds the request for a local chat backend from options that were
    /// read already: see [`ChatRequestExecutor::builds_ollama`].
    ///
    /// `stream` is the mode of the operation; the request states it
    /// explicitly, whatever the options say. The global settings are
    /// carried but not consulted: this backend has no slot for a token
    /// limit.
    pub fn ollama_with(
        config: &OllamaConfig,
        messages: Vec<MessageDTO>,
        options: GenericOptions,
        parsed: Option<crate::entities::OllamaOptions<N>>,
        _global_settings: GlobalSettings,
        model: String,
        stream: bool,
    ) -> (built: Result<Self, BuildError>)
        ensures
            Self::builds_ollama(*config, messages@, options, parsed, model, stream, built),
    {
        let given = match parsed {
            Some(given) => given,
            None => {
                return Err(BuildError::InvalidOptions(options.options));
            },
        };
        let request = OllamaChatCompletionRequest {
            common: ChatCompletionRequestCommon {
                model,
                stream: Some(stream),
                stream_options: None,
                temperature: None,
                top_p: None,
                max_tokens: None,
                presence_penalty: None,
                frequency_penalty: None,
            },
            messages: wire_messages(messages),
            options: Some(OllamaOptions::from(given)),
        };
        let target = OllamaConfig { api_base: config.api_base.clone() };
        Ok(ChatRequestExecutor::OllamaChatRequestExecutor(target, request))
    }

    /// Builds the request for an OpenAI-compatible backend from options
    /// that were read already: see [`ChatRequestExecutor::builds_custom`].
    ///
    /// The token limit is the conversation's, held under the global
    /// ceiling: see [`spec_capped`]. Every other option goes out as it was
    /// set.
    pub fn custom_with(
        config: &CustomConfig,
        messages: Vec<MessageDTO>,
        options: GenericOptions,
        parsed: Option<OpenAIOptions<N>>,
        global_settings: GlobalSettings,
        model: String,
        stream: bool,
    ) -> (built: Result<Self, BuildError>)
        ensures
            Self::builds_custom(
                *config,
                messages@,
                options,
                parsed,
                global_settings.max_tokens,
                model,
                stream,
                built,
            ),
    {
        let given = match parsed {
            Some(given) => given,
            None => {
                return Err(BuildError::InvalidOptions(options.options));
            },
        };
        let request = CustomChatCompletionRequest {
            common: ChatCompletionRequestCommon {
                model,
                stream: Some(stream),
                stream_options: None,
                temperature: given.temperature,
                top_p: given.top_p,
                max_tokens: capped(given.max_tokens, global_settings.max_tokens),
                presence_penalty: given.presence_penalty,
                frequency_penalty: given.frequency_penalty,
            },
            messages: wire_messages(messages),
            user: given.user,
        };
        let target = CustomConfig {
            api_base: config.api_base.clone(),
            api_key: config.api_key.clone(),
        };
        Ok(ChatRequestExecutor::CustomChatRequestExecutor(target, request))
    }

    /// The backend kind that the request goes to.
    pub fn kind(&self) -> (kind: Providers)
        ensures
            kind == self.spec_kind(),
    {
        match self {
            ChatRequestExecutor::OllamaChatRequestExecutor(_, _) => Providers::Ollama,
            ChatRequestExecutor::CustomChatRequestExecutor(_, _) => Providers::Custom,
        }
    }

    /// The address to post the request to.
    pub fn endpoint(&self) -> (url: String)
        ensures
            url@ == self.spec_endpoint(),
    {
        match self {
            ChatRequestExecutor::OllamaChatRequestExecutor(config, _) => config.chat_url(),
            ChatRequestExecutor::CustomChatRequestExecutor(config, _) => config.chat_url(),
        }
    }

    /// The reply of a single-shot chat to a response that was read already:
    /// [`reply_of`] the response, whatever its content. Content that ends
    /// inside an unclosed reasoning segment gives a reply like any other;
    /// [`ChatRequestExecutor::unclosed`] says when that is so.
    pub fn reply(frame: ResponseFrame) -> (reply: BotReply)
        ensures
            reply@ == reply_of(frame),
    {
        let parts = match &frame.content_delta {
            Some(content) => split_reasoning(content.as_str()),
            None => split_reasoning(""),
        };
        proof {
            reveal_strlit("");
            assert(""@ =~= Seq::<char>::empty());
        }
        let reasoning = if !parts.reasoning.as_str().is_empty() {
            Some(parts.reasoning)
        } else {
            None
        };
        BotReply {
            message: parts.answer,
            reasoning,
            prompt_token: frame.prompt_tokens,
            completion_token: frame.completion_tokens,
            reasoning_token: None,
            total_token: sum_option(frame.prompt_tokens, frame.completion_tokens),
        }
    }

    /// The log line for what is worth a warning about the content of a
    /// buffered response, if anything: see [`spec_unclosed`]. `tag` names
    /// the operation.
    pub fn unclosed(frame: &ResponseFrame, tag: &str) -> (line: Option<String>)
        ensures
            match spec_unclosed(*frame) {
                Some(msg) => line matches Some(l) && l@ == spec_warn(tag@, msg),
                None => line is None,
            },
    {
        let parts = match &frame.content_delta {
            Some(content) => split_reasoning(content.as_str()),
            None => split_reasoning(""),
        };
        proof {
            reveal_strlit("");
            assert(""@ =~= Seq::<char>::empty());
        }
        if parts.unterminated {
            Some(warn(tag, "The response ended inside a reasoning segment that was never closed"))
        } else {
            None
        }
    }

    /// Turns the outcome of the exchange into the reply of a single-shot
    /// chat: `outcome` is the body of the response, or the failure of the
    /// exchange.
    ///
    /// A failed exchange surfaces as it is and gives no reply. A body that
    /// has not the shape of a response of the backend is reported as a
    /// malformed frame, with the body. Every other body gives the reply
    /// that [`ChatRequestExecutor::reply`] makes of the response it holds.
    pub fn execute(&self, outcome: Result<String, TransportError>) -> (reply: Result<
        BotReply,
        ChatError,
    >)
        ensures
            match outcome {
                Err(failure) => reply == Err::<BotReply, ChatError>(ChatError::Transport(failure)),
                Ok(body) => match ResponseFrame::spec_read(self.spec_kind(), bytes_of(body@)) {
                    None => reply == Err::<BotReply, ChatError>(
                        ChatError::Decode(DecodeError::MalformedFrame(body)),
                    ),
                    Some(frame) => reply matches Ok(r) && r@ == reply_of(frame),
                },
            },
    {
        let body = match outcome {
            Ok(body) => body,
            Err(failure) => {
                return Err(ChatError::Transport(failure));
            },
        };
        match ResponseFrame::parse(self.kind(), document_of(body.as_str())) {
            Some(frame) => Ok(Self::reply(frame)),
            None => Err(ChatError::Decode(DecodeError::MalformedFrame(body))),
        }
    }

    /// Starts the decoding of a streamed chat: the state machine that the
    /// caller drives with the bytes of the response.
    pub fn execute_stream(&self) -> (stream: BotReplyStream)
        ensures
            stream@ == crate::stream::opening(self.spec_kind()),
    {
        BotReplyStream::new(self.kind())
    }
}

impl ChatRequestExecutor<JsonNumber> {
    /// Builds the request for a local chat backend.
    ///
    /// The options payload is read as
    /// [`crate::entities::OllamaOptions::spec_read`] says; what cannot be
    /// read is refused with the payload in the error, and nothing is to be
    /// sent. `stream` is the mode of the operation; the request states it
    /// explicitly, whatever the options say.
    pub fn ollama(
        config: &OllamaConfig,
        messages: Vec<MessageDTO>,
        options: GenericOptions,
        global_settings: GlobalSettings,
        model: String,
        stream: bool,
    ) -> (built: Result<Self, BuildError>)
        ensures
            Self::builds_ollama(
                *config,
                messages@,
                options,
                crate::entities::OllamaOptions::<JsonNumber>::spec_read(
                    bytes_of(options.options@),
                ),
                model,
                stream,
                built,
            ),
    {
        let parsed = crate::entities::OllamaOptions::<JsonNumber>::read(options.options.as_str());
        Self::ollama_with(config, messages, options, parsed, global_settings, model, stream)
    }

    /// Builds the request for an OpenAI-compatible backend.
    ///
    /// The options payload is read as [`OpenAIOptions::spec_read`] says;
    /// what cannot be read is refused with the payload in the error. The
    /// token limit is held under the global ceiling.
    pub fn custom(
        config: &CustomConfig,
        messages: Vec<MessageDTO>,
        options: GenericOptions,
        global_settings: GlobalSettings,
        model: String,
        stream: bool,
    ) -> (built: Result<Self, BuildError>)
        ensures
            Self::builds_custom(
                *config,
                messages@,
                options,
                OpenAIOptions::<JsonNumber>::spec_read(bytes_of(options.options@)),
                global_settings.max_tokens,
                model,
                stream,
                built,
            ),
    {
        let parsed = OpenAIOptions::<JsonNumber>::read(options.options.as_str());
        Self::custom_with(config, messages, options, parsed, global_settings, model, stream)
    }
}

} // verus!
