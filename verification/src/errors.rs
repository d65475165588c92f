//! The errors of the gateway. Every failure is a value; each carries what is
//! needed to say what went wrong, and `message` gives the text shown to the
//! user.

use vstd::prelude::*;
use vstd::string::StringExecFns;
use crate::text::{decimal, decimal_of, joined};

verus! {

/// A stored provider configuration could not be resolved.
#[derive(Clone, Debug, PartialEq, Eq)]
pub enum ConfigError {
    /// The provider tag names no known backend kind.
    UnsupportedProvider,
    /// The configuration payload, given here, has not the shape that the
    /// backend kind expects.
    MalformedConfig(String),
}

/// A request could not be built.
#[derive(Clone, Debug, PartialEq, Eq)]
pub enum BuildError {
    /// The generation options payload, given here, could not be parsed.
    InvalidOptions(String),
    /// No model was selected for the chat.
    MissingModel,
}

/// The HTTP exchange failed.
#[derive(Clone, Debug, PartialEq, Eq)]
pub enum TransportError {
    /// The network failed or timed out; the cause is given.
    Network(String),
    /// The server answered with a status outside 200..=299; the status and
    /// the body are given.
    Http(u16, String),
}

/// A stream could not be decoded to its end.
#[derive(Clone, Debug, PartialEq, Eq)]
pub enum DecodeError {
    /// A frame was complete but has not the shape of a response; the frame
    /// is given as text.
    MalformedFrame(String),
    /// The stream ended in the middle of a frame.
    TruncatedStream,
    /// The content of a stream ended inside a reasoning segment that was
    /// never closed.
    UnterminatedReasoning,
}

/// A chat operation failed.
#[derive(Clone, Debug, PartialEq, Eq)]
pub enum ChatError {
    /// The request could not be built; nothing was sent.
    Build(BuildError),
    /// The exchange failed before a response was there.
    Transport(TransportError),
    /// The body of a streamed response broke off.
    Stream(TransportError),
    /// The response could not be decoded.
    Decode(DecodeError),
}

/// The model catalog could not be listed.
#[derive(Clone, Debug, PartialEq, Eq)]
pub enum ListError {
    /// The exchange failed.
    Transport(TransportError),
    /// The response held no catalog that could be read.
    MalformedCatalog,
    /// The backend kind offers no catalog.
    Unsupported,
}

impl ConfigError {
    pub open spec fn spec_message(self) -> Seq<char> {
        match self {
            ConfigError::UnsupportedProvider => "Unsupported provider"@,
            ConfigError::MalformedConfig(raw) => "Failed to parse model config: "@ + raw@,
        }
    }

    /// The text shown to the user.
    pub fn message(&self) -> (s: String)
        ensures
            s@ == self.spec_message(),
    {
        match self {
            ConfigError::UnsupportedProvider => String::from_str("Unsupported provider"),
            ConfigError::MalformedConfig(raw) => joined(
                "Failed to parse model config: ",
                raw.as_str(),
            ),
        }
    }
}

impl BuildError {
    pub open spec fn spec_message(self) -> Seq<char> {
        match self {
            BuildError::InvalidOptions(raw) => "Failed to parse conversation options: "@ + raw@,
            BuildError::MissingModel => "Model not set for chat"@,
        }
    }

    /// The text shown to the user.
    pub fn message(&self) -> (s: String)
        ensures
            s@ == self.spec_message(),
    {
        match self {
            BuildError::InvalidOptions(raw) => joined(
                "Failed to parse conversation options: ",
                raw.as_str(),
            ),
            BuildError::MissingModel => String::from_str("Model not set for chat"),
        }
    }
}

impl TransportError {
    pub open spec fn spec_message(self) -> Seq<char> {
        match self {
            TransportError::Network(cause) => cause@,
            TransportError::Http(status, body) => "HTTP "@ + decimal(status as nat) + ": "@
                + body@,
        }
    }

    /// The text shown to the user.
    pub fn message(&self) -> (s: String)
        ensures
            s@ == self.spec_message(),
    {
        match self {
            TransportError::Network(cause) => cause.clone(),
            TransportError::Http(status, body) => {
                let number = decimal_of(*status as u64);
                let mut s = joined("HTTP ", number.as_str());
                s.append(": ");
                s.append(body.as_str());
                s
            },
        }
    }
}

impl DecodeError {
    pub open spec fn spec_message(self) -> Seq<char> {
        match self {
            DecodeError::MalformedFrame(payload) => "JSON parse error: "@ + payload@,
            DecodeError::TruncatedStream => "Stream ended inside a frame"@,
            DecodeError::UnterminatedReasoning => "Stream ended inside a reasoning segment"@,
        }
    }

    /// The text shown to the user.
    pub fn message(&self) -> (s: String)
        ensures
            s@ == self.spec_message(),
    {
        match self {
            DecodeError::MalformedFrame(payload) => joined(
                "JSON parse error: ",
                payload.as_str(),
            ),
            DecodeError::TruncatedStream => String::from_str("Stream ended inside a frame"),
            DecodeError::UnterminatedReasoning => String::from_str(
                "Stream ended inside a reasoning segment",
            ),
        }
    }
}

impl ChatError {
    pub open spec fn spec_message(self) -> Seq<char> {
        match self {
            ChatError::Build(e) => e.spec_message(),
            ChatError::Transport(e) => "Failed to get chat completion response: "@
                + e.spec_message(),
            ChatError::Stream(e) => "Stream error: "@ + e.spec_message(),
            ChatError::Decode(e) => e.spec_message(),
        }
    }

    /// The text shown to the user.
    pub fn message(&self) -> (s: String)
        ensures
            s@ == self.spec_message(),
    {
        match self {
            ChatError::Build(e) => e.message(),
            ChatError::Transport(e) => {
                let inner = e.message();
                joined("Failed to get chat completion response: ", inner.as_str())
            },
            ChatError::Stream(e) => {
                let inner = e.message();
                joined("Stream error: ", inner.as_str())
            },
            ChatError::Decode(e) => e.message(),
        }
    }
}

impl ListError {
    pub open spec fn spec_message(self) -> Seq<char> {
        match self {
            ListError::Transport(_) => "Failed to list models"@,
            ListError::MalformedCatalog => "Failed to list models"@,
            ListError::Unsupported => "Model listing is not supported by this provider"@,
        }
    }

    /// The text shown to the user.
    pub fn message(&self) -> (s: String)
        ensures
            s@ == self.spec_message(),
    {
        match self {
            ListError::Transport(_) => String::from_str("Failed to list models"),
            ListError::MalformedCatalog => String::from_str("Failed to list models"),
            ListError::Unsupported => String::from_str(
                "Model listing is not supported by this provider",
            ),
        }
    }
}

} // verus!
