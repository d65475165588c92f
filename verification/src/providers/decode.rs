//! Reading a payload as a frame, whatever the backend.

use vstd::prelude::*;
use crate::entities::Providers;
use crate::errors::DecodeError;
use crate::json::{lossy_text, shown};
use crate::providers::custom::{frame_of, spec_read_parts, CustomChatCompletionResponse};
use crate::providers::ollama::OllamaChatCompletionResponse;
use crate::providers::types::ResponseFrame;

verus! {

impl ResponseFrame {
    /// The frame that a payload of a backend of the given kind holds; none
    /// where the payload has not the shape of a response of that kind.
    pub open spec fn spec_read(kind: Providers, document: Seq<u8>) -> Option<ResponseFrame> {
        match kind {
            Providers::Ollama => match OllamaChatCompletionResponse::spec_read(document) {
                Some(response) => Some(response.spec_frame()),
                None => None,
            },
            Providers::Custom => match spec_read_parts(document) {
                Some((usage, first)) => Some(frame_of(usage, first)),
                None => None,
            },
        }
    }

    /// What reading a payload comes to: the frame that it holds, or else
    /// the report of a malformed frame, with the payload as text.
    pub open spec fn spec_decoded(kind: Providers, document: Seq<u8>) -> Result<
        ResponseFrame,
        DecodeError,
    > {
        match ResponseFrame::spec_read(kind, document) {
            Some(frame) => Ok(frame),
            None => Err(DecodeError::MalformedFrame(lossy_text(document))),
        }
    }

    /// The frame that a payload holds: see [`ResponseFrame::spec_read`].
    pub fn parse(kind: Providers, payload: &[u8]) -> (frame: Option<ResponseFrame>)
        ensures
            frame == ResponseFrame::spec_read(kind, payload@),
    {
        match kind {
            Providers::Ollama => match OllamaChatCompletionResponse::read(payload) {
                Some(response) => Some(response.into_frame()),
                None => None,
            },
            Providers::Custom => match CustomChatCompletionResponse::read(payload) {
                Some(response) => Some(response.into_frame()),
                None => None,
            },
        }
    }

    /// Reads a payload as a frame: see [`ResponseFrame::spec_decoded`].
    pub fn read(kind: Providers, payload: &[u8]) -> (decoded: Result<ResponseFrame, DecodeError>)
        ensures
            decoded == ResponseFrame::spec_decoded(kind, payload@),
    {
        match ResponseFrame::parse(kind, payload) {
            Some(frame) => Ok(frame),
            None => Err(DecodeError::MalformedFrame(shown(payload))),
        }
    }
}

} // verus!
