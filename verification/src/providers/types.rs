//! What the wire formats of the backends have in common.

use vstd::prelude::*;
use crate::json::{count_at, json_member, member, read_count, JsonMember};

verus! {

/// The common part of a chat completion request.
#[derive(Clone, Debug, PartialEq)]
pub struct ChatCompletionRequestCommon<N> {
    pub model: String,
    pub stream: Option<bool>,
    pub stream_options: Option<ChatCompletionStreamOptions>,
    pub temperature: Option<N>,
    pub top_p: Option<N>,
    pub max_tokens: Option<u32>,
    pub presence_penalty: Option<N>,
    pub frequency_penalty: Option<N>,
}

/// What a streamed response should carry besides content.
#[derive(Clone, Debug, PartialEq, Eq)]
pub struct ChatCompletionStreamOptions {
    pub include_usage: bool,
}

/// The common part of a chat completion response.
#[derive(Clone, Debug, PartialEq, Eq)]
pub struct ChatCompletionResponseCommon {
    pub usage: Option<Usage>,
}

/// The token counts that a backend reports.
#[derive(Clone, Debug, PartialEq, Eq)]
pub struct Usage {
    pub prompt_tokens: u32,
    pub completion_tokens: u32,
    pub total_tokens: u32,
    pub completion_tokens_details: Option<CompletionTokensDetails>,
    pub reasoning_tokens: Option<u32>,
}

/// The break-down of the completion tokens.
#[derive(Clone, Debug, PartialEq, Eq)]
pub struct CompletionTokensDetails {
    pub reasoning_tokens: Option<u32>,
}

/// One decoded unit of a response, whatever the backend: a whole buffered
/// response or one frame of a stream.
#[derive(Clone, Debug, PartialEq, Eq)]
pub struct ResponseFrame {
    /// The content carried, if any.
    pub content_delta: Option<String>,
    /// The prompt tokens, where the backend reports them.
    pub prompt_tokens: Option<u32>,
    /// The completion tokens, where the backend reports them.
    pub completion_tokens: Option<u32>,
    /// Whether the backend marks this unit as the last of its response.
    pub is_terminal: bool,
}

impl ResponseFrame {
    /// The content of the frame, empty where it carries none.
    pub open spec fn content(self) -> Seq<char> {
        match self.content_delta {
            Some(s) => s@,
            None => Seq::empty(),
        }
    }
}

/// The break-down of the completion tokens that a response payload holds
/// under `usage`: none where the member is left out or `null`; else it must
/// be an object, whose `reasoning_tokens` may be set to a count.
pub open spec fn spec_read_details(document: Seq<u8>) -> Option<Option<CompletionTokensDetails>> {
    match json_member(document, "/usage/completion_tokens_details"@) {
        Some(member) => if member.is_unset() {
            Some(None)
        } else if member is Object {
            match count_at(document, "/usage/completion_tokens_details/reasoning_tokens"@) {
                Some(reasoning_tokens) => Some(Some(CompletionTokensDetails { reasoning_tokens })),
                None => None,
            }
        } else {
            None
        },
        None => None,
    }
}

/// The token counts that a response payload holds: none where the member
/// `usage` is left out or `null`; else it must be an object with the three
/// counts `prompt_tokens`, `completion_tokens` and `total_tokens`.
pub open spec fn spec_read_usage(document: Seq<u8>) -> Option<Option<Usage>> {
    match json_member(document, "/usage"@) {
        Some(member) => if member.is_unset() {
            Some(None)
        } else if member is Object {
            match (
                count_at(document, "/usage/prompt_tokens"@),
                count_at(document, "/usage/completion_tokens"@),
                count_at(document, "/usage/total_tokens"@),
                spec_read_details(document),
                count_at(document, "/usage/reasoning_tokens"@),
            ) {
                (
                    Some(Some(prompt_tokens)),
                    Some(Some(completion_tokens)),
                    Some(Some(total_tokens)),
                    Some(completion_tokens_details),
                    Some(reasoning_tokens),
                ) => Some(
                    Some(
                        Usage {
                            prompt_tokens,
                            completion_tokens,
                            total_tokens,
                            completion_tokens_details,
                            reasoning_tokens,
                        },
                    ),
                ),
                _ => None,
            }
        } else {
            None
        },
        None => None,
    }
}

fn read_details(document: &[u8]) -> (details: Option<Option<CompletionTokensDetails>>)
    ensures
        details == spec_read_details(document@),
{
    match member(document, "/usage/completion_tokens_details") {
        Some(JsonMember::Absent) => Some(None),
        Some(JsonMember::Null) => Some(None),
        Some(JsonMember::Object) => {
            match read_count(document, "/usage/completion_tokens_details/reasoning_tokens") {
                Some(reasoning_tokens) => Some(Some(CompletionTokensDetails { reasoning_tokens })),
                None => None,
            }
        },
        _ => None,
    }
}

impl Usage {
    /// Reads the token counts of a response payload: see
    /// [`spec_read_usage`].
    pub fn read(document: &[u8]) -> (usage: Option<Option<Usage>>)
        ensures
            usage == spec_read_usage(document@),
    {
        match member(document, "/usage") {
            Some(JsonMember::Absent) => Some(None),
            Some(JsonMember::Null) => Some(None),
            Some(JsonMember::Object) => {
                let prompt_tokens = read_count(document, "/usage/prompt_tokens");
                let completion_tokens = read_count(document, "/usage/completion_tokens");
                let total_tokens = read_count(document, "/usage/total_tokens");
                let details = read_details(document);
                let reasoning_tokens = read_count(document, "/usage/reasoning_tokens");
                match (prompt_tokens, completion_tokens, total_tokens, details, reasoning_tokens) {
                    (
                        Some(Some(prompt_tokens)),
                        Some(Some(completion_tokens)),
                        Some(Some(total_tokens)),
                        Some(completion_tokens_details),
                        Some(reasoning_tokens),
                    ) => Some(
                        Some(
                            Usage {
                                prompt_tokens,
                                completion_tokens,
                                total_tokens,
                                completion_tokens_details,
                                reasoning_tokens,
                            },
                        ),
                    ),
                    _ => None,
                }
            },
            _ => None,
        }
    }
}

} // verus!
