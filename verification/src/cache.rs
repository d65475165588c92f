//! The prompt cache as the gateway's callers see it: the prompts and the
//! notice that goes out when they change.

use vstd::prelude::*;
use vstd::string::StringExecFns;

verus! {

/// A named prompt.
#[derive(Clone, Debug, PartialEq, Eq)]
pub struct Prompt {
    pub name: String,
    pub content: String,
}

impl Prompt {
    /// A prompt of the given name and content.
    pub fn new(name: String, content: String) -> (prompt: Self)
        ensures
            prompt.name == name,
            prompt.content == content,
    {
        Self { name, content }
    }
}

/// The notice that a cache entry has changed: the key of the entry and its
/// new value.
#[derive(Clone, Debug, PartialEq, Eq)]
pub struct CacheChangeEvent<T> {
    pub key: String,
    pub value: T,
}

/// The key under which the prompts are cached.
pub open spec fn spec_prompts_key() -> Seq<char> {
    "prompts"@
}

impl<T> CacheChangeEvent<T> {
    /// The notice that the cached prompts have changed to `value`.
    pub fn prompts(value: T) -> (event: Self)
        ensures
            event.key@ == spec_prompts_key(),
            event.value == value,
    {
        CacheChangeEvent { key: String::from_str("prompts"), value }
    }
}

} // verus!
