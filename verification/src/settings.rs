//! The global settings as they are stored: a JSON document under the
//! general settings key, of which the gateway reads the token ceiling.

use vstd::prelude::*;
use crate::chat::GlobalSettings;
use crate::json::{bytes_of, document_of, json_member, member, JsonMember};

verus! {

/// The token ceiling that a stored member stands for: an integer from 0 to
/// 2^64 - 1, held at the largest ceiling there is where it is above it, and
/// 0, which means no ceiling, for whatever else stands there.
pub open spec fn spec_max_tokens_of(member: JsonMember) -> u32 {
    match member {
        JsonMember::Number(_, Some(n)) => if n <= u32::MAX {
            n as u32
        } else {
            u32::MAX
        },
        _ => 0,
    }
}

/// The token ceiling that a stored member stands for.
pub fn max_tokens_of(member: JsonMember) -> (ceiling: u32)
    ensures
        ceiling == spec_max_tokens_of(member),
{
    match member {
        JsonMember::Number(_, Some(n)) => if n <= 0xffff_ffff {
            n as u32
        } else {
            0xffff_ffff
        },
        _ => 0,
    }
}

/// The global settings of a stored general settings document: the ceiling
/// is its member `maxTokens`. Without a document there is no ceiling, and
/// what is stored but is no JSON document gives no settings.
pub open spec fn spec_max_tokens(setting: Option<Seq<char>>) -> Option<GlobalSettings> {
    match setting {
        None => Some(GlobalSettings { max_tokens: 0 }),
        Some(text) => match json_member(bytes_of(text), "/maxTokens"@) {
            Some(member) => Some(GlobalSettings { max_tokens: spec_max_tokens_of(member) }),
            None => None,
        },
    }
}

/// The global settings of the stored general settings document; `setting`
/// is `None` where nothing is stored. See [`spec_max_tokens`].
pub fn get_max_tokens(setting: Option<&str>) -> (settings: Option<GlobalSettings>)
    ensures
        settings == spec_max_tokens(
            match setting {
                Some(text) => Some(text@),
                None => None,
            },
        ),
{
    match setting {
        None => Some(GlobalSettings { max_tokens: 0 }),
        Some(text) => match member(document_of(text), "/maxTokens") {
            Some(found) => Some(GlobalSettings { max_tokens: max_tokens_of(found) }),
            None => None,
        },
    }
}

} // verus!
