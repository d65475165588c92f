//! The decisions around the HTTP exchange: the address of the proxy and the
//! meaning of a status. The exchange itself is the caller's part.

use vstd::prelude::*;
use vstd::string::StringExecFns;
use crate::entities::ProxySetting;
use crate::errors::TransportError;
use crate::text::{decimal, decimal_of, joined, text_of};

verus! {

/// The address of the proxy of a setting: protocol, `://`, host, `:`, port.
pub open spec fn spec_proxy_address(setting: ProxySetting) -> Seq<char> {
    setting.protocol@ + "://"@ + setting.host@ + ":"@ + decimal(setting.port as nat)
}

/// The proxy to send every call through: the address of the setting where
/// there is a setting and it is enabled, none otherwise.
pub open spec fn spec_proxy_url(setting: Option<ProxySetting>) -> Option<Seq<char>> {
    match setting {
        Some(proxy) => if proxy.enabled {
            Some(spec_proxy_address(proxy))
        } else {
            None
        },
        None => None,
    }
}

/// The proxy to configure the HTTP client with, if any.
pub fn proxy_url(setting: &Option<ProxySetting>) -> (url: Option<String>)
    ensures
        text_of(url) == spec_proxy_url(*setting),
{
    match setting {
        Some(proxy) => {
            if proxy.enabled {
                let port = decimal_of(proxy.port as u64);
                let mut url = joined(proxy.protocol.as_str(), "://");
                url.append(proxy.host.as_str());
                url.append(":");
                url.append(port.as_str());
                Some(url)
            } else {
                None
            }
        },
        None => None,
    }
}

/// Whether a status means success.
pub open spec fn is_success(status: u16) -> bool {
    200 <= status <= 299
}

/// Whether a status means success.
pub fn succeeded(status: u16) -> (yes: bool)
    ensures
        yes == is_success(status),
{
    200 <= status && status <= 299
}

/// The body of a response that succeeded, or the failure that its status
/// stands for.
pub fn check_status(status: u16, body: String) -> (checked: Result<String, TransportError>)
    ensures
        checked == if is_success(status) {
            Ok::<String, TransportError>(body)
        } else {
            Err::<String, TransportError>(TransportError::Http(status, body))
        },
{
    if 200 <= status && status <= 299 {
        Ok(body)
    } else {
        Err(TransportError::Http(status, body))
    }
}

} // verus!
