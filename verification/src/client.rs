//! The settings of the transport. The transport itself is built by the
//! caller; what it is built with is decided here, and a proxy URL that the
//! HTTP library would refuse is found out before anything is sent.

use vstd::prelude::*;
use crate::error::ConfigError;

verus! {

/// The cap on the number of redirects that are followed.
pub const MAX_REDIRECTS: u32 = 10;

/// Whether `reqwest::Proxy::all` accepts `url` as the URL of a proxy.
pub uninterp spec fn proxy_url_accepted(url: Seq<char>) -> bool;

/// Asks `reqwest::Proxy::all` whether it accepts `url`. Trusted: the answer
/// is the one named by `proxy_url_accepted`; the call parses the URL and
/// touches nothing else.
#[verifier::external_body]
pub(crate) fn proxy_accepted(url: &str) -> (ok: bool)
    ensures
        ok == proxy_url_accepted(url@),
{
    reqwest::Proxy::all(url).is_ok()
}

/// What the transport is built with.
#[derive(Clone, Debug, PartialEq, Eq)]
pub struct TransportSettings {
    /// The time limit of one attempt; `None` sets no limit.
    pub timeout_seconds: Option<u64>,
    /// The cap on redirects to follow; `None` leaves the transport's own
    /// policy in place.
    pub redirect_limit: Option<u32>,
    /// The proxy that all traffic goes through.
    pub proxy_url: Option<String>,
}

pub struct TransportSettingsModel {
    pub timeout_seconds: Option<u64>,
    pub redirect_limit: Option<u32>,
    pub proxy_url: Option<Seq<char>>,
}

impl View for TransportSettings {
    type V = TransportSettingsModel;

    open spec fn view(&self) -> TransportSettingsModel {
        TransportSettingsModel {
            timeout_seconds: self.timeout_seconds,
            redirect_limit: self.redirect_limit,
            proxy_url: match self.proxy_url {
                Some(url) => Some(url@),
                None => None,
            },
        }
    }
}

/// The settings for the given options: the time limit as given; redirects
/// capped at ten hops where they are to be followed; the proxy as given,
/// unless its URL is malformed, which refuses the settings.
pub open spec fn planned(
    timeout_seconds: Option<u64>,
    follow_redirects: bool,
    proxy_url: Option<Seq<char>>,
) -> Result<TransportSettingsModel, ConfigError> {
    match proxy_url {
        Some(url) if !proxy_url_accepted(url) => Err(ConfigError::MalformedProxy),
        _ => Ok(
            TransportSettingsModel {
                timeout_seconds,
                redirect_limit: if follow_redirects {
                    Some(MAX_REDIRECTS)
                } else {
                    None
                },
                proxy_url,
            },
        ),
    }
}

/// The model of transport settings, or of the error in their place.
pub open spec fn settings_model(r: Result<TransportSettings, ConfigError>) -> Result<
    TransportSettingsModel,
    ConfigError,
> {
    match r {
        Ok(settings) => Ok(settings@),
        Err(e) => Err(e),
    }
}

/// Decides what the transport is built with. No network is touched.
pub fn plan_transport(
    timeout_seconds: Option<u64>,
    follow_redirects: bool,
    proxy_url: Option<&str>,
) -> (r: Result<TransportSettings, ConfigError>)
    ensures
        settings_model(r) == planned(
            timeout_seconds,
            follow_redirects,
            match proxy_url {
                Some(url) => Some(url@),
                None => None,
            },
        ),
{
    let proxy = match proxy_url {
        Some(url) => {
            if !proxy_accepted(url) {
                return Err(ConfigError::MalformedProxy);
            }
            Some(url.to_owned())
        },
        None => None,
    };
    Ok(
        TransportSettings {
            timeout_seconds,
            redirect_limit: if follow_redirects {
                Some(MAX_REDIRECTS)
            } else {
                None
            },
            proxy_url: proxy,
        },
    )
}

} // verus!
