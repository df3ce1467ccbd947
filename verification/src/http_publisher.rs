//! What is particular to the HTTP sink: when it is switched on, and where it
//! posts to.

use vstd::prelude::*;
use crate::config::{Config, ConfigView};
use crate::publisher::{SinkTarget, SinkTargetView};

verus! {

/// Whether the configuration switches the HTTP sink on: it is enabled and has
/// an address to post to.
pub open spec fn spec_is_enabled(config: ConfigView) -> bool {
    config.http.enabled && config.http.url.len() > 0
}

/// The endpoint that the HTTP sink posts to under `config`.
pub open spec fn spec_target(config: ConfigView) -> SinkTargetView {
    SinkTargetView::Endpoint { url: config.http.url }
}

/// Whether the configuration switches the HTTP sink on.
pub fn is_enabled(config: &Config) -> (b: bool)
    ensures
        b == spec_is_enabled(config@),
{
    config.http.enabled && !config.http.url.as_str().is_empty()
}

/// The endpoint that the HTTP sink posts to under `config`.
pub fn target(config: &Config) -> (t: SinkTarget)
    ensures
        t@ == spec_target(config@),
{
    SinkTarget::Endpoint { url: config.http.url.clone() }
}

} // verus!
