//! What one invocation logs: the request, the response or error, and
//! timings.  Writing the entry out is left to the surrounding process.

use vstd::prelude::*;

use crate::configs::config::Config;
use crate::persona::Persona;

verus! {

/// One log entry, one per invocation.
#[derive(Debug, Clone)]
pub struct RequestLogEntry {
    pub time: String,
    pub config: ConfigForLogging,
    pub user_prompt: String,
    pub response: String,
    pub error: String,
    pub llm_response_time_ms: u64,
    pub total_runtime_ms: u64,
}

/// The resolved configuration as logged: everything but the raw API key.
#[derive(Debug, Clone)]
pub struct ConfigForLogging {
    pub provider: String,
    pub model: String,
    pub persona: Option<Persona>,
    pub auto_copy: bool,
}

impl ConfigForLogging {
    /// What the log records of a configuration: the provider's identifier
    /// and the model, never the API key.
    pub fn from_config(config: &Config) -> (r: ConfigForLogging)
        ensures
            r.provider@ == crate::provider::spec_provider_name(config.provider),
            r.model@ == config.model@,
            r.persona == config.persona,
            r.auto_copy == config.auto_copy,
    {
        ConfigForLogging {
            provider: config.provider.name().to_owned(),
            model: config.model.clone(),
            persona: config.persona,
            auto_copy: config.auto_copy,
        }
    }
}

} // verus!
