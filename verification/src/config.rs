//! Settings groups that hold no floating-point values.

use vstd::prelude::*;

verus! {

/// Where the Logseq pages live on GitHub.
#[derive(Debug)]
pub struct GithubSettings {
    pub github_access_token: String,
    pub github_owner: String,
    pub github_repo: String,
    pub github_directory: String,
}

/// Access to the RAGFlow service.
#[derive(Debug)]
pub struct RagflowSettings {
    pub ragflow_api_key: String,
    pub ragflow_api_base_url: String,
}

/// Access to the OpenAI service.
#[derive(Debug)]
pub struct OpenAISettings {
    pub openai_api_key: String,
    pub openai_base_url: String,
}

/// Request limits.
#[derive(Debug)]
pub struct DefaultSettings {
    pub max_concurrent_requests: usize,
    pub max_retries: usize,
    pub retry_delay: u64,
    pub api_client_timeout: u64,
}

} // verus!
