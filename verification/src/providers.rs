//! Provider catalogue and the plain data model shared by provider clients.

use vstd::prelude::*;
use crate::text::{decimal, decimal_string};

verus! {

/// Errors that a provider client reports.
#[derive(Debug)]
pub enum ClientError {
    Network(String),
    Api { status: u16, message: String, code: Option<String> },
    Parse(String),
    Auth(String),
    RateLimit(String),
}

/// The text that describes a provider client error.
pub open spec fn client_error_text(e: ClientError) -> Seq<char> {
    match e {
        ClientError::Network(m) => "Network error: "@ + m@,
        ClientError::Api { status, message, code } => "API error ("@ + decimal(status as nat)
            + "): "@ + message@,
        ClientError::Parse(m) => "Parse error: "@ + m@,
        ClientError::Auth(m) => "Auth error: "@ + m@,
        ClientError::RateLimit(m) => "Rate limit exceeded: "@ + m@,
    }
}

impl ClientError {
    /// The text that describes this error.
    pub fn to_string(&self) -> (r: String)
        ensures
            r@ == client_error_text(*self),
    {
        match self {
            ClientError::Network(m) => String::from_str("Network error: ").concat(m.as_str()),
            ClientError::Api { status, message, code: _ } => {
                let s = decimal_string(*status as u64);
                String::from_str("API error (").concat(s.as_str()).concat("): ").concat(
                    message.as_str(),
                )
            },
            ClientError::Parse(m) => String::from_str("Parse error: ").concat(m.as_str()),
            ClientError::Auth(m) => String::from_str("Auth error: ").concat(m.as_str()),
            ClientError::RateLimit(m) => String::from_str("Rate limit exceeded: ").concat(
                m.as_str(),
            ),
        }
    }
}

/// A message in the provider-neutral chat format, with optional tool data.
#[derive(Debug, Clone)]
pub struct ChatMessage {
    pub role: String,
    pub content: String,
    pub name: Option<String>,
    pub tool_calls: Option<Vec<ToolCallDef>>,
    pub tool_call_id: Option<String>,
}

/// A tool call requested by the model.
#[derive(Debug, Clone)]
pub struct ToolCallDef {
    pub id: String,
    pub call_type: String,
    pub function: FunctionCallDef,
}

/// The function and arguments of a tool call.
#[derive(Debug, Clone)]
pub struct FunctionCallDef {
    pub name: String,
    pub arguments: String,
}

/// Token counts reported for a completion.
#[derive(Debug, Clone)]
pub struct Usage {
    pub prompt_tokens: Option<u64>,
    pub completion_tokens: Option<u64>,
    pub total_tokens: Option<u64>,
}

/// A completion with its metadata.
#[derive(Debug, Clone)]
pub struct ChatResult {
    pub content: String,
    pub usage: Option<Usage>,
    pub finish_reason: Option<String>,
    pub tool_calls: Vec<ToolCallResult>,
    pub thinking: Option<String>,
}

/// A tool call found in a completion.
#[derive(Debug, Clone)]
pub struct ToolCallResult {
    pub id: String,
    pub name: String,
    pub arguments: String,
}

/// One currency balance of an account.
#[derive(Debug, Clone)]
pub struct BalanceDetail {
    pub currency: String,
    pub total_balance: String,
    pub granted_balance: String,
    pub topped_up_balance: String,
}

/// Account balances.
#[derive(Debug, Clone)]
pub struct BalanceInfo {
    pub is_available: bool,
    pub balances: Vec<BalanceDetail>,
}

/// How requests are retried and timed out.
#[derive(Debug, Clone)]
pub struct RetryConfig {
    pub max_retries: u32,
    pub connect_timeout_ms: u64,
    pub socket_timeout_ms: u64,
    pub request_timeout_ms: u64,
    pub retry_on_status: Vec<u16>,
}

impl Default for RetryConfig {
    fn default() -> (c: RetryConfig)
        ensures
            c.max_retries == 3,
            c.connect_timeout_ms == 30000,
            c.socket_timeout_ms == 60000,
            c.request_timeout_ms == 120000,
            c.retry_on_status@ == seq![429u16, 500u16, 502u16, 503u16, 504u16],
    {
        RetryConfig {
            max_retries: 3,
            connect_timeout_ms: 30000,
            socket_timeout_ms: 60000,
            request_timeout_ms: 120000,
            retry_on_status: vec![429, 500, 502, 503, 504],
        }
    }
}

/// An endpoint that serves a model on OpenRouter.
#[derive(Debug, Clone)]
pub struct OpenRouterEndpoint {
    pub name: String,
    pub model_id: String,
    pub model_name: String,
    pub context_length: i64,
    pub pricing: OpenRouterPricing,
    pub provider_name: String,
    pub tag: Option<String>,
    pub max_completion_tokens: Option<i64>,
}

/// Prices of an OpenRouter endpoint, as the service writes them.
#[derive(Debug, Clone)]
pub struct OpenRouterPricing {
    pub prompt: String,
    pub completion: String,
    pub request: String,
    pub image: String,
}

/// The endpoints of an OpenRouter model.
#[derive(Debug, Clone)]
pub struct OpenRouterModelEndpoints {
    pub data: OpenRouterModelEndpointData,
}

/// A model and its endpoints on OpenRouter.
#[derive(Debug, Clone)]
pub struct OpenRouterModelEndpointData {
    pub id: String,
    pub name: String,
    pub description: Option<String>,
    pub endpoints: Vec<OpenRouterEndpoint>,
}

/// The LLM services known to the library.
#[derive(Debug, Clone, Copy, PartialEq, Eq, Structural)]
pub enum LLMProvider {
    SiliconFlow,
    OpenRouter,
    OpenAI,
    DeepSeek,
    Generic,
}

impl LLMProvider {
    /// Display name of the provider.
    pub open spec fn spec_name(self) -> Seq<char> {
        match self {
            LLMProvider::SiliconFlow => "SiliconFlow"@,
            LLMProvider::OpenRouter => "OpenRouter"@,
            LLMProvider::OpenAI => "OpenAI"@,
            LLMProvider::DeepSeek => "DeepSeek"@,
            LLMProvider::Generic => "Generic"@,
        }
    }

    /// Base URL of the provider's API (empty for a generic endpoint).
    pub open spec fn spec_base_url(self) -> Seq<char> {
        match self {
            LLMProvider::SiliconFlow => "https://api.siliconflow.cn"@,
            LLMProvider::OpenRouter => "https://openrouter.ai/api"@,
            LLMProvider::OpenAI => "https://api.openai.com"@,
            LLMProvider::DeepSeek => "https://api.deepseek.com"@,
            LLMProvider::Generic => ""@,
        }
    }

    /// Model used when the caller names none.
    pub open spec fn spec_default_model(self) -> Seq<char> {
        match self {
            LLMProvider::SiliconFlow => "Qwen/Qwen2.5-7B-Instruct"@,
            LLMProvider::OpenRouter => "openai/gpt-4o"@,
            LLMProvider::OpenAI => "gpt-4o"@,
            LLMProvider::DeepSeek => "deepseek-chat"@,
            LLMProvider::Generic => ""@,
        }
    }

    pub fn name(&self) -> (r: &str)
        ensures
            r@ == self.spec_name(),
    {
        match self {
            LLMProvider::SiliconFlow => "SiliconFlow",
            LLMProvider::OpenRouter => "OpenRouter",
            LLMProvider::OpenAI => "OpenAI",
            LLMProvider::DeepSeek => "DeepSeek",
            LLMProvider::Generic => "Generic",
        }
    }

    pub fn default_base_url(&self) -> (r: &str)
        ensures
            r@ == self.spec_base_url(),
    {
        match self {
            LLMProvider::SiliconFlow => "https://api.siliconflow.cn",
            LLMProvider::OpenRouter => "https://openrouter.ai/api",
            LLMProvider::OpenAI => "https://api.openai.com",
            LLMProvider::DeepSeek => "https://api.deepseek.com",
            LLMProvider::Generic => "",
        }
    }

    pub fn default_model(&self) -> (r: &str)
        ensures
            r@ == self.spec_default_model(),
    {
        match self {
            LLMProvider::SiliconFlow => "Qwen/Qwen2.5-7B-Instruct",
            LLMProvider::OpenRouter => "openai/gpt-4o",
            LLMProvider::OpenAI => "gpt-4o",
            LLMProvider::DeepSeek => "deepseek-chat",
            LLMProvider::Generic => "",
        }
    }
}

} // verus!
