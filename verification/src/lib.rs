//! A chat client for OpenAI-compatible LLM services, with a single-shot
//! reasoning agent and a registry that hands clients out by numeric id.
//!
//! The network, JSON decoding and the JNI boundary live outside this crate;
//! everything that decides what is sent, what a reply means and what is
//! handed back is verified here.

pub mod providers;
pub mod text;
pub mod json;
pub mod chat;
pub mod agent;
pub mod registry;
pub mod native;

pub use providers::{
    BalanceDetail, BalanceInfo, ChatMessage, ChatResult, ClientError, FunctionCallDef,
    LLMProvider, OpenRouterEndpoint, OpenRouterModelEndpointData, OpenRouterModelEndpoints,
    OpenRouterPricing, RetryConfig, ToolCallDef, ToolCallResult, Usage,
};
pub use chat::{ChatClient, ChatConfig, ChatError, Message};
pub use agent::{Agent, AgentConfig, AgentResult, AgentStep};
