use ai_chat::chat::{ChatConfig, Message};
use ai_chat::providers::{LLMProvider, RetryConfig};
use ai_chat::agent::AgentConfig;

#[test]
fn test_message_creation() {
    let msg = Message::user("Hello");
    assert_eq!(msg.role, "user");
    assert_eq!(msg.content, "Hello");
}

#[test]
fn test_default_config() {
    let config = ChatConfig::default();
    assert_eq!(config.model, "");
    assert_eq!(config.max_tokens, Some(1024));
}

#[test]
fn default_config_points_at_siliconflow() {
    let config = ChatConfig::default();
    assert_eq!(config.api_url, "https://api.siliconflow.cn/v1/chat/completions");
    assert_eq!(config.api_key, "");
    assert_eq!(config.temperature_bits, Some(0.7f32.to_bits()));
}

#[test]
fn assistant_and_system_messages() {
    let a = Message::assistant("done");
    assert_eq!(a.role, "assistant");
    assert_eq!(a.content, "done");
    let s = Message::system("be brief");
    assert_eq!(s.role, "system");
    assert_eq!(s.content, "be brief");
    let d = s.duplicate();
    assert_eq!(d.role, "system");
    assert_eq!(d.content, "be brief");
}

#[test]
fn provider_catalogue() {
    assert_eq!(LLMProvider::SiliconFlow.name(), "SiliconFlow");
    assert_eq!(LLMProvider::OpenRouter.name(), "OpenRouter");
    assert_eq!(LLMProvider::OpenAI.name(), "OpenAI");
    assert_eq!(LLMProvider::DeepSeek.name(), "DeepSeek");
    assert_eq!(LLMProvider::Generic.name(), "Generic");
    assert_eq!(LLMProvider::SiliconFlow.default_base_url(), "https://api.siliconflow.cn");
    assert_eq!(LLMProvider::OpenRouter.default_base_url(), "https://openrouter.ai/api");
    assert_eq!(LLMProvider::OpenAI.default_base_url(), "https://api.openai.com");
    assert_eq!(LLMProvider::DeepSeek.default_base_url(), "https://api.deepseek.com");
    assert_eq!(LLMProvider::Generic.default_base_url(), "");
    assert_eq!(LLMProvider::SiliconFlow.default_model(), "Qwen/Qwen2.5-7B-Instruct");
    assert_eq!(LLMProvider::OpenRouter.default_model(), "openai/gpt-4o");
    assert_eq!(LLMProvider::OpenAI.default_model(), "gpt-4o");
    assert_eq!(LLMProvider::DeepSeek.default_model(), "deepseek-chat");
    assert_eq!(LLMProvider::Generic.default_model(), "");
}

#[test]
fn retry_and_agent_defaults() {
    let r = RetryConfig::default();
    assert_eq!(r.max_retries, 3);
    assert_eq!(r.connect_timeout_ms, 30000);
    assert_eq!(r.socket_timeout_ms, 60000);
    assert_eq!(r.request_timeout_ms, 120000);
    assert_eq!(r.retry_on_status, vec![429, 500, 502, 503, 504]);
    assert_eq!(AgentConfig::default().max_iterations, 10);
}

#[test]
fn request_header_and_agent_temperature() {
    let mut c = ChatConfig::default();
    c.api_key = "sk-1".to_string();
    assert_eq!(c.authorization(), "Bearer sk-1");
    assert_eq!(c.agent_temperature_bits(), 0.7f32.to_bits());
    c.temperature_bits = None;
    assert_eq!(f32::from_bits(c.agent_temperature_bits()), 0.7f32);
    c.temperature_bits = Some(1.5f32.to_bits());
    assert_eq!(f32::from_bits(c.agent_temperature_bits()), 1.5f32);
}
