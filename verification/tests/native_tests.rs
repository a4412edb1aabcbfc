use ai_chat::agent::{AgentResult, AgentStep};
use ai_chat::chat::{ChatConfig, ChatError};
use ai_chat::native::{
    agent_result_to_json, config_to_json, native_agent_config, native_config, parse_client_id,
    provider_base_url, register_client, reply_text, resolve_client, LookupError,
};
use ai_chat::registry::ClientRegistry;

#[test]
fn client_ids_count_up_and_resolve() {
    let mut reg: ClientRegistry<&'static str> = ClientRegistry::new();
    let a = register_client(&mut reg, "first");
    let b = register_client(&mut reg, "second");
    assert_eq!(a, "1");
    assert_eq!(b, "2");
    assert_eq!(resolve_client(&reg, &a), Ok(1));
    assert_eq!(reg.get(2), Some(&"second"));
    assert_eq!(resolve_client(&reg, "abc"), Err(LookupError::InvalidId));
    assert_eq!(resolve_client(&reg, "3"), Err(LookupError::NotFound));
    reg.remove(1);
    assert_eq!(resolve_client(&reg, &a), Err(LookupError::NotFound));
    let c = register_client(&mut reg, "third");
    assert_eq!(c, "3");
    if let Some(v) = reg.get_mut(3) {
        *v = "changed";
    }
    assert_eq!(reg.get(3), Some(&"changed"));
    assert_eq!(reg.last_id(), 3);
    assert_eq!(LookupError::InvalidId.to_string(), "Error: Invalid client ID");
    assert_eq!(LookupError::NotFound.to_string(), "Error: Client not found");
    assert_eq!(parse_client_id("12"), Some(12));
}

#[test]
fn host_configuration() {
    let c = native_config("u", "k", "m", 0, 0.5f32.to_bits());
    assert_eq!(c.max_tokens, None);
    assert_eq!(c.temperature_bits, Some(0.5f32.to_bits()));
    let c = native_config("u", "k", "m", 256, 0);
    assert_eq!((c.api_url.as_str(), c.api_key.as_str(), c.model.as_str()), ("u", "k", "m"));
    assert_eq!(c.max_tokens, Some(256));
    assert_eq!(native_agent_config(0).max_iterations, 10);
    assert_eq!(native_agent_config(-3).max_iterations, 10);
    assert_eq!(native_agent_config(4).max_iterations, 4);
}

#[test]
fn provider_urls_by_name() {
    assert_eq!(provider_base_url("SiliconFlow"), "https://api.siliconflow.cn");
    assert_eq!(provider_base_url("OpenRouter"), "https://openrouter.ai/api");
    assert_eq!(provider_base_url("DeepSeek"), "https://api.deepseek.com");
    assert_eq!(provider_base_url("OpenAI"), "");
    assert_eq!(provider_base_url("Custom"), "");
}

#[test]
fn reply_texts() {
    assert_eq!(reply_text(&Ok("hi".to_string())), "hi");
    assert_eq!(
        reply_text(&Err(ChatError::InvalidResponse("No choices in response".to_string()))),
        "Error: Invalid response: No choices in response"
    );
}

#[test]
fn agent_result_json() {
    let r = AgentResult {
        success: true,
        answer: "4 \"four\"".to_string(),
        steps: vec![
            AgentStep { step_type: "thought".to_string(), content: "add\n".to_string() },
            AgentStep { step_type: "final_answer".to_string(), content: "4".to_string() },
        ],
        error: None,
    };
    assert_eq!(
        agent_result_to_json(&r),
        r#"{"success":true,"answer":"4 \"four\"","steps":[{"type":"thought","content":"add\n"},{"type":"final_answer","content":"4"}]}"#
    );
    let e = AgentResult { success: false, answer: "x".to_string(), steps: vec![], error: Some("y".to_string()) };
    assert_eq!(agent_result_to_json(&e), r#"{"success":false,"answer":"x","steps":[]}"#);
}

#[test]
fn default_config_json() {
    let j = config_to_json(&ChatConfig::default(), "0.7");
    assert_eq!(
        j,
        r#"{"api_url":"https://api.siliconflow.cn/v1/chat/completions","model":"","max_tokens":1024,"temperature":0.7,"providers":["SiliconFlow","OpenRouter","DeepSeek","Custom"],"provider_urls":{"SiliconFlow":"https://api.siliconflow.cn","OpenRouter":"https://openrouter.ai/api","DeepSeek":"https://api.deepseek.com","Custom":""}}"#
    );
    let v: serde_json::Value = serde_json::from_str(&j).unwrap();
    assert_eq!(v["max_tokens"], 1024);
}
