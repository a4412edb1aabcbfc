use ai_chat::agent::{
    compose_status_line, status_text, Agent, AgentAction, AgentConfig, AgentEvent, AgentResult,
};
use ai_chat::chat::{ApiResponse, Choice, ChoiceMessage, Message};

fn reply(text: &str) -> ApiResponse {
    ApiResponse {
        choices: vec![Choice { message: ChoiceMessage { content: text.to_string() } }],
        error: None,
    }
}

fn finished(a: AgentAction) -> AgentResult {
    match a {
        AgentAction::Finish(r) => r,
        _ => panic!("run did not finish"),
    }
}

fn started(max: usize) -> ai_chat::agent::AgentRun {
    let agent = Agent::new(AgentConfig { max_iterations: max });
    let (run, action) = agent.start("2+2?");
    match action {
        AgentAction::Send(msgs) => {
            assert_eq!(msgs.len(), 2);
            assert_eq!(msgs[0].role, "system");
            assert!(msgs[0].content.starts_with("你是一个智能助手"));
            assert_eq!(msgs[1].role, "user");
            assert_eq!(msgs[1].content, "任务: 2+2?");
        }
        _ => panic!("expected a request"),
    }
    run
}

#[test]
fn extract_tag_reads_trimmed_content() {
    assert_eq!(
        Agent::extract_tag("<thought>think</thought>\n<final_answer>  4 \n</final_answer>", "final_answer"),
        Some("4".to_string())
    );
    assert_eq!(Agent::extract_tag("<thought>a</thought>", "thought"), Some("a".to_string()));
    assert_eq!(Agent::extract_tag("<thought>open only", "thought"), None);
    assert_eq!(Agent::extract_tag("no tags", "thought"), None);
    assert_eq!(Agent::extract_tag("</thought>x<thought>y</thought>", "thought"), Some("y".to_string()));
    assert_eq!(Agent::extract_tag("<t>a</t><t>b</t>", "t"), Some("a".to_string()));
}

#[test]
fn zero_iterations_fail_at_once() {
    let agent = Agent::new(AgentConfig { max_iterations: 0 });
    let (_run, action) = agent.start("task");
    let r = finished(action);
    assert!(!r.success);
    assert_eq!(r.answer, "超过最大迭代次数限制");
    assert_eq!(r.error, Some("已达到 0 次迭代上限".to_string()));
    assert!(r.steps.is_empty());
}

#[test]
fn final_answer_reply_succeeds() {
    let mut run = started(10);
    let a = run.advance(AgentEvent::Responded { status: 200 });
    assert!(matches!(a, AgentAction::ReadBody));
    let r = finished(run.advance(AgentEvent::Decoded {
        response: reply("<thought>add</thought><final_answer> 4 </final_answer>"),
    }));
    assert!(r.success);
    assert_eq!(r.answer, "4");
    assert_eq!(r.error, None);
    assert_eq!(r.steps.len(), 1);
    assert_eq!(r.steps[0].step_type, "final_answer");
    assert_eq!(r.steps[0].content, "4");
}

#[test]
fn thought_only_reply_answers_with_whole_text() {
    let mut run = started(3);
    let text = "<thought>hmm</thought> it is 4";
    let r = finished(run.advance(AgentEvent::Decoded { response: reply(text) }));
    assert!(r.success);
    assert_eq!(r.answer, text);
    assert_eq!(r.steps.len(), 2);
    assert_eq!(r.steps[0].step_type, "thought");
    assert_eq!(r.steps[0].content, "hmm");
    assert_eq!(r.steps[1].step_type, "final_answer");
    assert_eq!(r.steps[1].content, text);
}

#[test]
fn plain_reply_answers_with_whole_text() {
    let mut run = started(1);
    let r = finished(run.advance(AgentEvent::Decoded { response: reply("4") }));
    assert!(r.success);
    assert_eq!(r.answer, "4");
    assert_eq!(r.steps.len(), 1);
    assert_eq!(r.steps[0].step_type, "final_answer");
}

#[test]
fn failures_end_the_run() {
    let mut run = started(10);
    let r = finished(run.advance(AgentEvent::SendFailed { detail: "timeout".to_string() }));
    assert!(!r.success);
    assert_eq!(r.answer, "请求失败: timeout");
    assert_eq!(r.error, Some("timeout".to_string()));

    let mut run = started(10);
    let r = finished(run.advance(AgentEvent::Responded { status: 404 }));
    assert_eq!(r.answer, "API 返回错误 (状态码: 404 Not Found)");
    assert_eq!(r.error, Some("HTTP 404 Not Found".to_string()));

    let mut run = started(10);
    let r = finished(run.advance(AgentEvent::Undecodable { detail: "bad json".to_string() }));
    assert_eq!(r.answer, "解析响应失败: bad json");
    assert_eq!(r.error, Some("bad json".to_string()));

    let mut run = started(10);
    let r = finished(run.advance(AgentEvent::Decoded {
        response: ApiResponse { choices: vec![], error: None },
    }));
    assert!(!r.success);
    assert_eq!(r.answer, "AI 未返回有效回复");
    assert_eq!(r.error, Some("空响应".to_string()));
    let _ = Message::user("unused");
}

#[test]
fn status_lines_match_the_http_crate() {
    assert_eq!(status_text(404), "404 Not Found");
    assert_eq!(status_text(200), "200 OK");
    assert_eq!(status_text(599), "599 <unknown status code>");
    assert_eq!(status_text(42), "42 <unknown status code>");
    for code in 100u16..1000 {
        let expected = reqwest::StatusCode::from_u16(code).unwrap().to_string();
        assert_eq!(status_text(code), expected);
    }
    assert_eq!(compose_status_line(418, &Some("Teapot".to_string())), "418 Teapot");
    assert_eq!(compose_status_line(7, &None), "7 <unknown status code>");
}

#[test]
fn server_error_status_ends_the_run() {
    let mut run = started(2);
    let r = finished(run.advance(AgentEvent::Responded { status: 503 }));
    assert_eq!(r.answer, "API 返回错误 (状态码: 503 Service Unavailable)");
    assert_eq!(r.error, Some("HTTP 503 Service Unavailable".to_string()));
}
