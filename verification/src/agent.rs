//! A single-shot reasoning agent. The agent asks the service once and reads
//! a `<final_answer>` (or, failing that, a `<thought>` and the whole reply)
//! out of the answer. The exchange itself is run by the caller: the agent
//! says what to send and turns each thing that happens into its next step.

use vstd::prelude::*;
use crate::chat::{ApiResponse, Message, MessageView, message_view, messages_view, duplicate_messages};
use crate::text::{
    lemma_first_match_at_boundary, lemma_first_match_at_start, lemma_first_match_extend,
    lemma_first_match_shift,
    chars_of, decimal, decimal_string, find_from, first_match, first_match_from, slice_chars,
    string_from_chars, trim, trim_chars,
};

verus! {

/// One step of an agent run.
#[derive(Debug, Clone)]
pub struct AgentStep {
    pub step_type: String,
    pub content: String,
}

/// The abstract content of an [`AgentStep`].
pub struct AgentStepView {
    pub step_type: Seq<char>,
    pub content: Seq<char>,
}

impl View for AgentStep {
    type V = AgentStepView;

    open spec fn view(&self) -> AgentStepView {
        AgentStepView { step_type: self.step_type@, content: self.content@ }
    }
}

/// A step with the given type and content.
pub open spec fn step_view(step_type: Seq<char>, content: Seq<char>) -> AgentStepView {
    AgentStepView { step_type, content }
}

/// The abstract contents of a list of steps.
pub open spec fn steps_view(s: Seq<AgentStep>) -> Seq<AgentStepView> {
    s.map_values(|st: AgentStep| st@)
}

/// The abstract content of an optional string.
pub open spec fn opt_view(o: Option<String>) -> Option<Seq<char>> {
    match o {
        Some(s) => Some(s@),
        None => None,
    }
}

/// What an agent run produced.
#[derive(Debug, Clone)]
pub struct AgentResult {
    pub success: bool,
    pub answer: String,
    pub steps: Vec<AgentStep>,
    pub error: Option<String>,
}

/// The abstract content of an [`AgentResult`].
pub struct AgentResultView {
    pub success: bool,
    pub answer: Seq<char>,
    pub steps: Seq<AgentStepView>,
    pub error: Option<Seq<char>>,
}

impl View for AgentResult {
    type V = AgentResultView;

    open spec fn view(&self) -> AgentResultView {
        AgentResultView {
            success: self.success,
            answer: self.answer@,
            steps: steps_view(self.steps@),
            error: opt_view(self.error),
        }
    }
}

/// How many requests an agent may make.
#[derive(Debug, Clone)]
pub struct AgentConfig {
    pub max_iterations: usize,
}

impl Default for AgentConfig {
    fn default() -> (c: AgentConfig)
        ensures
            c.max_iterations == 10,
    {
        AgentConfig { max_iterations: 10 }
    }
}

/// The instructions the agent gives the model.
pub open spec fn agent_system_prompt() -> Seq<char> {
    "你是一个智能助手，请仔细思考并回答问题。\n\n## 响应格式\n请严格按照以下格式响应，使用 XML 标签标记每个部分：\n\n<thought>你的思考过程</thought>\n<final_answer>你的最终答案</final_answer>\n\n## 规则\n1. 保持思考过程简洁但有逻辑\n2. 最终答案要清晰明确"@
}

/// The user message that states the task.
pub open spec fn task_message(task: Seq<char>) -> MessageView {
    message_view("user"@, "任务: "@ + task)
}

/// The opening tag `<tag>`.
pub open spec fn open_tag(tag: Seq<char>) -> Seq<char> {
    seq!['<'] + tag + seq!['>']
}

/// The closing tag `</tag>`.
pub open spec fn close_tag(tag: Seq<char>) -> Seq<char> {
    seq!['<', '/'] + tag + seq!['>']
}

/// The trimmed text between the first `<tag>` of `content` and the first
/// `</tag>` after it, if both occur.
pub open spec fn tag_content(content: Seq<char>, tag: Seq<char>) -> Option<Seq<char>> {
    match first_match(content, open_tag(tag)) {
        Some(i) => {
            let start = i + open_tag(tag).len();
            match first_match_from(content, close_tag(tag), start) {
                Some(j) => Some(trim(content.subrange(start, j))),
                None => None,
            }
        },
        None => None,
    }
}

/// A failed run with the steps taken so far.
pub open spec fn failed_run(
    steps: Seq<AgentStepView>,
    answer: Seq<char>,
    error: Seq<char>,
) -> AgentResultView {
    AgentResultView { success: false, answer, steps, error: Some(error) }
}

/// The run that ends with the model's reply `reply`: its `<final_answer>` if
/// it has one; otherwise its `<thought>` (if any) and the whole reply as
/// the answer.
pub open spec fn answered_run(steps: Seq<AgentStepView>, reply: Seq<char>) -> AgentResultView {
    match tag_content(reply, "final_answer"@) {
        Some(fa) => AgentResultView {
            success: true,
            answer: fa,
            steps: steps.push(step_view("final_answer"@, fa)),
            error: None,
        },
        None => {
            let with_thought = match tag_content(reply, "thought"@) {
                Some(t) => steps.push(step_view("thought"@, t)),
                None => steps,
            };
            AgentResultView {
                success: true,
                answer: reply,
                steps: with_thought.push(step_view("final_answer"@, reply)),
                error: None,
            }
        },
    }
}

/// The run of an agent allowed no request at all.
pub open spec fn exhausted_run(max_iterations: nat) -> AgentResultView {
    failed_run(
        Seq::empty(),
        "超过最大迭代次数限制"@,
        "已达到 "@ + decimal(max_iterations) + " 次迭代上限"@,
    )
}

/// What `StatusCode::canonical_reason` (the `http` crate's status type, as
/// `reqwest` re-exports it) gives for a status code.
pub uninterp spec fn http_canonical_reason(code: u16) -> Option<Seq<char>>;

/// `reqwest::StatusCode::canonical_reason` for `code`: the reason phrase the
/// `http` crate's table holds for it, if any. `StatusCode::from_u16` only
/// accepts codes from 100 to 999, so for other codes there is none.
#[verifier::external_body]
fn canonical_reason(code: u16) -> (r: Option<String>)
    ensures
        opt_view(r) == http_canonical_reason(code),
        code < 100 || code > 999 ==> r is None,
{
    match reqwest::StatusCode::from_u16(code) {
        Ok(status) => status.canonical_reason().map(String::from),
        Err(_) => None,
    }
}

/// A status line: the code, a space, and the reason phrase, or
/// `<unknown status code>` where there is none.
pub open spec fn status_line_with(code: u16, reason: Option<Seq<char>>) -> Seq<char> {
    decimal(code as nat) + " "@ + match reason {
        Some(phrase) => phrase,
        None => "<unknown status code>"@,
    }
}

/// A status as `StatusCode`'s `Display` writes it.
pub open spec fn status_line(code: u16) -> Seq<char> {
    status_line_with(code, http_canonical_reason(code))
}

/// The status line for `code` with the given reason phrase.
pub fn compose_status_line(code: u16, reason: &Option<String>) -> (r: String)
    ensures
        r@ == status_line_with(code, opt_view(*reason)),
{
    let number = decimal_string(code as u64);
    let line = number.concat(" ");
    match reason {
        Some(phrase) => line.concat(phrase.as_str()),
        None => line.concat("<unknown status code>"),
    }
}

/// The text of a status, as `StatusCode`'s `Display` writes it.
pub fn status_text(code: u16) -> (r: String)
    ensures
        r@ == status_line(code),
{
    let reason = canonical_reason(code);
    compose_status_line(code, &reason)
}

/// An agent with its configuration and instructions.
pub struct Agent {
    config: AgentConfig,
    system_prompt: String,
}

/// What the caller does next for an agent run.
pub enum AgentAction {
    /// Send a chat-completions request with these messages.
    Send(Vec<Message>),
    /// Decode the body of the response just received.
    ReadBody,
    /// The run is over.
    Finish(AgentResult),
}

/// What happened to the agent's request.
pub enum AgentEvent {
    /// The request could not be sent; `detail` describes the failure.
    SendFailed { detail: String },
    /// A response arrived with this status code.
    Responded { status: u16 },
    /// The body could not be decoded; `detail` describes the failure.
    Undecodable { detail: String },
    /// The body was decoded.
    Decoded { response: ApiResponse },
}

/// An agent run in progress: the conversation sent so far and the steps
/// taken.
pub struct AgentRun {
    messages: Vec<Message>,
    steps: Vec<AgentStep>,
}

impl AgentRun {
    /// The messages of the run's conversation.
    pub closed spec fn spec_messages(&self) -> Seq<MessageView> {
        messages_view(self.messages@)
    }

    /// The steps taken so far.
    pub closed spec fn spec_steps(&self) -> Seq<AgentStepView> {
        steps_view(self.steps@)
    }

    fn finish_failed(&self, answer: String, error: String) -> (r: AgentAction)
        ensures
            r matches AgentAction::Finish(res) && res@ == failed_run(
                self.spec_steps(),
                answer@,
                error@,
            ),
    {
        let steps = duplicate_steps(&self.steps);
        AgentAction::Finish(AgentResult { success: false, answer, steps, error: Some(error) })
    }

    /// The next step of the run after `event`: a failed send, a status other
    /// than 200 or an undecodable body ends the run as failed; a 200 status
    /// asks for the body; a decoded body ends the run with its first
    /// completion, or as failed when there is none.
    pub fn advance(&mut self, event: AgentEvent) -> (r: AgentAction)
        ensures
            match event {
                AgentEvent::SendFailed { detail } => r matches AgentAction::Finish(res) && res@
                    == failed_run(old(self).spec_steps(), "请求失败: "@ + detail@, detail@),
                AgentEvent::Responded { status } => if status != 200 {
                    r matches AgentAction::Finish(res) && res@ == failed_run(
                        old(self).spec_steps(),
                        "API 返回错误 (状态码: "@ + status_line(status) + ")"@,
                        "HTTP "@ + status_line(status),
                    )
                } else {
                    r is ReadBody
                },
                AgentEvent::Undecodable { detail } => r matches AgentAction::Finish(res) && res@
                    == failed_run(old(self).spec_steps(), "解析响应失败: "@ + detail@, detail@),
                AgentEvent::Decoded { response } => if response.choices@.len() > 0 {
                    r matches AgentAction::Finish(res) && res@ == answered_run(
                        old(self).spec_steps(),
                        response.choices@[0].message.content@,
                    )
                } else {
                    r matches AgentAction::Finish(res) && res@ == failed_run(
                        old(self).spec_steps(),
                        "AI 未返回有效回复"@,
                        "空响应"@,
                    )
                },
            },
            match event {
                AgentEvent::Decoded { response } => if response.choices@.len() > 0 {
                    final(self).spec_messages() == old(self).spec_messages().push(
                        message_view("assistant"@, response.choices@[0].message.content@),
                    )
                } else {
                    final(self).spec_messages() == old(self).spec_messages()
                },
                _ => final(self).spec_messages() == old(self).spec_messages(),
            },
            final(self).spec_steps() == old(self).spec_steps(),
    {
        match event {
            AgentEvent::SendFailed { detail } => {
                let answer = String::from_str("请求失败: ").concat(detail.as_str());
                self.finish_failed(answer, detail)
            },
            AgentEvent::Responded { status } => {
                if status != 200 {
                    let status_text = status_text(status);
                    let answer = String::from_str("API 返回错误 (状态码: ").concat(
                        status_text.as_str(),
                    ).concat(")");
                    let error = String::from_str("HTTP ").concat(status_text.as_str());
                    self.finish_failed(answer, error)
                } else {
                    AgentAction::ReadBody
                }
            },
            AgentEvent::Undecodable { detail } => {
                let answer = String::from_str("解析响应失败: ").concat(detail.as_str());
                self.finish_failed(answer, detail)
            },
            AgentEvent::Decoded { response } => {
                if response.choices.len() == 0 {
                    self.finish_failed(
                        String::from_str("AI 未返回有效回复"),
                        String::from_str("空响应"),
                    )
                } else {
                    let reply = response.choices[0].message.content.clone();
                    let ghost before = self.messages@;
                    self.messages.push(Message::assistant(reply.as_str()));
                    assert(messages_view(self.messages@) =~= messages_view(before).push(
                        message_view("assistant"@, reply@),
                    ));
                    AgentAction::Finish(self.answer(reply))
                }
            },
        }
    }

    fn answer(&self, reply: String) -> (res: AgentResult)
        ensures
            res@ == answered_run(self.spec_steps(), reply@),
    {
        let mut steps = duplicate_steps(&self.steps);
        let ghost base = steps_view(steps@);
        match Agent::extract_tag(reply.as_str(), "final_answer") {
            Some(fa) => {
                steps.push(AgentStep { step_type: String::from_str("final_answer"), content: fa.clone() });
                assert(steps_view(steps@) =~= base.push(step_view("final_answer"@, fa@)));
                AgentResult { success: true, answer: fa, steps, error: None }
            },
            None => {
                match Agent::extract_tag(reply.as_str(), "thought") {
                    Some(t) => {
                        steps.push(AgentStep { step_type: String::from_str("thought"), content: t });
                    },
                    None => {},
                }
                let ghost with_thought = steps_view(steps@);
                assert(with_thought =~= match tag_content(reply@, "thought"@) {
                    Some(t) => base.push(step_view("thought"@, t)),
                    None => base,
                });
                steps.push(AgentStep { step_type: String::from_str("final_answer"), content: reply.clone() });
                assert(steps_view(steps@) =~= with_thought.push(step_view("final_answer"@, reply@)));
                AgentResult { success: true, answer: reply, steps, error: None }
            },
        }
    }
}

/// A copy of a list of steps.
pub fn duplicate_steps(v: &Vec<AgentStep>) -> (r: Vec<AgentStep>)
    ensures
        steps_view(r@) == steps_view(v@),
{
    let mut r: Vec<AgentStep> = Vec::new();
    let mut i: usize = 0;
    while i < v.len()
        invariant
            i <= v.len(),
            r.len() == i,
            forall|j: int| 0 <= j < i ==> (#[trigger] r@[j])@ == v@[j]@,
        decreases v.len() - i,
    {
        r.push(AgentStep { step_type: v[i].step_type.clone(), content: v[i].content.clone() });
        i = i + 1;
    }
    assert(steps_view(r@) =~= steps_view(v@));
    r
}

impl Agent {
    /// The agent's configuration.
    pub closed spec fn spec_config(&self) -> AgentConfig {
        self.config
    }

    /// The instructions the agent gives the model.
    pub closed spec fn spec_system_prompt(&self) -> Seq<char> {
        self.system_prompt@
    }

    pub fn new(config: AgentConfig) -> (a: Agent)
        ensures
            a.spec_config() == config,
            a.spec_system_prompt() == agent_system_prompt(),
    {
        Agent { config, system_prompt: String::from_str("你是一个智能助手，请仔细思考并回答问题。\n\n## 响应格式\n请严格按照以下格式响应，使用 XML 标签标记每个部分：\n\n<thought>你的思考过程</thought>\n<final_answer>你的最终答案</final_answer>\n\n## 规则\n1. 保持思考过程简洁但有逻辑\n2. 最终答案要清晰明确") }
    }

    /// The trimmed text between the first `<tag>` and the next `</tag>`.
    pub fn extract_tag(content: &str, tag: &str) -> (r: Option<String>)
        ensures
            opt_view(r) == tag_content(content@, tag@),
    {
        let c = chars_of(content);
        let t = chars_of(tag);
        let mut open: Vec<char> = Vec::new();
        open.push('<');
        let mut close: Vec<char> = Vec::new();
        close.push('<');
        close.push('/');
        let mut k: usize = 0;
        while k < t.len()
            invariant
                k <= t.len(),
                open@ == seq!['<'] + t@.take(k as int),
                close@ == seq!['<', '/'] + t@.take(k as int),
            decreases t.len() - k,
        {
            open.push(t[k]);
            close.push(t[k]);
            assert(t@.take(k + 1) =~= t@.take(k as int).push(t@[k as int]));
            k = k + 1;
        }
        open.push('>');
        close.push('>');
        assert(t@.take(t.len() as int) =~= t@);
        assert(open@ =~= open_tag(tag@));
        assert(close@ =~= close_tag(tag@));
        match find_from(&c, &open, 0) {
            None => None,
            Some(i) => {
                let start = i + open.len();
                match find_from(&c, &close, start) {
                    None => None,
                    Some(j) => {
                        let inner = slice_chars(&c, start, j);
                        let trimmed = trim_chars(&inner);
                        Some(string_from_chars(&trimmed))
                    },
                }
            },
        }
    }

    /// Opens a run for `task`: the conversation is the agent's instructions
    /// and the task; the first action is to send it, unless no request is
    /// allowed, in which case the run ends at once.
    pub fn start(&self, task: &str) -> (r: (AgentRun, AgentAction))
        ensures
            r.0.spec_messages() == seq![
                message_view("system"@, self.spec_system_prompt()),
                task_message(task@),
            ],
            r.0.spec_steps() == Seq::<AgentStepView>::empty(),
            self.spec_config().max_iterations == 0 ==> (r.1 matches AgentAction::Finish(res)
                && res@ == exhausted_run(0)),
            self.spec_config().max_iterations > 0 ==> (r.1 matches AgentAction::Send(msgs)
                && messages_view(msgs@) == r.0.spec_messages()),
    {
        let mut messages: Vec<Message> = Vec::new();
        messages.push(Message::system(self.system_prompt.as_str()));
        let user_text = String::from_str("任务: ").concat(task);
        messages.push(Message::user(user_text.as_str()));
        let run = AgentRun { messages, steps: Vec::new() };
        assert(run.spec_messages() =~= seq![
            message_view("system"@, self.spec_system_prompt()),
            task_message(task@),
        ]);
        assert(run.spec_steps() =~= Seq::<AgentStepView>::empty());
        if self.config.max_iterations == 0 {
            let n = decimal_string(self.config.max_iterations as u64);
            let error = String::from_str("已达到 ").concat(n.as_str()).concat(" 次迭代上限");
            let res = AgentResult {
                success: false,
                answer: String::from_str("超过最大迭代次数限制"),
                steps: Vec::new(),
                error: Some(error),
            };
            assert(res@.steps =~= Seq::<AgentStepView>::empty());
            (run, AgentAction::Finish(res))
        } else {
            let msgs = duplicate_messages(&run.messages);
            (run, AgentAction::Send(msgs))
        }
    }
}


/// A reply in the requested format gives back its content: when `body` is
/// wrapped in `<tag>` and `</tag>` at the start of the reply, and the first
/// `</tag>` after the body is the one that closes it, the text read for
/// `tag` is the body without surrounding white space.
pub proof fn lemma_tag_content_of_wrapped(tag: Seq<char>, body: Seq<char>, rest: Seq<char>)
    requires
        first_match(body + close_tag(tag), close_tag(tag)) == Some(body.len() as int),
    ensures
        tag_content(open_tag(tag) + body + close_tag(tag) + rest, tag) == Some(trim(body)),
{
    let open = open_tag(tag);
    let close = close_tag(tag);
    let content = open + body + close + rest;
    assert(content =~= open + (body + close + rest));
    lemma_first_match_at_start(open, body + close + rest);
    lemma_first_match_extend(body + close, rest, close, 0);
    assert(body + close + rest =~= (body + close) + rest);
    lemma_first_match_shift(open, body + close + rest, close, 0);
    assert(content.subrange(open.len() as int, (open.len() + body.len()) as int) =~= body);
}

/// Every run outcome reports success exactly when it reports no error, and
/// a successful run ends with a `final_answer` step that holds its answer,
/// after the steps taken before.
pub proof fn lemma_run_outcomes(
    steps: Seq<AgentStepView>,
    reply: Seq<char>,
    answer: Seq<char>,
    error: Seq<char>,
)
    ensures
        answered_run(steps, reply).success,
        answered_run(steps, reply).error is None,
        answered_run(steps, reply).steps.last() == step_view(
            "final_answer"@,
            answered_run(steps, reply).answer,
        ),
        answered_run(steps, reply).steps.subrange(0, steps.len() as int) == steps,
        !failed_run(steps, answer, error).success,
        failed_run(steps, answer, error).error == Some(error),
        failed_run(steps, answer, error).steps == steps,
{
    let r = answered_run(steps, reply);
    match tag_content(reply, "thought"@) {
        Some(t) => {
            assert(steps.push(step_view("thought"@, t)).push(step_view("final_answer"@, reply)).subrange(0, steps.len() as int) =~= steps);
        },
        None => {},
    }
    assert(steps.push(step_view("final_answer"@, reply)).subrange(0, steps.len() as int) =~= steps);
}

/// A reply whose text starts with `<final_answer>X</final_answer>` (and
/// closes it there) makes the run succeed with the trimmed `X` as its
/// answer.
pub proof fn lemma_final_answer_reply(steps: Seq<AgentStepView>, body: Seq<char>, rest: Seq<char>)
    requires
        first_match(body + close_tag("final_answer"@), close_tag("final_answer"@)) == Some(
            body.len() as int,
        ),
    ensures
        ({
            let reply = open_tag("final_answer"@) + body + close_tag("final_answer"@) + rest;
            &&& answered_run(steps, reply).success
            &&& answered_run(steps, reply).answer == trim(body)
            &&& answered_run(steps, reply).steps == steps.push(step_view("final_answer"@, trim(body)))
        }),
{
    lemma_tag_content_of_wrapped("final_answer"@, body, rest);
}


/// Wherever the opening tag stands, the text read for a tag is the whole
/// text between it and the next closing tag, without surrounding white
/// space: for a tag without `<`, when no opening tag comes before it and no
/// closing tag inside the body, `pre + <tag> + body + </tag> + rest` reads
/// as the trimmed body.
pub proof fn lemma_tag_content_anywhere(
    pre: Seq<char>,
    tag: Seq<char>,
    body: Seq<char>,
    rest: Seq<char>,
)
    requires
        forall|i: int| 0 <= i < tag.len() ==> #[trigger] tag[i] != '<',
        first_match(pre, open_tag(tag)) is None,
        first_match(body, close_tag(tag)) is None,
    ensures
        tag_content(pre + open_tag(tag) + body + close_tag(tag) + rest, tag) == Some(trim(body)),
{
    let open = open_tag(tag);
    let close = close_tag(tag);
    let content = pre + open + body + close + rest;
    let tail = open + body + close + rest;
    assert(content =~= pre + tail);
    assert(tail.subrange(0, open.len() as int) =~= open);
    assert forall|k: int| 1 <= k < open.len() implies #[trigger] open[k] != open[0] by {
        if k < open.len() - 1 {
            assert(open[k] == tag[k - 1]);
        }
    }
    lemma_first_match_at_boundary(pre, tail, open);
    let start = pre.len() + open.len();
    let after = body + close + rest;
    assert(content =~= (pre + open) + after);
    let cr = close + rest;
    assert(after =~= body + cr);
    assert(cr.subrange(0, close.len() as int) =~= close);
    assert forall|k: int| 1 <= k < close.len() implies #[trigger] close[k] != close[0] by {
        if 2 <= k < close.len() - 1 {
            assert(close[k] == tag[k - 2]);
        }
    }
    lemma_first_match_at_boundary(body, cr, close);
    lemma_first_match_shift(pre + open, after, close, 0);
    assert(content.subrange(start as int, (start + body.len()) as int) =~= body);
}

/// What a run makes of the model's reply: with a complete
/// `<final_answer>` the answer is its content and it is the one new step;
/// without one the answer is the whole reply, unchanged, and the last new
/// step is a `final_answer` step holding that whole reply, after a
/// `thought` step when the reply has a complete `<thought>`.
pub proof fn lemma_answer_of_reply(steps: Seq<AgentStepView>, reply: Seq<char>)
    ensures
        tag_content(reply, "final_answer"@) matches Some(fa) ==> answered_run(steps, reply).answer
            == fa && answered_run(steps, reply).steps == steps.push(
            step_view("final_answer"@, fa),
        ),
        tag_content(reply, "final_answer"@) is None ==> {
            &&& answered_run(steps, reply).answer == reply
            &&& answered_run(steps, reply).steps.last() == step_view("final_answer"@, reply)
            &&& answered_run(steps, reply).steps.drop_last() == match tag_content(
                reply,
                "thought"@,
            ) {
                Some(t) => steps.push(step_view("thought"@, t)),
                None => steps,
            }
        },
        answered_run(steps, reply).success,
        answered_run(steps, reply).error is None,
{
    match tag_content(reply, "thought"@) {
        Some(t) => {
            assert(steps.push(step_view("thought"@, t)).push(step_view("final_answer"@, reply)).drop_last()
                =~= steps.push(step_view("thought"@, t)));
        },
        None => {
            assert(steps.push(step_view("final_answer"@, reply)).drop_last() =~= steps);
        },
    }
}

} // verus!
