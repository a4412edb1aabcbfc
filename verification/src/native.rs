//! What the native (JNI) entry points compute: the configuration a host
//! hands over, how a client id given back by the host is resolved, and the
//! texts and JSON documents returned to the host.

use vstd::prelude::*;
use crate::agent::{AgentConfig, AgentResult, AgentResultView, AgentStepView, steps_view};
use crate::chat::{ChatConfig, ChatError, chat_error_text};
use crate::json::{escape_json, json_quoted};
use crate::providers::LLMProvider;
use crate::registry::ClientRegistry;
use crate::text::{
    chars_of, decimal, decimal_string, lemma_parse_decimal_roundtrip, parse_i64, parse_i64_spec,
};

verus! {

/// The configuration for a client created from the host: a non-positive
/// token limit means no limit.
pub fn native_config(
    api_url: &str,
    api_key: &str,
    model: &str,
    max_tokens: i32,
    temperature_bits: u32,
) -> (c: ChatConfig)
    ensures
        c.api_url@ == api_url@,
        c.api_key@ == api_key@,
        c.model@ == model@,
        c.max_tokens == (if max_tokens > 0 {
            Some(max_tokens as u32)
        } else {
            None
        }),
        c.temperature_bits == Some(temperature_bits),
{
    ChatConfig {
        api_url: String::from_str(api_url),
        api_key: String::from_str(api_key),
        model: String::from_str(model),
        max_tokens: if max_tokens > 0 {
            Some(max_tokens as u32)
        } else {
            None
        },
        temperature_bits: Some(temperature_bits),
    }
}

/// Registers `client` and returns its id as the decimal text the host keeps.
pub fn register_client<T>(registry: &mut ClientRegistry<T>, client: T) -> (r: String)
    requires
        old(registry).wf(),
        old(registry).spec_last_id() < i64::MAX,
    ensures
        final(registry).wf(),
        final(registry).spec_last_id() == old(registry).spec_last_id() + 1,
        !old(registry).spec_clients().contains_key(final(registry).spec_last_id()),
        final(registry).spec_clients() == old(registry).spec_clients().insert(
            final(registry).spec_last_id(),
            client,
        ),
        r@ == decimal(final(registry).spec_last_id() as nat),
        parse_i64_spec(r@) == Some(final(registry).spec_last_id()),
{
    let id = registry.register(client);
    proof {
        lemma_parse_decimal_roundtrip(id);
    }
    decimal_string(id as u64)
}

/// Why a client id from the host does not name a client.
#[derive(Debug, Clone, Copy, PartialEq, Eq, Structural)]
pub enum LookupError {
    InvalidId,
    NotFound,
}

/// The text returned to the host for a lookup failure.
pub open spec fn lookup_error_text(e: LookupError) -> Seq<char> {
    match e {
        LookupError::InvalidId => "Error: Invalid client ID"@,
        LookupError::NotFound => "Error: Client not found"@,
    }
}

impl LookupError {
    /// The text returned to the host for this failure.
    pub fn to_string(&self) -> (r: String)
        ensures
            r@ == lookup_error_text(*self),
    {
        match self {
            LookupError::InvalidId => String::from_str("Error: Invalid client ID"),
            LookupError::NotFound => String::from_str("Error: Client not found"),
        }
    }
}

/// The client id that the host's text names, if it is a decimal `i64`.
pub fn parse_client_id(id_text: &str) -> (r: Option<i64>)
    ensures
        r == parse_i64_spec(id_text@),
{
    parse_i64(id_text)
}

/// How the host's client id text resolves against the stored clients: not
/// a number is an invalid id; a number under which no client is stored is
/// not found.
pub open spec fn resolve_spec<T>(clients: Map<i64, T>, id_text: Seq<char>) -> Result<i64, LookupError> {
    match parse_i64_spec(id_text) {
        None => Err(LookupError::InvalidId),
        Some(id) => if clients.contains_key(id) {
            Ok(id)
        } else {
            Err(LookupError::NotFound)
        },
    }
}

/// Resolves the host's client id text against the stored clients.
pub fn resolve_client<T>(registry: &ClientRegistry<T>, id_text: &str) -> (r: Result<i64, LookupError>)
    ensures
        r == resolve_spec(registry.spec_clients(), id_text@),
{
    match parse_i64(id_text) {
        None => Err(LookupError::InvalidId),
        Some(id) => if registry.contains(id) {
            Ok(id)
        } else {
            Err(LookupError::NotFound)
        },
    }
}

/// The text returned to the host after a chat: the reply, or the error
/// after `Error: `.
pub fn reply_text(r: &Result<String, ChatError>) -> (t: String)
    ensures
        match r {
            Ok(reply) => t@ == reply@,
            Err(e) => t@ == "Error: "@ + chat_error_text(*e),
        },
{
    match r {
        Ok(reply) => reply.clone(),
        Err(e) => {
            let d = e.to_string();
            String::from_str("Error: ").concat(d.as_str())
        },
    }
}

/// Whether two texts are the same.
pub fn same_text(a: &str, b: &str) -> (r: bool)
    ensures
        r == (a@ == b@),
{
    let x = chars_of(a);
    let y = chars_of(b);
    if x.len() != y.len() {
        return false;
    }
    let mut i: usize = 0;
    while i < x.len()
        invariant
            x.len() == y.len(),
            x@ == a@,
            y@ == b@,
            i <= x.len(),
            forall|j: int| 0 <= j < i ==> x@[j] == y@[j],
        decreases x.len() - i,
    {
        if x[i] != y[i] {
            return false;
        }
        i = i + 1;
    }
    assert(x@ =~= y@);
    true
}

/// The base URL the host gets for a provider name: the three providers it
/// offers by name, anything else an empty text.
pub open spec fn native_provider_url(name: Seq<char>) -> Seq<char> {
    if name == "SiliconFlow"@ {
        LLMProvider::SiliconFlow.spec_base_url()
    } else if name == "OpenRouter"@ {
        LLMProvider::OpenRouter.spec_base_url()
    } else if name == "DeepSeek"@ {
        LLMProvider::DeepSeek.spec_base_url()
    } else {
        ""@
    }
}

/// The base URL for a provider named by the host.
pub fn provider_base_url(name: &str) -> (r: String)
    ensures
        r@ == native_provider_url(name@),
{
    let url = if same_text(name, "SiliconFlow") {
        LLMProvider::SiliconFlow.default_base_url()
    } else if same_text(name, "OpenRouter") {
        LLMProvider::OpenRouter.default_base_url()
    } else if same_text(name, "DeepSeek") {
        LLMProvider::DeepSeek.default_base_url()
    } else {
        ""
    };
    String::from_str(url)
}

/// The agent configuration for a limit from the host: a non-positive limit
/// means ten requests.
pub fn native_agent_config(max_iterations: i32) -> (c: AgentConfig)
    ensures
        c.max_iterations == (if max_iterations > 0 {
            max_iterations as usize
        } else {
            10usize
        }),
{
    AgentConfig {
        max_iterations: if max_iterations > 0 {
            max_iterations as usize
        } else {
            10
        },
    }
}

/// The JSON object describing one step: its type as given, its content as a
/// JSON string.
pub open spec fn step_json(s: AgentStepView) -> Seq<char> {
    "{\"type\":\""@ + s.step_type + "\",\"content\":"@ + json_quoted(s.content) + "}"@
}

/// The step objects separated by commas.
pub open spec fn steps_json(s: Seq<AgentStepView>) -> Seq<char>
    decreases s.len(),
{
    if s.len() == 0 {
        Seq::empty()
    } else if s.len() == 1 {
        step_json(s[0])
    } else {
        steps_json(s.drop_last()) + ","@ + step_json(s.last())
    }
}

/// `true` or `false`.
pub open spec fn bool_text(b: bool) -> Seq<char> {
    if b {
        "true"@
    } else {
        "false"@
    }
}

/// The JSON document the host gets for an agent run.
pub open spec fn agent_result_json(r: AgentResultView) -> Seq<char> {
    "{\"success\":"@ + bool_text(r.success) + ",\"answer\":"@ + json_quoted(r.answer)
        + ",\"steps\":["@ + steps_json(r.steps) + "]}"@
}

/// The JSON document describing an agent run.
pub fn agent_result_to_json(r: &AgentResult) -> (j: String)
    ensures
        j@ == agent_result_json(r@),
{
    let mut body = String::new();
    let mut i: usize = 0;
    let ghost sv = steps_view(r.steps@);
    while i < r.steps.len()
        invariant
            i <= r.steps.len(),
            sv == steps_view(r.steps@),
            body@ == steps_json(sv.take(i as int)),
        decreases r.steps.len() - i,
    {
        let step = &r.steps[i];
        if i > 0 {
            body.append(",");
        }
        body.append("{\"type\":\"");
        body.append(step.step_type.as_str());
        body.append("\",\"content\":");
        let c = escape_json(step.content.as_str());
        body.append(c.as_str());
        body.append("}");
        proof {
            let t = sv.take(i + 1);
            assert(t.drop_last() =~= sv.take(i as int));
            assert(t.last() == step@);
        }
        i = i + 1;
    }
    assert(sv.take(r.steps.len() as int) =~= sv);
    let mut out = String::from_str("{\"success\":");
    if r.success {
        out.append("true");
    } else {
        out.append("false");
    }
    out.append(",\"answer\":");
    let a = escape_json(r.answer.as_str());
    out.append(a.as_str());
    out.append(",\"steps\":[");
    out.append(body.as_str());
    out.append("]}");
    out
}

/// The provider names the host may choose from, as a JSON array.
pub open spec fn providers_list_json() -> Seq<char> {
    "[\"SiliconFlow\",\"OpenRouter\",\"DeepSeek\",\"Custom\"]"@
}

/// The base URL of each provider the host may choose from, as a JSON object.
pub open spec fn provider_urls_json() -> Seq<char> {
    "{\"SiliconFlow\":\""@ + LLMProvider::SiliconFlow.spec_base_url() + "\",\"OpenRouter\":\""@
        + LLMProvider::OpenRouter.spec_base_url() + "\",\"DeepSeek\":\""@
        + LLMProvider::DeepSeek.spec_base_url() + "\",\"Custom\":\"\"}"@
}

/// The JSON document describing a configuration and the providers on
/// offer; `temperature_text` is the temperature as the host should read it.
pub open spec fn config_json(c: ChatConfig, temperature_text: Seq<char>) -> Seq<char> {
    let tokens: nat = match c.max_tokens {
        Some(n) => n as nat,
        None => 0,
    };
    "{\"api_url\":\""@ + c.api_url@ + "\",\"model\":\""@ + c.model@ + "\",\"max_tokens\":"@
        + decimal(tokens) + ",\"temperature\":"@ + temperature_text + ",\"providers\":"@
        + providers_list_json() + ",\"provider_urls\":"@ + provider_urls_json() + "}"@
}

/// The JSON document describing `config` and the providers on offer.
pub fn config_to_json(config: &ChatConfig, temperature_text: &str) -> (j: String)
    ensures
        j@ == config_json(*config, temperature_text@),
{
    let tokens: u32 = match config.max_tokens {
        Some(n) => n,
        None => 0,
    };
    let tokens_text = decimal_string(tokens as u64);
    let mut urls = String::from_str("{\"SiliconFlow\":\"");
    urls.append(LLMProvider::SiliconFlow.default_base_url());
    urls.append("\",\"OpenRouter\":\"");
    urls.append(LLMProvider::OpenRouter.default_base_url());
    urls.append("\",\"DeepSeek\":\"");
    urls.append(LLMProvider::DeepSeek.default_base_url());
    urls.append("\",\"Custom\":\"\"}");
    let mut out = String::from_str("{\"api_url\":\"");
    out.append(config.api_url.as_str());
    out.append("\",\"model\":\"");
    out.append(config.model.as_str());
    out.append("\",\"max_tokens\":");
    out.append(tokens_text.as_str());
    out.append(",\"temperature\":");
    out.append(temperature_text);
    out.append(",\"providers\":");
    out.append("[\"SiliconFlow\",\"OpenRouter\",\"DeepSeek\",\"Custom\"]");
    out.append(",\"provider_urls\":");
    out.append(urls.as_str());
    out.append("}");
    out
}


/// The id text handed to the host for a new client resolves to that client,
/// and to nothing once the client is destroyed; no id given out before is
/// given out again.
pub proof fn lemma_client_id_lifecycle<T>(clients: Map<i64, T>, last_id: i64, client: T)
    requires
        0 <= last_id < i64::MAX,
        forall|k: i64| #[trigger] clients.contains_key(k) ==> 1 <= k <= last_id,
    ensures
        ({
            let id = (last_id + 1) as i64;
            let created = clients.insert(id, client);
            &&& !clients.contains_key(id)
            &&& resolve_spec(created, decimal(id as nat)) == Ok::<i64, LookupError>(id)
            &&& created[id] == client
            &&& resolve_spec(created.remove(id), decimal(id as nat)) == Err::<i64, LookupError>(
                LookupError::NotFound,
            )
        }),
{
    let id = (last_id + 1) as i64;
    lemma_parse_decimal_roundtrip(id);
}


/// Every stored client is found by its own id text, and an id under which
/// no client is stored is not found, whatever else the table holds.
pub proof fn lemma_resolve_own_id<T>(clients: Map<i64, T>, id: i64)
    requires
        id >= 0,
    ensures
        clients.contains_key(id) ==> resolve_spec(clients, decimal(id as nat)) == Ok::<
            i64,
            LookupError,
        >(id),
        !clients.contains_key(id) ==> resolve_spec(clients, decimal(id as nat)) == Err::<
            i64,
            LookupError,
        >(LookupError::NotFound),
{
    lemma_parse_decimal_roundtrip(id);
}

/// The result with one more step.
pub open spec fn with_step(r: AgentResultView, x: AgentStepView) -> AgentResultView {
    AgentResultView { success: r.success, answer: r.answer, steps: r.steps.push(x), error: r.error }
}

/// The document for a run without steps has an empty steps array; one
/// more step adds its object, in order, at the end of the array (after a
/// comma unless it is the first). So the array holds one object per step,
/// in the order of the steps, for every number of steps.
pub proof fn lemma_result_json_steps(r: AgentResultView, x: AgentStepView)
    ensures
        r.steps.len() == 0 ==> agent_result_json(r) == "{\"success\":"@ + bool_text(r.success)
            + ",\"answer\":"@ + json_quoted(r.answer) + ",\"steps\":[]}"@,
        ({
            let d = agent_result_json(r);
            agent_result_json(with_step(r, x)) == d.subrange(0, d.len() - 2) + (if r.steps.len()
                == 0 {
                step_json(x)
            } else {
                ","@ + step_json(x)
            }) + "]}"@
        }),
        step_json(x) == "{\"type\":\""@ + x.step_type + "\",\"content\":"@ + json_quoted(x.content)
            + "}"@,
{
    reveal_strlit("]}");
    reveal_strlit(",\"steps\":[");
    reveal_strlit(",\"steps\":[]}");
    let head = "{\"success\":"@ + bool_text(r.success) + ",\"answer\":"@ + json_quoted(r.answer)
        + ",\"steps\":["@;
    let d = agent_result_json(r);
    assert(d =~= head + steps_json(r.steps) + "]}"@);
    assert(d.subrange(0, d.len() - 2) =~= head + steps_json(r.steps));
    let s2 = r.steps.push(x);
    assert(s2.drop_last() =~= r.steps);
    if r.steps.len() == 0 {
        assert(steps_json(r.steps) =~= Seq::<char>::empty());
        assert(d =~= "{\"success\":"@ + bool_text(r.success) + ",\"answer\":"@ + json_quoted(r.answer)
            + ",\"steps\":[]}"@);
        assert(s2[0] == x);
        assert(steps_json(s2) == step_json(x));
    } else {
        assert(steps_json(s2) == steps_json(r.steps) + ","@ + step_json(x));
    }
    assert(agent_result_json(with_step(r, x)) =~= head + steps_json(s2) + "]}"@);
}


/// The URL the host gets for the name of each provider it offers is that
/// provider's base URL; any other name gets an empty URL.
pub proof fn lemma_provider_url_by_name(name: Seq<char>)
    ensures
        name == LLMProvider::SiliconFlow.spec_name() ==> native_provider_url(name)
            == LLMProvider::SiliconFlow.spec_base_url(),
        name == LLMProvider::OpenRouter.spec_name() ==> native_provider_url(name)
            == LLMProvider::OpenRouter.spec_base_url(),
        name == LLMProvider::DeepSeek.spec_name() ==> native_provider_url(name)
            == LLMProvider::DeepSeek.spec_base_url(),
        name != LLMProvider::SiliconFlow.spec_name() && name != LLMProvider::OpenRouter.spec_name()
            && name != LLMProvider::DeepSeek.spec_name() ==> native_provider_url(name).len() == 0,
{
    reveal_strlit("");
    reveal_strlit("SiliconFlow");
    reveal_strlit("OpenRouter");
    reveal_strlit("DeepSeek");
    assert("SiliconFlow"@[0] != "OpenRouter"@[0]);
    assert("SiliconFlow"@[0] != "DeepSeek"@[0]);
    assert("OpenRouter"@[0] != "DeepSeek"@[0]);
}

} // verus!
