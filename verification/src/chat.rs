//! Chat messages, client configuration, and the conversation state of a chat
//! client: what is recorded before a request and what a reply turns into.

use vstd::prelude::*;
use crate::providers::LLMProvider;
use crate::text::{contains, contains_seq, decimal, decimal_string};

verus! {

/// One message of a conversation.
#[derive(Debug, Clone)]
pub struct Message {
    pub role: String,
    pub content: String,
}

/// The abstract content of a [`Message`].
pub struct MessageView {
    pub role: Seq<char>,
    pub content: Seq<char>,
}

impl View for Message {
    type V = MessageView;

    open spec fn view(&self) -> MessageView {
        MessageView { role: self.role@, content: self.content@ }
    }
}

/// A message with the given role and content.
pub open spec fn message_view(role: Seq<char>, content: Seq<char>) -> MessageView {
    MessageView { role, content }
}

/// The abstract contents of a list of messages.
pub open spec fn messages_view(s: Seq<Message>) -> Seq<MessageView> {
    s.map_values(|m: Message| m@)
}

impl Message {
    pub fn user(content: &str) -> (m: Message)
        ensures
            m@ == message_view("user"@, content@),
    {
        Message { role: String::from_str("user"), content: String::from_str(content) }
    }

    pub fn assistant(content: &str) -> (m: Message)
        ensures
            m@ == message_view("assistant"@, content@),
    {
        Message { role: String::from_str("assistant"), content: String::from_str(content) }
    }

    pub fn system(content: &str) -> (m: Message)
        ensures
            m@ == message_view("system"@, content@),
    {
        Message { role: String::from_str("system"), content: String::from_str(content) }
    }

    /// A copy of this message.
    pub fn duplicate(&self) -> (m: Message)
        ensures
            m@ == self@,
    {
        Message { role: self.role.clone(), content: self.content.clone() }
    }
}

/// A copy of a list of messages.
pub fn duplicate_messages(v: &Vec<Message>) -> (r: Vec<Message>)
    ensures
        messages_view(r@) == messages_view(v@),
{
    let mut r: Vec<Message> = Vec::new();
    let mut i: usize = 0;
    while i < v.len()
        invariant
            i <= v.len(),
            r.len() == i,
            forall|j: int| 0 <= j < i ==> (#[trigger] r@[j])@ == v@[j]@,
        decreases v.len() - i,
    {
        r.push(v[i].duplicate());
        i = i + 1;
    }
    assert(messages_view(r@) =~= messages_view(v@));
    r
}

/// What can go wrong when a chat client sends a message.
#[derive(Debug)]
pub enum ChatError {
    NetworkError(String),
    ApiError { status: u16, message: String },
    InvalidResponse(String),
}

/// The text that describes a chat error.
pub open spec fn chat_error_text(e: ChatError) -> Seq<char> {
    match e {
        ChatError::NetworkError(m) => "Network request failed: "@ + m@,
        ChatError::ApiError { status, message } => "API error: "@ + decimal(status as nat)
            + " - "@ + message@,
        ChatError::InvalidResponse(m) => "Invalid response: "@ + m@,
    }
}

impl ChatError {
    /// The text that describes this error.
    pub fn to_string(&self) -> (r: String)
        ensures
            r@ == chat_error_text(*self),
    {
        match self {
            ChatError::NetworkError(m) => String::from_str("Network request failed: ").concat(
                m.as_str(),
            ),
            ChatError::ApiError { status, message } => {
                let code = decimal_string(*status as u64);
                String::from_str("API error: ").concat(code.as_str()).concat(" - ").concat(
                    message.as_str(),
                )
            },
            ChatError::InvalidResponse(m) => String::from_str("Invalid response: ").concat(
                m.as_str(),
            ),
        }
    }
}

/// Bit pattern of the single-precision number 0.7, the default temperature.
pub open spec fn default_temperature_bits() -> u32 {
    0x3F33_3333
}

/// Where and how a chat client talks to its service. The sampling
/// temperature is held as the bit pattern of an IEEE-754 single-precision
/// number (`f32::to_bits`).
#[derive(Debug, Clone)]
pub struct ChatConfig {
    pub api_url: String,
    pub api_key: String,
    pub model: String,
    pub max_tokens: Option<u32>,
    pub temperature_bits: Option<u32>,
}

/// The chat-completions endpoint of the default provider.
pub open spec fn default_api_url() -> Seq<char> {
    LLMProvider::SiliconFlow.spec_base_url() + "/v1/chat/completions"@
}

impl Default for ChatConfig {
    fn default() -> (c: ChatConfig)
        ensures
            c.api_url@ == default_api_url(),
            c.api_key@ == Seq::<char>::empty(),
            c.model@ == Seq::<char>::empty(),
            c.max_tokens == Some(1024u32),
            c.temperature_bits == Some(default_temperature_bits()),
    {
        let base = LLMProvider::SiliconFlow.default_base_url();
        ChatConfig {
            api_url: String::from_str(base).concat("/v1/chat/completions"),
            api_key: String::new(),
            model: String::new(),
            max_tokens: Some(1024),
            temperature_bits: Some(0x3F33_3333),
        }
    }
}

impl ChatConfig {
    /// The `Authorization` header value: the key as a bearer token.
    pub fn authorization(&self) -> (r: String)
        ensures
            r@ == "Bearer "@ + self.api_key@,
    {
        String::from_str("Bearer ").concat(self.api_key.as_str())
    }

    /// The temperature an agent request carries: the configured one, or 0.7
    /// when none is configured (as an `f32` bit pattern).
    pub fn agent_temperature_bits(&self) -> (r: u32)
        ensures
            r == match self.temperature_bits {
                Some(b) => b,
                None => default_temperature_bits(),
            },
    {
        match self.temperature_bits {
            Some(b) => b,
            None => 0x3F33_3333,
        }
    }

    /// A copy of this configuration.
    pub fn duplicate(&self) -> (c: ChatConfig)
        ensures
            c == *self,
    {
        ChatConfig {
            api_url: self.api_url.clone(),
            api_key: self.api_key.clone(),
            model: self.model.clone(),
            max_tokens: self.max_tokens,
            temperature_bits: self.temperature_bits,
        }
    }
}

/// The body of a chat-completions reply, as far as the client reads it.
pub struct ApiResponse {
    pub choices: Vec<Choice>,
    pub error: Option<ApiError>,
}

/// One completion offered by the service.
pub struct Choice {
    pub message: ChoiceMessage,
}

/// The message of a completion.
pub struct ChoiceMessage {
    pub content: String,
}

/// The error object a service may return in place of completions.
pub struct ApiError {
    pub message: String,
    pub error_type: String,
}

/// How the exchange for one message ended, as the transport saw it.
pub enum SendReply {
    /// The request could not be sent; `detail` describes the failure.
    Unsent { detail: String },
    /// A reply came but its body could not be decoded.
    Undecodable { detail: String },
    /// A reply came with the given HTTP status and decoded body.
    Received { status: u16, response: ApiResponse },
}

/// The message recorded for a request that could not be sent: failures
/// that mention certificates, name resolution, time-outs or connections get
/// a prefix that says so.
pub open spec fn network_error_text(e: Seq<char>) -> Seq<char> {
    if contains_seq(e, "certificate"@) || contains_seq(e, "ssl"@) {
        "SSL证书验证失败: "@ + e
    } else if contains_seq(e, "dns"@) || contains_seq(e, "resolve"@) {
        "DNS解析失败: "@ + e
    } else if contains_seq(e, "timeout"@) {
        "请求超时: "@ + e
    } else if contains_seq(e, "connection"@) {
        "连接失败: "@ + e
    } else {
        e
    }
}

/// The result of a send, given how the exchange ended: a transport failure
/// is a network error; a service error object wins over any completion; the
/// first completion is the reply; no completion is an invalid response.
pub open spec fn send_outcome_ok(reply: SendReply, r: Result<String, ChatError>) -> bool {
    match reply {
        SendReply::Unsent { detail } => r matches Err(ChatError::NetworkError(m)) && m@
            == network_error_text(detail@),
        SendReply::Undecodable { detail } => r matches Err(ChatError::NetworkError(m)) && m@
            == detail@,
        SendReply::Received { status, response } => match response.error {
            Some(err) => r matches Err(ChatError::ApiError { status: s, message: m }) && s
                == status && m@ == err.message@,
            None => if response.choices@.len() > 0 {
                r matches Ok(text) && text@ == response.choices@[0].message.content@
            } else {
                r matches Err(ChatError::InvalidResponse(m)) && m@ == "No choices in response"@
            },
        },
    }
}

/// The network error for a request that could not be sent.
pub fn network_error(detail: &str) -> (e: ChatError)
    ensures
        e matches ChatError::NetworkError(m) && m@ == network_error_text(detail@),
{
    let d = String::from_str(detail);
    let msg = if contains(detail, "certificate") || contains(detail, "ssl") {
        String::from_str("SSL证书验证失败: ").concat(detail)
    } else if contains(detail, "dns") || contains(detail, "resolve") {
        String::from_str("DNS解析失败: ").concat(detail)
    } else if contains(detail, "timeout") {
        String::from_str("请求超时: ").concat(detail)
    } else if contains(detail, "connection") {
        String::from_str("连接失败: ").concat(detail)
    } else {
        d
    };
    ChatError::NetworkError(msg)
}

/// The conversation state of a chat client: its configuration and the
/// messages exchanged so far. The transport that carries requests is kept
/// by the caller.
pub struct ChatClient {
    config: ChatConfig,
    history: Vec<Message>,
}

impl ChatClient {
    /// The configuration the client was made with.
    pub closed spec fn spec_config(&self) -> ChatConfig {
        self.config
    }

    /// The messages of the conversation so far.
    pub closed spec fn spec_history(&self) -> Seq<MessageView> {
        messages_view(self.history@)
    }

    pub fn new(config: ChatConfig) -> (c: ChatClient)
        ensures
            c.spec_config() == config,
            c.spec_history() == Seq::<MessageView>::empty(),
    {
        let c = ChatClient { config, history: Vec::new() };
        assert(c.spec_history() =~= Seq::<MessageView>::empty());
        c
    }

    pub fn with_system_message(self, content: &str) -> (c: ChatClient)
        ensures
            c.spec_config() == self.spec_config(),
            c.spec_history() == self.spec_history().push(message_view("system"@, content@)),
    {
        let mut c = self;
        let ghost before = c.history@;
        c.history.push(Message::system(content));
        assert(messages_view(c.history@) =~= messages_view(before).push(
            message_view("system"@, content@),
        ));
        c
    }

    pub fn clear_history(&mut self)
        ensures
            final(self).spec_config() == old(self).spec_config(),
            final(self).spec_history() == Seq::<MessageView>::empty(),
    {
        self.history.clear();
        assert(messages_view(self.history@) =~= Seq::<MessageView>::empty());
    }

    pub fn get_history(&self) -> (h: &[Message])
        ensures
            messages_view(h@) == self.spec_history(),
    {
        self.history.as_slice()
    }

    pub fn config(&self) -> (c: &ChatConfig)
        ensures
            *c == self.spec_config(),
    {
        &self.config
    }

    /// Records the user's message before it is sent; the request carries the
    /// whole history that results.
    pub fn begin_send(&mut self, user_input: &str)
        ensures
            final(self).spec_config() == old(self).spec_config(),
            final(self).spec_history() == old(self).spec_history().push(
                message_view("user"@, user_input@),
            ),
    {
        let ghost before = self.history@;
        self.history.push(Message::user(user_input));
        assert(messages_view(self.history@) =~= messages_view(before).push(
            message_view("user"@, user_input@),
        ));
    }

    /// Turns the end of an exchange into the result of the send; a reply is
    /// recorded in the history as the assistant's message.
    pub fn finish_send(&mut self, reply: SendReply) -> (r: Result<String, ChatError>)
        ensures
            send_outcome_ok(reply, r),
            match reply {
                SendReply::Received { status, response } => response.error is None
                    && response.choices@.len() > 0 ==> (r is Ok && r->Ok_0@
                    == response.choices@[0].message.content@),
                _ => true,
            },
            final(self).spec_config() == old(self).spec_config(),
            match r {
                Ok(text) => final(self).spec_history() == old(self).spec_history().push(
                    message_view("assistant"@, text@),
                ),
                Err(_) => final(self).spec_history() == old(self).spec_history(),
            },
    {
        match reply {
            SendReply::Unsent { detail } => Err(network_error(detail.as_str())),
            SendReply::Undecodable { detail } => Err(ChatError::NetworkError(detail)),
            SendReply::Received { status, response } => {
                match response.error {
                    Some(err) => Err(ChatError::ApiError { status, message: err.message }),
                    None => {
                        if response.choices.len() == 0 {
                            Err(ChatError::InvalidResponse(String::from_str("No choices in response")))
                        } else {
                            let text = response.choices[0].message.content.clone();
                            let ghost before = self.history@;
                            self.history.push(Message::assistant(text.as_str()));
                            assert(messages_view(self.history@) =~= messages_view(before).push(
                                message_view("assistant"@, text@),
                            ));
                            Ok(text)
                        }
                    },
                }
            },
        }
    }
}


/// The history after one send of `input` that ended with `r`: the user's
/// message stays in the history whatever happened, and a reply follows it.
pub open spec fn history_after_send(
    h: Seq<MessageView>,
    input: Seq<char>,
    r: Result<String, ChatError>,
) -> Seq<MessageView> {
    match r {
        Ok(text) => h.push(message_view("user"@, input)).push(message_view("assistant"@, text@)),
        Err(_) => h.push(message_view("user"@, input)),
    }
}

/// A send is `begin_send` followed by `finish_send`: the history then holds
/// the earlier messages, the user's message, and the reply if there was
/// one, and the configuration is untouched.
pub proof fn lemma_send_history(
    c0: ChatClient,
    c1: ChatClient,
    c2: ChatClient,
    input: Seq<char>,
    r: Result<String, ChatError>,
)
    requires
        c1.spec_config() == c0.spec_config(),
        c1.spec_history() == c0.spec_history().push(message_view("user"@, input)),
        c2.spec_config() == c1.spec_config(),
        match r {
            Ok(text) => c2.spec_history() == c1.spec_history().push(
                message_view("assistant"@, text@),
            ),
            Err(_) => c2.spec_history() == c1.spec_history(),
        },
    ensures
        c2.spec_history() == history_after_send(c0.spec_history(), input, r),
        c2.spec_config() == c0.spec_config(),
        c2.spec_history().subrange(0, c0.spec_history().len() as int) == c0.spec_history(),
{
    match r {
        Ok(text) => {
            assert(c2.spec_history().subrange(0, c0.spec_history().len() as int) =~= c0.spec_history());
        },
        Err(_) => {
            assert(c2.spec_history().subrange(0, c0.spec_history().len() as int) =~= c0.spec_history());
        },
    }
}

/// The message for a request that could not be sent always ends with the
/// transport's own description of the failure.
pub proof fn lemma_network_error_keeps_detail(e: Seq<char>)
    ensures
        network_error_text(e).len() >= e.len(),
        network_error_text(e).subrange(network_error_text(e).len() - e.len(), network_error_text(e).len() as int)
            == e,
{
    let t = network_error_text(e);
    assert(t.subrange(t.len() - e.len(), t.len() as int) =~= e);
}


/// A send answered without an error object and with at least one
/// completion returns exactly the first completion's text, unchanged; a
/// service error object is reported with the reply's status and the
/// object's message, whatever completions come with it.
pub proof fn lemma_send_reply_text(reply: SendReply, r: Result<String, ChatError>)
    requires
        send_outcome_ok(reply, r),
    ensures
        match reply {
            SendReply::Received { status, response } => {
                &&& response.error is None && response.choices@.len() > 0 ==> (r is Ok && r->Ok_0@
                    == response.choices@[0].message.content@)
                &&& response.error is Some ==> (r matches Err(ChatError::ApiError { status: s, message: m })
                    && s == status && m@ == response.error->0.message@)
                &&& response.error is None && response.choices@.len() == 0 ==> r is Err
            },
            _ => r is Err,
        },
{
}

} // verus!
