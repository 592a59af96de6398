//! Assistant chat: messages, client settings, and the bounded chat history.
//!
//! The HTTP exchange with the completion endpoint is performed by the
//! application; this module keeps everything that decides what is sent and
//! what is remembered.
use vstd::prelude::*;
use crate::text::{chars_of, spec_trim, str_eq, trim_chars, append_chars, append_str, slice_chars, spec_starts_with, spec_find, string_of, trim_str, find_char, lemma_find_from_bounds};
use crate::content::{spec_lowercase, to_lowercase};
use crate::markup::{sanitize_for_translation, spec_sanitize_for_translation};

verus! {

/// The role of a chat message.
#[derive(Debug, Clone, Copy, PartialEq, Eq, Structural)]
pub enum MessageRole {
    System,
    User,
    Assistant,
}

pub open spec fn system_role() -> Seq<char> {
    seq!['s', 'y', 's', 't', 'e', 'm']
}

pub open spec fn user_role() -> Seq<char> {
    seq!['u', 's', 'e', 'r']
}

pub open spec fn assistant_role() -> Seq<char> {
    seq!['a', 's', 's', 'i', 's', 't', 'a', 'n', 't']
}

impl MessageRole {
    pub open spec fn spec_name(self) -> Seq<char> {
        match self {
            MessageRole::System => system_role(),
            MessageRole::User => user_role(),
            MessageRole::Assistant => assistant_role(),
        }
    }

    /// The name of the role as sent to the completion endpoint.
    pub fn name(&self) -> (s: String)
        ensures
            s@ == self.spec_name(),
    {
        match self {
            MessageRole::System => {
                let s = String::from_str("system");
                proof {
                    reveal_strlit("system");
                }
                s
            },
            MessageRole::User => {
                let s = String::from_str("user");
                proof {
                    reveal_strlit("user");
                }
                s
            },
            MessageRole::Assistant => {
                let s = String::from_str("assistant");
                proof {
                    reveal_strlit("assistant");
                }
                s
            },
        }
    }
}

/// Whether a role string names the given role.
pub fn role_is(role: &String, which: MessageRole) -> (r: bool)
    ensures
        r == (role@ == which.spec_name()),
{
    let name = which.name();
    str_eq(role.as_str(), name.as_str())
}

/// One chat message.
#[derive(Debug)]
pub struct AIMessage {
    pub role: String,
    pub content: String,
}

impl Clone for AIMessage {
    fn clone(&self) -> (r: Self)
        ensures
            r == *self,
    {
        AIMessage { role: self.role.clone(), content: self.content.clone() }
    }
}

impl AIMessage {
    /// A system message.
    pub fn system(content: &str) -> (m: Self)
        ensures
            m.role@ == system_role(),
            m.content@ == content@,
    {
        AIMessage { role: MessageRole::System.name(), content: String::from_str(content) }
    }

    /// A user message.
    pub fn user(content: &str) -> (m: Self)
        ensures
            m.role@ == user_role(),
            m.content@ == content@,
    {
        AIMessage { role: MessageRole::User.name(), content: String::from_str(content) }
    }

    /// An assistant message.
    pub fn assistant(content: &str) -> (m: Self)
        ensures
            m.role@ == assistant_role(),
            m.content@ == content@,
    {
        AIMessage { role: MessageRole::Assistant.name(), content: String::from_str(content) }
    }
}

/// Errors of the assistant client.
#[derive(Debug)]
pub enum AIClientError {
    HttpRequest(String),
    Timeout,
    ResponseParse(String),
    ApiError(String),
    ConfigError(String),
}

pub open spec fn empty_url_message() -> Seq<char> {
    "API URL 不能为空"@
}

pub open spec fn empty_model_message() -> Seq<char> {
    "模型名称不能为空"@
}

pub open spec fn empty_key_message() -> Seq<char> {
    "API Key 不能为空"@
}

/// The endpoint, key and model of the completion service.
#[derive(Debug)]
pub struct AIClient {
    pub api_url: String,
    pub api_key: String,
    pub model_name: String,
    /// Request timeout in milliseconds.
    pub timeout_ms: u64,
}

impl Clone for AIClient {
    fn clone(&self) -> (r: Self)
        ensures
            r == *self,
    {
        AIClient {
            api_url: self.api_url.clone(),
            api_key: self.api_key.clone(),
            model_name: self.model_name.clone(),
            timeout_ms: self.timeout_ms,
        }
    }
}

/// Whether a string is empty once surrounding white space is removed.
pub fn is_blank(s: &str) -> (r: bool)
    ensures
        r == (spec_trim(s@).len() == 0),
{
    let cs = chars_of(s);
    let t = trim_chars(cs.as_slice());
    t.len() == 0
}

impl AIClient {
    /// A client for the given endpoint; the URL and the model name must not be blank.
    pub fn new(api_url: &str, api_key: &str, model_name: &str) -> (r: Result<Self, AIClientError>)
        ensures
            spec_trim(api_url@).len() == 0 ==> (r matches Err(AIClientError::ConfigError(m)) && m@
                == empty_url_message()),
            spec_trim(api_url@).len() != 0 && spec_trim(model_name@).len() == 0 ==> (r matches Err(
                AIClientError::ConfigError(m),
            ) && m@ == empty_model_message()),
            spec_trim(api_url@).len() != 0 && spec_trim(model_name@).len() != 0 ==> (r matches Ok(
                c,
            ) && c.api_url@ == api_url@ && c.api_key@ == api_key@ && c.model_name@ == model_name@
                && c.timeout_ms == 30000),
    {
        if is_blank(api_url) {
            let m = String::from_str("API URL 不能为空");
            return Err(AIClientError::ConfigError(m));
        }
        if is_blank(model_name) {
            let m = String::from_str("模型名称不能为空");
            return Err(AIClientError::ConfigError(m));
        }
        Ok(
            AIClient {
                api_url: String::from_str(api_url),
                api_key: String::from_str(api_key),
                model_name: String::from_str(model_name),
                timeout_ms: 30000,
            },
        )
    }

    /// The check made before any request: the key must not be blank.
    pub fn check_api_key(&self) -> (r: Result<(), AIClientError>)
        ensures
            spec_trim(self.api_key@).len() == 0 <==> r is Err,
            r matches Err(e) ==> (e matches AIClientError::ConfigError(m) && m@
                == empty_key_message()),
    {
        if is_blank(self.api_key.as_str()) {
            return Err(AIClientError::ConfigError(String::from_str("API Key 不能为空")));
        }
        Ok(())
    }

    /// Sets the request timeout.
    pub fn set_timeout(&mut self, timeout_ms: u64)
        ensures
            final(self).timeout_ms == timeout_ms,
            final(self).api_url == old(self).api_url,
            final(self).api_key == old(self).api_key,
            final(self).model_name == old(self).model_name,
    {
        self.timeout_ms = timeout_ms;
    }

    /// Replaces the endpoint settings; the URL and the model name must not be blank.
    pub fn update_config(&mut self, api_url: &str, api_key: &str, model_name: &str) -> (r: Result<
        (),
        AIClientError,
    >)
        ensures
            spec_trim(api_url@).len() == 0 ==> (r matches Err(AIClientError::ConfigError(m)) && m@
                == empty_url_message()),
            spec_trim(api_url@).len() != 0 && spec_trim(model_name@).len() == 0 ==> (r matches Err(
                AIClientError::ConfigError(m),
            ) && m@ == empty_model_message()),
            r is Err ==> *final(self) == *old(self),
            r is Ok <==> (spec_trim(api_url@).len() != 0 && spec_trim(model_name@).len() != 0),
            r is Ok ==> final(self).api_url@ == api_url@ && final(self).api_key@ == api_key@
                && final(self).model_name@ == model_name@ && final(self).timeout_ms == old(self).timeout_ms,
    {
        if is_blank(api_url) {
            return Err(AIClientError::ConfigError(String::from_str("API URL 不能为空")));
        }
        if is_blank(model_name) {
            return Err(AIClientError::ConfigError(String::from_str("模型名称不能为空")));
        }
        self.api_url = String::from_str(api_url);
        self.api_key = String::from_str(api_key);
        self.model_name = String::from_str(model_name);
        Ok(())
    }
}

// ---------------------------------------------------------------------------
// Token estimation
// ---------------------------------------------------------------------------

/// Characters that count as one token each: CJK ideographs, kana, hangul and
/// full-width forms.
pub open spec fn is_cjk(c: char) -> bool {
    ||| ('\u{4E00}' <= c && c <= '\u{9FFF}')
    ||| ('\u{3400}' <= c && c <= '\u{4DBF}')
    ||| ('\u{20000}' <= c && c <= '\u{2A6DF}')
    ||| ('\u{3040}' <= c && c <= '\u{309F}')
    ||| ('\u{30A0}' <= c && c <= '\u{30FF}')
    ||| ('\u{AC00}' <= c && c <= '\u{D7AF}')
    ||| ('\u{FF00}' <= c && c <= '\u{FFEF}')
}

pub open spec fn is_ascii_alnum(c: char) -> bool {
    ('a' <= c && c <= 'z') || ('A' <= c && c <= 'Z') || ('0' <= c && c <= '9')
}

/// Tokens counted for an ASCII word of the given length.
pub open spec fn ascii_word_tokens(n: nat) -> nat {
    if n == 0 {
        0
    } else if n <= 3 {
        1
    } else if n <= 7 {
        2
    } else if n <= 11 {
        3
    } else {
        ((n + 3) / 4) as nat
    }
}

/// One step of the estimator: (tokens so far, length of the pending ASCII word).
pub open spec fn tok_step(st: (nat, nat), c: char) -> (nat, nat) {
    if is_ascii_alnum(c) && !is_cjk(c) {
        (st.0, st.1 + 1)
    } else {
        (st.0 + ascii_word_tokens(st.1) + 1, 0)
    }
}

pub open spec fn tok_state(s: Seq<char>) -> (nat, nat)
    decreases s.len(),
{
    if s.len() == 0 {
        (0, 0)
    } else {
        tok_step(tok_state(s.drop_last()), s.last())
    }
}

/// The estimated token count of a text (at least one).
pub open spec fn spec_estimate_tokens(s: Seq<char>) -> nat {
    let st = tok_state(s);
    let e = st.0 + ascii_word_tokens(st.1);
    if e < 1 {
        1
    } else {
        e
    }
}

pub proof fn lemma_ascii_word_tokens_le(n: nat)
    ensures
        ascii_word_tokens(n) <= n,
{
}

pub proof fn lemma_tok_state_bound(s: Seq<char>)
    ensures
        tok_state(s).0 + tok_state(s).1 <= s.len(),
    decreases s.len(),
{
    if s.len() > 0 {
        lemma_tok_state_bound(s.drop_last());
        lemma_ascii_word_tokens_le(tok_state(s.drop_last()).1);
    }
}

pub proof fn lemma_estimate_bound(s: Seq<char>)
    ensures
        spec_estimate_tokens(s) <= s.len() || s.len() == 0,
        spec_estimate_tokens(s) >= 1,
{
    lemma_tok_state_bound(s);
    lemma_ascii_word_tokens_le(tok_state(s).1);
}

/// Whether a character is counted as a single CJK token.
pub fn is_cjk_char(c: char) -> (r: bool)
    ensures
        r == is_cjk(c),
{
    ('\u{4E00}' <= c && c <= '\u{9FFF}') || ('\u{3400}' <= c && c <= '\u{4DBF}') || ('\u{20000}'
        <= c && c <= '\u{2A6DF}') || ('\u{3040}' <= c && c <= '\u{309F}') || ('\u{30A0}' <= c && c
        <= '\u{30FF}') || ('\u{AC00}' <= c && c <= '\u{D7AF}') || ('\u{FF00}' <= c && c
        <= '\u{FFEF}')
}

/// Tokens counted for an ASCII word of the given length.
pub fn estimate_ascii_word_tokens(word_len: usize) -> (r: usize)
    ensures
        r == ascii_word_tokens(word_len as nat),
{
    if word_len == 0 {
        0
    } else if word_len <= 3 {
        1
    } else if word_len <= 7 {
        2
    } else if word_len <= 11 {
        3
    } else {
        let q = word_len / 4;
        let r = if word_len % 4 != 0 {
            q + 1
        } else {
            q
        };
        assert(r == (word_len + 3) / 4);
        r
    }
}

/// The estimated token count of a text.
pub fn estimate_tokens(text: &str) -> (r: usize)
    ensures
        r == spec_estimate_tokens(text@),
{
    let cs = chars_of(text);
    let n = cs.len();
    let mut estimate: usize = 0;
    let mut word_len: usize = 0;
    let mut i: usize = 0;
    while i < n
        invariant
            n == cs@.len(),
            cs@ == text@,
            i <= n,
            (estimate as nat, word_len as nat) == tok_state(cs@.take(i as int)),
            estimate + word_len <= i,
        decreases n - i,
    {
        let c = cs[i];
        proof {
            assert(cs@.take(i + 1).drop_last() == cs@.take(i as int));
            lemma_ascii_word_tokens_le(word_len as nat);
        }
        let cjk = is_cjk_char(c);
        if !cjk && (('a' <= c && c <= 'z') || ('A' <= c && c <= 'Z') || ('0' <= c && c <= '9')) {
            word_len = word_len + 1;
        } else {
            estimate = estimate + estimate_ascii_word_tokens(word_len) + 1;
            word_len = 0;
        }
        i = i + 1;
    }
    assert(cs@.take(n as int) == cs@);
    proof {
        lemma_ascii_word_tokens_le(word_len as nat);
    }
    let e = estimate + estimate_ascii_word_tokens(word_len);
    if e < 1 {
        1
    } else {
        e
    }
}

pub open spec fn role_tokens(role: Seq<char>) -> nat {
    if role == system_role() {
        4
    } else if role == user_role() {
        3
    } else if role == assistant_role() {
        4
    } else {
        3
    }
}

pub open spec fn format_tokens(role: Seq<char>) -> nat {
    if role == system_role() {
        4
    } else {
        3
    }
}

pub open spec fn message_tokens(m: AIMessage) -> nat {
    role_tokens(m.role@) + spec_estimate_tokens(m.content@) + format_tokens(m.role@)
}

pub open spec fn msgs_tokens(msgs: Seq<AIMessage>) -> nat
    decreases msgs.len(),
{
    if msgs.len() == 0 {
        0
    } else {
        msgs_tokens(msgs.drop_last()) + message_tokens(msgs.last())
    }
}

/// The estimated token count of a conversation, framing included.
pub fn estimate_messages_tokens(messages: &[AIMessage]) -> (r: usize)
    requires
        msgs_tokens(messages@) + 2 <= usize::MAX,
    ensures
        r == msgs_tokens(messages@) + 2,
{
    let mut total: usize = 0;
    let mut i: usize = 0;
    while i < messages.len()
        invariant
            i <= messages@.len(),
            total == msgs_tokens(messages@.take(i as int)),
            msgs_tokens(messages@) + 2 <= usize::MAX,
        decreases messages@.len() - i,
    {
        proof {
            assert(messages@.take(i + 1).drop_last() == messages@.take(i as int));
            lemma_msgs_tokens_prefix(messages@, i as int + 1);
        }
        let msg = &messages[i];
        let role_t: usize = if role_is(&msg.role, MessageRole::System) {
            4
        } else if role_is(&msg.role, MessageRole::User) {
            3
        } else if role_is(&msg.role, MessageRole::Assistant) {
            4
        } else {
            3
        };
        let content_t = estimate_tokens(msg.content.as_str());
        let format_t: usize = if role_is(&msg.role, MessageRole::System) {
            4
        } else {
            3
        };
        total = total + role_t + content_t + format_t;
        i = i + 1;
    }
    assert(messages@.take(messages@.len() as int) == messages@);
    total + 2
}

pub proof fn lemma_msgs_tokens_prefix(msgs: Seq<AIMessage>, k: int)
    requires
        0 <= k <= msgs.len(),
    ensures
        msgs_tokens(msgs.take(k)) <= msgs_tokens(msgs),
    decreases msgs.len(),
{
    if k < msgs.len() {
        assert(msgs.drop_last().take(k) == msgs.take(k));
        lemma_msgs_tokens_prefix(msgs.drop_last(), k);
    } else {
        assert(msgs.take(k) == msgs);
    }
}

// ---------------------------------------------------------------------------
// Chat history
// ---------------------------------------------------------------------------

/// The token budget of a conversation.
pub const MAX_TOKENS: usize = 4096;

pub open spec fn starts_with_system(msgs: Seq<AIMessage>) -> bool {
    msgs.len() > 0 && msgs[0].role@ == system_role()
}

/// Trimming by message count: keep the system message, if any, and the newest messages.
pub open spec fn trim_by_count(msgs: Seq<AIMessage>, max: nat) -> Seq<AIMessage> {
    if msgs.len() > max {
        if starts_with_system(msgs) {
            seq![msgs[0]] + msgs.subrange(msgs.len() - (max - 1), msgs.len() as int)
        } else {
            msgs.subrange(msgs.len() - max, msgs.len() as int)
        }
    } else {
        msgs
    }
}

/// Tokens charged for keeping one message.
pub open spec fn kept_tokens(m: AIMessage) -> nat {
    spec_estimate_tokens(m.content@) + 5
}

/// How many of the newest messages fit in the budget once `used` tokens are spent,
/// taking them newest first and stopping at the first that does not fit.
pub open spec fn fit_count(rest: Seq<AIMessage>, used: int) -> nat
    decreases rest.len(),
{
    if rest.len() == 0 {
        0
    } else if used + kept_tokens(rest.last()) <= MAX_TOKENS {
        1 + fit_count(rest.drop_last(), used + kept_tokens(rest.last()))
    } else {
        0
    }
}

/// Trimming by the token budget.
pub open spec fn trim_by_tokens(msgs: Seq<AIMessage>) -> Seq<AIMessage> {
    if starts_with_system(msgs) {
        let rest = msgs.drop_first();
        let k = fit_count(rest, kept_tokens(msgs[0]) as int);
        seq![msgs[0]] + rest.subrange(rest.len() - k, rest.len() as int)
    } else {
        let k = fit_count(msgs, 0);
        msgs.subrange(msgs.len() - k, msgs.len() as int)
    }
}

/// The history kept after trimming.
pub open spec fn spec_trim_history(msgs: Seq<AIMessage>, max: nat) -> Seq<AIMessage> {
    trim_by_tokens(trim_by_count(msgs, max))
}

/// Token totals of the newest `k` messages.
pub open spec fn suffix_tokens(rest: Seq<AIMessage>, k: nat) -> nat
    decreases k,
{
    if k == 0 || rest.len() == 0 {
        0
    } else {
        kept_tokens(rest.last()) + suffix_tokens(rest.drop_last(), (k - 1) as nat)
    }
}

pub proof fn lemma_fit_count_bound(rest: Seq<AIMessage>, used: int)
    ensures
        fit_count(rest, used) <= rest.len(),
        fit_count(rest, used) > 0 ==> used + suffix_tokens(rest, fit_count(rest, used))
            <= MAX_TOKENS,
    decreases rest.len(),
{
    if rest.len() > 0 && used + kept_tokens(rest.last()) <= MAX_TOKENS {
        let u2 = used + kept_tokens(rest.last());
        lemma_fit_count_bound(rest.drop_last(), u2);
        let k2 = fit_count(rest.drop_last(), u2);
        assert(fit_count(rest, used) == 1 + k2);
        assert(suffix_tokens(rest, (1 + k2) as nat) == kept_tokens(rest.last()) + suffix_tokens(
            rest.drop_last(),
            k2,
        ));
        if k2 == 0 {
            assert(suffix_tokens(rest.drop_last(), 0) == 0);
        }
    }
}

/// A conversation with the assistant and its bounded history.
#[derive(Debug)]
pub struct AIChatSession {
    pub client: AIClient,
    pub messages: Vec<AIMessage>,
    pub max_history_length: usize,
}

/// Copies `src[from..to]` to the end of `dst`.
fn extend_messages(dst: &mut Vec<AIMessage>, src: &[AIMessage], from: usize, to: usize)
    requires
        from <= to <= src@.len(),
    ensures
        final(dst)@ == old(dst)@ + src@.subrange(from as int, to as int),
{
    let mut i = from;
    while i < to
        invariant
            from <= i <= to,
            to <= src@.len(),
            dst@ == old(dst)@ + src@.subrange(from as int, i as int),
        decreases to - i,
    {
        dst.push(src[i].clone());
        assert(src@.subrange(from as int, i + 1) == src@.subrange(from as int, i as int).push(
            src@[i as int],
        ));
        i = i + 1;
    }
}

/// Whether the first message of a history is a system message.
pub fn starts_with_system_exec(msgs: &[AIMessage]) -> (r: bool)
    ensures
        r == starts_with_system(msgs@),
{
    msgs.len() > 0 && role_is(&msgs[0].role, MessageRole::System)
}

impl AIChatSession {
    /// The sessions on which trimming is defined: a zero length limit only
    /// without a system message.
    pub open spec fn trim_ok(&self) -> bool {
        self.max_history_length > 0 || !starts_with_system(self.messages@)
    }

    /// A new, empty session that keeps up to a hundred messages.
    pub fn new(client: AIClient) -> (s: Self)
        ensures
            s.client == client,
            s.messages@.len() == 0,
            s.max_history_length == 100,
    {
        AIChatSession { client, messages: Vec::new(), max_history_length: 100 }
    }

    /// Sets the system prompt: replaces the leading system message or inserts one.
    pub fn set_system_prompt(&mut self, prompt: &str)
        ensures
            final(self).client == old(self).client,
            final(self).max_history_length == old(self).max_history_length,
            final(self).messages@.len() > 0,
            final(self).messages@[0].role@ == system_role(),
            final(self).messages@[0].content@ == prompt@,
            starts_with_system(old(self).messages@) ==> final(self).messages@.drop_first()
                == old(self).messages@.drop_first(),
            !starts_with_system(old(self).messages@) ==> final(self).messages@.drop_first()
                == old(self).messages@,
    {
        if starts_with_system_exec(self.messages.as_slice()) {
            self.messages.set(0, AIMessage::system(prompt));
            return ;
        }
        self.messages.insert(0, AIMessage::system(prompt));
        assert(self.messages@.drop_first() =~= old(self).messages@);
    }

    /// The history.
    pub fn get_messages(&self) -> (r: &[AIMessage])
        ensures
            r@ == self.messages@,
    {
        self.messages.as_slice()
    }

    /// Clears the history, keeping the system message if there is one.
    pub fn clear_history(&mut self)
        ensures
            final(self).client == old(self).client,
            final(self).max_history_length == old(self).max_history_length,
            starts_with_system(old(self).messages@) ==> final(self).messages@ == seq![
                old(self).messages@[0],
            ],
            !starts_with_system(old(self).messages@) ==> final(self).messages@.len() == 0,
    {
        if starts_with_system_exec(self.messages.as_slice()) {
            let first = self.messages[0].clone();
            let mut v: Vec<AIMessage> = Vec::new();
            v.push(first);
            self.messages = v;
        } else {
            self.messages.clear();
        }
    }

    /// Sets the length limit and trims the history to it.
    pub fn set_max_history_length(&mut self, length: usize)
        requires
            length > 0 || !starts_with_system(old(self).messages@),
        ensures
            final(self).max_history_length == length,
            final(self).client == old(self).client,
            final(self).messages@ == spec_trim_history(old(self).messages@, length as nat),
    {
        self.max_history_length = length;
        self.trim_history();
    }

    /// Records an assistant reply and trims the history.
    pub fn add_assistant_message(&mut self, content: &str)
        requires
            old(self).trim_ok(),
        ensures
            final(self).max_history_length == old(self).max_history_length,
            final(self).client == old(self).client,
            exists|m: AIMessage|
                m.role@ == assistant_role() && m.content@ == content@ && final(self).messages@
                    == spec_trim_history(
                    old(self).messages@.push(m),
                    old(self).max_history_length as nat,
                ),
    {
        let m = AIMessage::assistant(content);
        let ghost gm = m;
        self.messages.push(m);
        proof {
            if old(self).max_history_length == 0 {
                if old(self).messages@.len() > 0 {
                    assert(self.messages@[0] == old(self).messages@[0]);
                } else {
                    assert(self.messages@[0].role@ == assistant_role());
                    assert(assistant_role()[0] != system_role()[0]);
                }
            }
        }
        self.trim_history();
        assert(self.messages@ == spec_trim_history(
            old(self).messages@.push(gm),
            old(self).max_history_length as nat,
        ));
    }

    /// Takes the outcome of the request sent for the conversation and hands it
    /// back: a reply is recorded as the assistant's turn and the history
    /// trimmed; after a failure the history stays as it was, so the user's
    /// turn is kept.
    pub fn receive_reply(&mut self, outcome: Result<String, AIClientError>) -> (r: Result<String, AIClientError>)
        requires
            old(self).trim_ok(),
        ensures
            r == outcome,
            final(self).max_history_length == old(self).max_history_length,
            final(self).client == old(self).client,
            outcome is Err ==> final(self).messages == old(self).messages,
            outcome matches Ok(s) ==> exists|m: AIMessage|
                m.role@ == assistant_role() && m.content@ == s@ && final(self).messages@
                    == spec_trim_history(
                    old(self).messages@.push(m),
                    old(self).max_history_length as nat,
                ),
    {
        match outcome {
            Ok(reply) => {
                self.add_assistant_message(reply.as_str());
                Ok(reply)
            },
            Err(e) => Err(e),
        }
    }

    /// Trims the history by message count, then by the token budget.
    pub fn trim_history(&mut self)
        requires
            old(self).trim_ok(),
        ensures
            final(self).max_history_length == old(self).max_history_length,
            final(self).client == old(self).client,
            final(self).messages@ == spec_trim_history(
                old(self).messages@,
                old(self).max_history_length as nat,
            ),
    {
        let ghost before = self.messages@;
        let n = self.messages.len();
        if n > self.max_history_length {
            let has_sys = starts_with_system_exec(self.messages.as_slice());
            let mut new_messages: Vec<AIMessage> = Vec::new();
            if has_sys {
                new_messages.push(self.messages[0].clone());
            }
            let start = n - (self.max_history_length - new_messages.len());
            extend_messages(&mut new_messages, self.messages.as_slice(), start, n);
            self.messages = new_messages;
            assert(self.messages@ =~= trim_by_count(before, self.max_history_length as nat));
        }
        let ghost counted = self.messages@;
        assert(counted == trim_by_count(before, self.max_history_length as nat));
        let len = self.messages.len();
        let has_sys = starts_with_system_exec(self.messages.as_slice());
        let rest_start: usize = if has_sys {
            1
        } else {
            0
        };
        let ghost rest = counted.subrange(rest_start as int, len as int);
        proof {
            if has_sys {
                assert(rest == counted.drop_first());
            } else {
                assert(rest == counted);
            }
        }
        // tokens already spent on the system message
        let mut total: usize = 0;
        let mut fits_any = true;
        if has_sys {
            let e = estimate_tokens(self.messages[0].content.as_str());
            if e > MAX_TOKENS - 5 {
                fits_any = false;
            } else {
                total = e + 5;
            }
        }
        let ghost used0: int = if has_sys {
            kept_tokens(counted[0]) as int
        } else {
            0
        };
        let mut k: usize = 0;
        assert(rest.subrange(0, rest.len() as int) =~= rest);
        if fits_any {
            loop
                invariant
                    counted == self.messages@,
                    len == counted.len(),
                    rest_start <= len,
                    rest == counted.subrange(rest_start as int, len as int),
                    k <= rest.len(),
                    total <= MAX_TOKENS,
                    fit_count(rest, used0) == k + fit_count(
                        rest.subrange(0, rest.len() - k),
                        total as int,
                    ),
                ensures
                    k <= rest.len(),
                    fit_count(rest, used0) == k,
                decreases rest.len() - k,
            {
                if k == len - rest_start {
                    assert(rest.subrange(0, rest.len() - k).len() == 0);
                    break;
                }
                let idx = len - 1 - k;
                let ghost pre = rest.subrange(0, rest.len() - k);
                assert(pre.last() == counted[idx as int]);
                assert(pre.drop_last() =~= rest.subrange(0, rest.len() - (k + 1)));
                let e = estimate_tokens(self.messages[idx].content.as_str());
                if e > MAX_TOKENS - 5 || e + 5 > MAX_TOKENS - total {
                    break;
                }
                total = total + e + 5;
                k = k + 1;
            }
        } else {
            proof {
                lemma_estimate_bound(counted[0].content@);
                if rest.len() > 0 {
                    lemma_estimate_bound(rest.last().content@);
                }
            }
            assert(fit_count(rest, used0) == 0);
        }
        let mut result: Vec<AIMessage> = Vec::new();
        if has_sys {
            result.push(self.messages[0].clone());
        }
        extend_messages(&mut result, self.messages.as_slice(), len - k, len);
        self.messages = result;
        proof {
            if has_sys {
                assert(rest.subrange(rest.len() - k, rest.len() as int) =~= counted.subrange(
                    len - k,
                    len as int,
                ));
            } else {
                assert(rest.subrange(rest.len() - k, rest.len() as int) =~= counted.subrange(
                    len - k,
                    len as int,
                ));
            }
        }
    }
}

impl AIChatSession {
    /// Records a user message and trims the history: the part of sending a
    /// message that comes before the request.
    pub fn push_user_message(&mut self, content: &str)
        requires
            old(self).trim_ok(),
        ensures
            final(self).max_history_length == old(self).max_history_length,
            final(self).client == old(self).client,
            exists|m: AIMessage|
                m.role@ == user_role() && m.content@ == content@ && final(self).messages@
                    == spec_trim_history(
                    old(self).messages@.push(m),
                    old(self).max_history_length as nat,
                ),
    {
        let m = AIMessage::user(content);
        let ghost gm = m;
        self.messages.push(m);
        proof {
            if old(self).max_history_length == 0 {
                if old(self).messages@.len() > 0 {
                    assert(self.messages@[0] == old(self).messages@[0]);
                } else {
                    assert(self.messages@[0].role@ == user_role());
                    assert(user_role()[0] != system_role()[0]);
                }
            }
        }
        self.trim_history();
        assert(self.messages@ == spec_trim_history(
            old(self).messages@.push(gm),
            old(self).max_history_length as nat,
        ));
    }
}

// ---------------------------------------------------------------------------
// Prompts
// ---------------------------------------------------------------------------

/// The instruction given with a plain question.
pub open spec fn ask_prompt() -> Seq<char> {
    "你是一个有用的助手。请根据提供的内容，给出详细、准确的回答。"@
}

/// The instruction given for language detection.
pub open spec fn detect_prompt() -> Seq<char> {
    "你是一个语言检测专家。请仅返回文本的语言代码，如中文返回'zh'，英文返回'en'，日语返回'ja'，韩语返回'ko'，法语返回'fr'，德语返回'de'，西班牙语返回'es'，俄语返回'ru'，其他语言返回对应的ISO 639-1语言代码。不要返回任何解释或其他内容。"@
}

/// The instruction given for a translation into Chinese of a text.
pub open spec fn translate_text_prompt() -> Seq<char> {
    "你是一个专业的翻译官。请将以下文本翻译成中文，保持原意准确，语言流畅自然。不要添加任何解释或其他内容，仅返回翻译结果。"@
}

/// The instruction given for translating an article.
pub open spec fn translate_article_prompt() -> Seq<char> {
    "你是一个专业的翻译官。请将文本翻译成中文，保持原意准确，语言流畅自然。不要添加任何解释或其他内容，仅返回翻译结果。"@
}

/// A conversation of an instruction and a user text.
pub open spec fn instructed(msgs: Seq<AIMessage>, instruction: Seq<char>, text: Seq<char>) -> bool {
    &&& msgs.len() == 2
    &&& msgs[0].role@ == system_role()
    &&& msgs[0].content@ == instruction
    &&& msgs[1].role@ == user_role()
    &&& msgs[1].content@ == text
}

fn instruction_pair(instruction: &str, text: &str) -> (r: Vec<AIMessage>)
    ensures
        instructed(r@, instruction@, text@),
{
    let mut v: Vec<AIMessage> = Vec::new();
    v.push(AIMessage::system(instruction));
    v.push(AIMessage::user(text));
    v
}

/// The messages of a plain question.
pub fn ask_messages(question: &str) -> (r: Vec<AIMessage>)
    ensures
        instructed(r@, ask_prompt(), question@),
{
    instruction_pair("你是一个有用的助手。请根据提供的内容，给出详细、准确的回答。", question)
}

/// The messages asking for the language of a text.
pub fn detect_language_messages(text: &str) -> (r: Vec<AIMessage>)
    ensures
        instructed(r@, detect_prompt(), text@),
{
    instruction_pair(
        "你是一个语言检测专家。请仅返回文本的语言代码，如中文返回'zh'，英文返回'en'，日语返回'ja'，韩语返回'ko'，法语返回'fr'，德语返回'de'，西班牙语返回'es'，俄语返回'ru'，其他语言返回对应的ISO 639-1语言代码。不要返回任何解释或其他内容。",
        text,
    )
}

/// The language code in a detection reply: trimmed and lower-cased.
pub fn language_code(reply: &str) -> (r: String)
    ensures
        r@ == spec_lowercase(spec_trim(reply@)),
{
    let t = trim_str(reply);
    to_lowercase(t.as_str())
}

/// The messages asking for a translation of a text into Chinese.
pub fn translate_to_chinese_messages(text: &str) -> (r: Vec<AIMessage>)
    ensures
        instructed(r@, translate_text_prompt(), text@),
{
    instruction_pair(
        "你是一个专业的翻译官。请将以下文本翻译成中文，保持原意准确，语言流畅自然。不要添加任何解释或其他内容，仅返回翻译结果。",
        text,
    )
}

/// The messages translating an article's title and content: each cleaned
/// down to paragraphs and line breaks, then put after its request.
pub fn translate_article_messages(title: &str, content: &str) -> (r: (Vec<AIMessage>, Vec<AIMessage>))
    ensures
        instructed(
            r.0@,
            translate_article_prompt(),
            "请将以下文章标题翻译成中文，保持原意准确，语言流畅自然：\n\n"@ + spec_sanitize_for_translation(title@),
        ),
        instructed(
            r.1@,
            translate_article_prompt(),
            "请将以下文章内容翻译成中文，保持原意准确，语言流畅自然：\n\n"@ + spec_sanitize_for_translation(content@),
        ),
{
    let ct = sanitize_for_translation(title);
    let cc = sanitize_for_translation(content);
    let mut tp: Vec<char> = Vec::new();
    append_str(&mut tp, "请将以下文章标题翻译成中文，保持原意准确，语言流畅自然：\n\n");
    append_str(&mut tp, ct.as_str());
    let mut cp: Vec<char> = Vec::new();
    append_str(&mut cp, "请将以下文章内容翻译成中文，保持原意准确，语言流畅自然：\n\n");
    append_str(&mut cp, cc.as_str());
    let tps = string_of(tp.as_slice());
    let cps = string_of(cp.as_slice());
    let instruction = "你是一个专业的翻译官。请将文本翻译成中文，保持原意准确，语言流畅自然。不要添加任何解释或其他内容，仅返回翻译结果。";
    (instruction_pair(instruction, tps.as_str()), instruction_pair(instruction, cps.as_str()))
}

// ---------------------------------------------------------------------------
// Streamed replies
// ---------------------------------------------------------------------------

/// The state of reading a streamed reply: the text received but not yet
/// read as lines, and the payloads found so far.
pub open spec fn sse_line_payload(line: Seq<char>) -> Option<Seq<char>> {
    if spec_starts_with(line, "data: "@) {
        Some(spec_trim(line.subrange(6, line.len() as int)))
    } else {
        None
    }
}

/// The lines of a buffer are read one by one; a `data: ` line gives its
/// trimmed payload; `[DONE]` stops the reading until more text arrives.
/// The result is the payloads and the text left unread.
pub open spec fn sse_drain(buf: Seq<char>) -> (Seq<Seq<char>>, Seq<char>)
    decreases buf.len(),
{
    match spec_find(buf, seq!['\n']) {
        None => (Seq::empty(), buf),
        Some(i) => if 0 <= i < buf.len() {
            let line = buf.subrange(0, i + 1);
            let rest = buf.subrange(i + 1, buf.len() as int);
            match sse_line_payload(line) {
                Some(d) => if d == "[DONE]"@ {
                    (Seq::empty(), rest)
                } else {
                    let (ps, left) = sse_drain(rest);
                    (seq![d] + ps, left)
                },
                None => sse_drain(rest),
            }
        } else {
            (Seq::empty(), buf)
        },
    }
}

/// Text of a streamed reply not yet split into lines.
pub struct SseBuffer {
    pub pending: Vec<char>,
}

impl SseBuffer {
    /// An empty buffer.
    pub fn new() -> (b: Self)
        ensures
            b.pending@.len() == 0,
    {
        SseBuffer { pending: Vec::new() }
    }

    /// Adds a chunk of the reply and returns the payloads of the `data:`
    /// lines it completes, in order.
    pub fn push_chunk(&mut self, chunk: &str) -> (r: Vec<String>)
        ensures
            r@.map_values(|s: String| s@) == sse_drain(old(self).pending@ + chunk@).0,
            final(self).pending@ == sse_drain(old(self).pending@ + chunk@).1,
    {
        append_str(&mut self.pending, chunk);
        let buf = slice_chars(self.pending.as_slice(), 0, self.pending.len());
        assert(buf@ =~= old(self).pending@ + chunk@);
        let (ps, left) = drain_lines(buf);
        self.pending = left;
        ps
    }
}

fn drain_lines(buf: Vec<char>) -> (r: (Vec<String>, Vec<char>))
    ensures
        r.0@.map_values(|s: String| s@) == sse_drain(buf@).0,
        r.1@ == sse_drain(buf@).1,
    decreases buf@.len(),
{
    match find_char(buf.as_slice(), '\n') {
        None => (Vec::new(), buf),
        Some(i) => {
            proof {
                lemma_find_from_bounds(buf@, seq!['\n'], 0);
            }
            assert(i + 1 <= buf@.len() && buf@.len() == buf.len());
            let line = slice_chars(buf.as_slice(), 0, i + 1);
            let rest = slice_chars(buf.as_slice(), i + 1, buf.len());
            let data = chars_of("data: ");
            proof {
                reveal_strlit("data: ");
            }
            if crate::text::starts_with_chars(line.as_slice(), data.as_slice()) {
                let body = slice_chars(line.as_slice(), 6, line.len());
                let d = trim_chars(body.as_slice());
                let done = chars_of("[DONE]");
                if crate::text::chars_eq(d.as_slice(), done.as_slice()) {
                    return (Vec::new(), rest);
                }
                let (ps, left) = drain_lines(rest);
                let mut out: Vec<String> = Vec::new();
                out.push(string_of(d.as_slice()));
                let mut k: usize = 0;
                while k < ps.len()
                    invariant
                        k <= ps@.len(),
                        out@.map_values(|s: String| s@) == seq![d@] + ps@.map_values(|s: String| s@).take(k as int),
                    decreases ps@.len() - k,
                {
                    let ghost before = out@;
                    out.push(ps[k].clone());
                    proof {
                        assert(out@.map_values(|s: String| s@) =~= before.map_values(|s: String| s@).push(ps@[k as int]@));
                        assert(ps@.map_values(|s: String| s@).take(k + 1) =~= ps@.map_values(|s: String| s@).take(k as int).push(ps@[k as int]@));
                    }
                    k = k + 1;
                }
                assert(ps@.map_values(|s: String| s@).take(ps@.len() as int) =~= ps@.map_values(|s: String| s@));
                (out, left)
            } else {
                drain_lines(rest)
            }
        },
    }
}


// ---------------------------------------------------------------------------
// Replies
// ---------------------------------------------------------------------------

/// One `data:` payload of a streamed reply, read as JSON: the delta content
/// of each of its choices (`None` where a choice has none).
#[derive(Debug)]
pub struct StreamChunk {
    pub contents: Vec<Option<String>>,
}

/// The contents present among the choices, in order.
pub open spec fn present_contents(s: Seq<Option<String>>) -> Seq<Seq<char>>
    decreases s.len(),
{
    if s.len() == 0 {
        Seq::empty()
    } else {
        let r = present_contents(s.drop_last());
        match s.last() {
            Some(c) => r.push(c@),
            None => r,
        }
    }
}

/// The pieces of reply one payload carries: none when it did not read as
/// JSON.
pub open spec fn chunk_pieces(c: Option<StreamChunk>) -> Seq<Seq<char>> {
    match c {
        Some(ch) => present_contents(ch.contents@),
        None => Seq::empty(),
    }
}

/// The pieces of reply of all payloads, in order.
pub open spec fn stream_pieces(chunks: Seq<Option<StreamChunk>>) -> Seq<Seq<char>>
    decreases chunks.len(),
{
    if chunks.len() == 0 {
        Seq::empty()
    } else {
        stream_pieces(chunks.drop_last()) + chunk_pieces(chunks.last())
    }
}

/// Pieces of text joined with nothing between them.
pub open spec fn concat_pieces(ps: Seq<Seq<char>>) -> Seq<char>
    decreases ps.len(),
{
    if ps.len() == 0 {
        Seq::empty()
    } else {
        concat_pieces(ps.drop_last()) + ps.last()
    }
}

/// The pieces of reply of one payload, each handed to the listener as it
/// arrives.
pub fn stream_chunk_pieces(chunk: &Option<StreamChunk>) -> (r: Vec<String>)
    ensures
        r@.map_values(|s: String| s@) == chunk_pieces(*chunk),
{
    let mut out: Vec<String> = Vec::new();
    match chunk {
        None => {
            assert(out@.map_values(|s: String| s@) =~= Seq::<Seq<char>>::empty());
        },
        Some(ch) => {
            let ghost cs = ch.contents@;
            let mut i: usize = 0;
            assert(out@.map_values(|s: String| s@) =~= present_contents(cs.take(0)));
            while i < ch.contents.len()
                invariant
                    cs == ch.contents@,
                    i <= cs.len(),
                    out@.map_values(|s: String| s@) == present_contents(cs.take(i as int)),
                decreases cs.len() - i,
            {
                proof {
                    assert(cs.take(i + 1).drop_last() =~= cs.take(i as int));
                    assert(cs.take(i + 1).last() == cs[i as int]);
                }
                match &ch.contents[i] {
                    Some(c) => {
                        let ghost before = out@;
                        let piece = string_of(chars_of(c.as_str()).as_slice());
                        out.push(piece);
                        proof {
                            assert(out@.map_values(|s: String| s@) =~= before.map_values(|s: String| s@).push(c@));
                        }
                    },
                    None => {},
                }
                i = i + 1;
            }
            assert(cs.take(cs.len() as int) =~= cs);
        },
    }
    out
}

/// The reply assembled from the payloads of a stream: the pieces in order,
/// and their concatenation.
pub fn assemble_stream(chunks: &Vec<Option<StreamChunk>>) -> (r: (String, Vec<String>))
    ensures
        r.1@.map_values(|s: String| s@) == stream_pieces(chunks@),
        r.0@ == concat_pieces(stream_pieces(chunks@)),
{
    let mut pieces: Vec<String> = Vec::new();
    let mut full: Vec<char> = Vec::new();
    let mut i: usize = 0;
    assert(pieces@.map_values(|s: String| s@) =~= stream_pieces(chunks@.take(0)));
    while i < chunks.len()
        invariant
            i <= chunks@.len(),
            pieces@.map_values(|s: String| s@) == stream_pieces(chunks@.take(i as int)),
            full@ == concat_pieces(pieces@.map_values(|s: String| s@)),
        decreases chunks@.len() - i,
    {
        proof {
            assert(chunks@.take(i + 1).drop_last() =~= chunks@.take(i as int));
            assert(chunks@.take(i + 1).last() == chunks@[i as int]);
        }
        let cp = stream_chunk_pieces(&chunks[i]);
        let ghost start = pieces@.map_values(|s: String| s@);
        let ghost cpv = cp@.map_values(|s: String| s@);
        let mut j: usize = 0;
        assert(start + cpv.take(0) =~= start);
        while j < cp.len()
            invariant
                j <= cp@.len(),
                cpv == cp@.map_values(|s: String| s@),
                pieces@.map_values(|s: String| s@) == start + cpv.take(j as int),
                full@ == concat_pieces(pieces@.map_values(|s: String| s@)),
            decreases cp@.len() - j,
        {
            let ghost before = pieces@.map_values(|s: String| s@);
            let piece = string_of(chars_of(cp[j].as_str()).as_slice());
            append_str(&mut full, cp[j].as_str());
            pieces.push(piece);
            proof {
                assert(pieces@.map_values(|s: String| s@) =~= before.push(cpv[j as int]));
                assert(before.push(cpv[j as int]).drop_last() =~= before);
                assert(start + cpv.take(j + 1) =~= before.push(cpv[j as int]));
            }
            j = j + 1;
        }
        assert(cpv.take(cpv.len() as int) =~= cpv);
        i = i + 1;
    }
    assert(chunks@.take(chunks@.len() as int) =~= chunks@);
    (string_of(full.as_slice()), pieces)
}

/// The reply of a non-streamed answer: the content of its first choice.
pub fn first_choice(contents: Vec<String>) -> (r: Result<String, AIClientError>)
    ensures
        contents@.len() > 0 ==> r == Ok::<String, AIClientError>(contents@[0]),
        contents@.len() == 0 ==> (r matches Err(AIClientError::ApiError(m)) && m@ == "没有返回有效的回复"@),
{
    let mut contents = contents;
    if contents.len() == 0 {
        Err(AIClientError::ApiError(String::from_str("没有返回有效的回复")))
    } else {
        Ok(contents.swap_remove(0))
    }
}

} // verus!
