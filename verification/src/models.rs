//! The data the library reasons about: providers, models, workspaces,
//! messages, prompts, skills and the failover settings.

use vstd::prelude::*;

verus! {

/// Clones an optional string, keeping its value.
pub fn clone_opt_string(s: &Option<String>) -> (r: Option<String>)
    ensures
        r == *s,
{
    match s {
        Some(v) => Some(v.clone()),
        None => None,
    }
}

/// Clones a vector of strings, keeping every element.
pub fn clone_strings(v: &Vec<String>) -> (r: Vec<String>)
    ensures
        r@ == v@,
{
    let mut out: Vec<String> = Vec::new();
    let mut i: usize = 0;
    while i < v.len()
        invariant
            i <= v.len(),
            out@ == v@.take(i as int),
        decreases v.len() - i,
    {
        out.push(v[i].clone());
        i = i + 1;
        assert(out@ == v@.take(i as int));
    }
    assert(v@.take(v.len() as int) == v@);
    out
}

// ---------- providers ----------

#[derive(Clone, Copy, Debug, PartialEq, Eq, Structural)]
pub enum ProviderType {
    OpenAiCompatible,
    Anthropic,
    OpenAiResponse,
    Ollama,
    Custom,
}

#[derive(Clone, Copy, Debug, PartialEq, Eq, Structural)]
pub enum ProxyType {
    Direct,
    Http,
    Socks5,
}

/// A model provider as the user configured it; the API key itself lives in
/// the system keyring and only its mask travels with the provider.
#[derive(Debug)]
pub struct Provider {
    pub id: String,
    pub name: String,
    pub provider_type: ProviderType,
    pub base_url: String,
    pub api_key_masked: Option<String>,
    pub proxy_type: ProxyType,
    pub proxy_url: Option<String>,
    pub timeout: i64,
    pub retries: i64,
    pub order_index: i64,
    pub enabled: bool,
}

impl Clone for Provider {
    fn clone(&self) -> (r: Self)
        ensures
            r == *self,
    {
        Provider {
            id: self.id.clone(),
            name: self.name.clone(),
            provider_type: self.provider_type,
            base_url: self.base_url.clone(),
            api_key_masked: clone_opt_string(&self.api_key_masked),
            proxy_type: self.proxy_type,
            proxy_url: clone_opt_string(&self.proxy_url),
            timeout: self.timeout,
            retries: self.retries,
            order_index: self.order_index,
            enabled: self.enabled,
        }
    }
}

/// Input of a provider save; `id: None` creates, `Some` updates.
#[derive(Debug)]
pub struct ProviderInput {
    pub id: Option<String>,
    pub name: String,
    pub provider_type: ProviderType,
    pub base_url: String,
    pub api_key: Option<String>,
    pub proxy_type: Option<ProxyType>,
    pub proxy_url: Option<String>,
    pub timeout: Option<i64>,
    pub retries: Option<i64>,
    pub order_index: Option<i64>,
    pub enabled: Option<bool>,
}

// ---------- models ----------

#[derive(Debug)]
pub struct Model {
    pub id: String,
    pub provider_id: String,
    pub model_id: String,
    pub display_name: String,
    pub context_window: Option<i64>,
    pub capabilities: Vec<String>,
    pub enabled: bool,
}

impl Model {
    /// The two models agree on every field, the capability list by its
    /// contents.
    pub open spec fn same_as(self, other: Model) -> bool {
        &&& self.id == other.id
        &&& self.provider_id == other.provider_id
        &&& self.model_id == other.model_id
        &&& self.display_name == other.display_name
        &&& self.context_window == other.context_window
        &&& self.capabilities@ == other.capabilities@
        &&& self.enabled == other.enabled
    }
}

impl Clone for Model {
    fn clone(&self) -> (r: Self)
        ensures
            r.same_as(*self),
    {
        Model {
            id: self.id.clone(),
            provider_id: self.provider_id.clone(),
            model_id: self.model_id.clone(),
            display_name: self.display_name.clone(),
            context_window: self.context_window,
            capabilities: clone_strings(&self.capabilities),
            enabled: self.enabled,
        }
    }
}

#[derive(Clone, Debug)]
pub struct ModelInput {
    pub id: Option<String>,
    pub provider_id: String,
    pub model_id: String,
    pub display_name: Option<String>,
    pub context_window: Option<i64>,
    pub capabilities: Option<Vec<String>>,
    pub enabled: Option<bool>,
}

/// A model that a provider's model list announced, with whether it is
/// already enabled locally.
#[derive(Clone, Debug)]
pub struct DiscoveredModel {
    pub model_id: String,
    pub display_name: String,
    pub enabled: bool,
}

// ---------- folders, workspaces ----------

#[derive(Clone, Debug)]
pub struct Folder {
    pub id: String,
    pub name: String,
    pub parent_id: Option<String>,
    pub order_index: i64,
    pub created_at: i64,
}

#[derive(Clone, Debug)]
pub struct Workspace {
    pub id: String,
    pub name: String,
    pub order_index: i64,
    pub created_at: i64,
    pub path: Option<String>,
}

#[derive(Clone, Debug)]
pub struct WorkspaceInput {
    pub id: Option<String>,
    pub name: String,
    pub order_index: Option<i64>,
    pub path: Option<String>,
}

/// One entry of a workspace file tree; `path` is relative to the root and
/// `/`-separated.
#[derive(Clone, Debug)]
pub struct WorkspaceFileEntry {
    pub path: String,
    pub name: String,
    pub is_dir: bool,
}

// ---------- messages ----------

#[derive(Debug)]
pub struct ToolCall {
    pub id: String,
    pub name: String,
    pub arguments: String,
}

impl Clone for ToolCall {
    fn clone(&self) -> (r: Self)
        ensures
            r == *self,
    {
        ToolCall { id: self.id.clone(), name: self.name.clone(), arguments: self.arguments.clone() }
    }
}

#[derive(Clone, Debug)]
pub struct ToolResult {
    pub tool_call_id: String,
    pub content: String,
    pub is_error: bool,
}

#[derive(Clone, Debug)]
pub struct Message {
    pub id: String,
    pub session_id: String,
    pub role: String,
    pub content: String,
    pub reasoning: Option<String>,
    pub tool_calls: Option<Vec<ToolCall>>,
    pub tool_results: Option<Vec<ToolResult>>,
    pub tokens_used: Option<i64>,
    pub latency_ms: Option<i64>,
    pub created_at: i64,
    pub parent_id: Option<String>,
}

#[derive(Clone, Debug)]
pub struct MessageInput {
    pub session_id: String,
    pub role: String,
    pub content: String,
    pub reasoning: Option<String>,
    pub tool_calls: Option<Vec<ToolCall>>,
    pub tool_results: Option<Vec<ToolResult>>,
    pub tokens_used: Option<i64>,
    pub latency_ms: Option<i64>,
    pub parent_id: Option<String>,
}

/// A search hit: a message and the title of the session it belongs to.
#[derive(Clone, Debug)]
pub struct MessageHit {
    pub session_title: String,
    pub message: Message,
}

// ---------- prompts ----------

#[derive(Clone, Debug)]
pub struct Prompt {
    pub id: String,
    pub title: String,
    pub content: String,
    pub variables: Vec<String>,
    pub prompt_type: String,
    pub tags: Vec<String>,
    pub usage_count: i64,
    pub created_at: i64,
}

#[derive(Clone, Debug)]
pub struct PromptInput {
    pub id: Option<String>,
    pub title: String,
    pub content: String,
    pub prompt_type: String,
    pub tags: Option<Vec<String>>,
}

#[derive(Clone, Debug)]
pub struct PromptVersion {
    pub id: String,
    pub prompt_id: String,
    pub content: String,
    pub created_at: i64,
}

// ---------- chat results ----------

#[derive(Clone, Copy, Debug, PartialEq, Eq, Structural)]
pub struct TokenUsage {
    pub prompt_tokens: i64,
    pub completion_tokens: i64,
    pub total_tokens: i64,
}

/// A message of a conversation as sent to a model: the assistant's tool
/// calls (OpenAI format) and, for a tool result, the call it answers.
#[derive(Debug)]
pub struct ChatMessage {
    pub role: String,
    pub content: String,
    pub tool_calls: Option<crate::json::Json>,
    pub tool_call_id: Option<String>,
    pub tool_name: Option<String>,
}

/// A call to a model. Temperature and top_p travel as JSON numbers: their
/// floating-point values stay with the caller, which also caps the
/// temperature Anthropic takes.
#[derive(Debug)]
pub struct ChatRequest {
    pub request_id: String,
    pub provider_id: String,
    pub model_id: String,
    pub messages: Vec<ChatMessage>,
    pub temperature: Option<crate::json::Json>,
    pub top_p: Option<crate::json::Json>,
    pub max_tokens: Option<i64>,
    pub system: Option<String>,
    pub stream: bool,
    pub session_id: Option<String>,
    pub tools: Option<Vec<crate::agent::ToolDef>>,
    pub thinking_level: Option<String>,
}

/// The result of one tool call of the agent, kept with the answer.
#[derive(Clone, Debug)]
pub struct ToolResultItem {
    pub tool_call_id: String,
    pub name: String,
    pub content: String,
    pub is_error: bool,
}

#[derive(Clone, Debug)]
pub struct ChatResponse {
    pub content: String,
    pub reasoning: Option<String>,
    pub tool_calls: Option<Vec<ToolCall>>,
    pub tool_results: Option<Vec<ToolResultItem>>,
    pub usage: Option<TokenUsage>,
    pub latency_ms: u64,
    pub provider_used: String,
}

/// An increment of a streamed answer, or its final state when `done`.
#[derive(Clone, Debug)]
pub struct ChatChunk {
    pub request_id: String,
    pub delta: String,
    pub reasoning_delta: Option<String>,
    pub done: bool,
    pub result: Option<ChatResponse>,
    pub error: Option<String>,
    pub error_message: Option<String>,
}

// ---------- proxy ----------

#[derive(Debug)]
pub struct GlobalProxy {
    pub proxy_type: ProxyType,
    pub proxy_url: Option<String>,
}

impl Clone for GlobalProxy {
    fn clone(&self) -> (r: Self)
        ensures
            r == *self,
    {
        GlobalProxy { proxy_type: self.proxy_type, proxy_url: clone_opt_string(&self.proxy_url) }
    }
}

#[derive(Clone, Debug)]
pub struct ProxyTestResult {
    pub success: bool,
    pub latency_ms: Option<u64>,
    pub status_code: Option<u16>,
    pub error: Option<String>,
}

#[derive(Clone, Debug)]
pub struct ProxyTestInput {
    pub url: String,
    pub proxy_type: ProxyType,
    pub proxy_url: Option<String>,
    pub timeout: Option<u64>,
}

// ---------- failover ----------

#[derive(Clone, Copy, Debug, PartialEq, Eq, Structural)]
pub enum FailoverStrategy {
    Sequential,
    RoundRobin,
    Random,
}

/// The failover rules that decide whether and where a failed request moves
/// on. The back-off timing (a floating-point schedule) is kept by the caller.
#[derive(Clone, Debug)]
pub struct FailoverConfig {
    pub enabled: bool,
    pub strategy: FailoverStrategy,
    pub trigger_conditions: Vec<String>,
    pub excluded_status_codes: Vec<u16>,
    pub fallback_chain: Vec<String>,
}

impl Default for FailoverConfig {
    /// The configuration in effect when none is stored: failover off,
    /// sequential, triggered by timeouts, 5xx errors, empty answers and
    /// content filtering, never for HTTP 401 and 403, and no fallback chain.
    fn default() -> (r: Self)
        ensures
            !r.enabled,
            r.strategy == FailoverStrategy::Sequential,
            crate::text::views(r.trigger_conditions@) == seq!["timeout"@, "5xx"@, "empty-response"@, "content-filter"@],
            r.excluded_status_codes@ == seq![401u16, 403u16],
            r.fallback_chain@.len() == 0,
    {
        let triggers = vec![
            crate::text::owned("timeout"),
            crate::text::owned("5xx"),
            crate::text::owned("empty-response"),
            crate::text::owned("content-filter"),
        ];
        assert(crate::text::views(triggers@) =~= seq!["timeout"@, "5xx"@, "empty-response"@, "content-filter"@]);
        let codes: Vec<u16> = vec![401u16, 403u16];
        assert(codes@ =~= seq![401u16, 403u16]);
        FailoverConfig {
            enabled: false,
            strategy: FailoverStrategy::Sequential,
            trigger_conditions: triggers,
            excluded_status_codes: codes,
            fallback_chain: Vec::new(),
        }
    }
}

/// Notice that a request moved from one provider to another.
#[derive(Clone, Debug)]
pub struct FailoverEvent {
    pub request_id: String,
    pub from_provider: String,
    pub to_provider: String,
    pub reason: String,
}

} // verus!

verus! {

// ---------- skills ----------

/// One step of a skill: `input`, `llm`, `condition`, `tool` or `message`.
#[derive(Clone, Debug)]
pub struct SkillStep {
    pub id: String,
    pub step_type: String,
    /// The prompt of an `llm` step.
    pub prompt: Option<String>,
    /// The text of a `message` step, or the question of an `input` step.
    pub content: Option<String>,
    /// The expression of a `condition` step: `contains( {{step.output}}, 'text' )`.
    pub condition: Option<String>,
    /// The step a true condition jumps to.
    pub then_step: Option<String>,
    /// The step a false condition jumps to.
    pub else_step: Option<String>,
    /// The MCP tool of a `tool` step, its server and its JSON arguments.
    pub tool: Option<String>,
    pub server: Option<String>,
    pub args: Option<String>,
}

/// A skill definition.
#[derive(Clone, Debug)]
pub struct SkillDef {
    pub id: String,
    pub name: String,
    pub description: String,
    pub icon: Option<String>,
    /// A `model_id` or display name to run on; the first usable model when absent.
    pub model: Option<String>,
    pub system_prompt: Option<String>,
    pub steps: Vec<SkillStep>,
    /// Where the skill came from: builtin, user or global.
    pub source: String,
    pub enabled: bool,
}

} // verus!
