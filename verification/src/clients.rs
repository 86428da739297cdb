//! Configuration of the completion service and of the coding agent, and
//! the requests that the caller sends to them.
//!
//! Nothing here talks to a service. [`LlmGateway::load`] resolves the
//! settings, [`LlmGateway::clarify_round`] says which request to send, or
//! which fixed reply to use without sending one, and [`ZeneClient`] decides
//! whether the cached engine can serve a run.

use vstd::prelude::*;
use vstd::string::*;
use crate::common::{ErrorView, ServiceError};
use crate::models::views;
use crate::text::{join2, same, trim, trimmed};
use crate::utils::fresh_id;

verus! {

/// The system prompt of a clarification round.
pub const CLARIFY_SYSTEM: &'static str =
    "你是 Celadon 的需求澄清助手。用户会描述他们的项目想法，你的任务是：\n1. 通过多轮对话澄清需求：范围（MVP/完整版）、约束（技术栈、预算、上线时间）、成功标准（验收条件）\n2. 在信息充分时，简要总结已明确的需求，并建议可以进入 PRD 生成阶段\n3. 保持简洁、专业，每次回复聚焦 1-2 个问题或要点\n4. 若用户表示已准备好或信息足够，回复「需求已澄清，可以生成 PRD 了」";

/// The system prompt under which a requirements document is written.
pub const PRD_GEN_SYSTEM: &'static str =
    "根据对话内容，提炼并生成一份结构化的 PRD（产品需求文档），包含：\n1. 背景与目标\n2. 用户故事与使用流程\n3. 功能清单（Must/Should/Could）\n4. 非功能需求（性能、安全、稳定性）\n5. 验收标准与里程碑\n\n使用 Markdown 格式，简洁清晰。";

/// The reply given in place of a completion while no credential is set.
pub const NO_CREDENTIAL_REPLY: &'static str =
    "请先在管理员设置中配置 LLM API Key 以启用需求澄清功能。";

/// The prefix of the message of a failed completion.
pub const COMPLETION_FAILED: &'static str = "LLM 调用失败: ";

/// The endpoint of a registered provider that requests go to.
pub const REGISTRY_ENDPOINT: &'static str = "global";

/// The keys that a tenant may set, in the order in which they are read.
pub fn setting_keys() -> (keys: Vec<&'static str>)
    ensures
        keys@ == seq![
            "ZENE_PLANNER_PROVIDER",
            "ZENE_PLANNER_API_KEY",
            "ZENE_PLANNER_MODEL",
            "ZENE_EXECUTOR_PROVIDER",
            "ZENE_EXECUTOR_API_KEY",
            "ZENE_EXECUTOR_MODEL",
            "ZENE_REFLECTOR_PROVIDER",
            "ZENE_REFLECTOR_API_KEY",
            "ZENE_REFLECTOR_MODEL",
            "ZENE_USE_SEMANTIC_MEMORY",
            "CELADON_LLM_MODEL",
            "DEEPSEEK_API_KEY",
            "OPENAI_API_KEY",
        ],
{
    let mut keys: Vec<&'static str> = Vec::new();
    keys.push("ZENE_PLANNER_PROVIDER");
    keys.push("ZENE_PLANNER_API_KEY");
    keys.push("ZENE_PLANNER_MODEL");
    keys.push("ZENE_EXECUTOR_PROVIDER");
    keys.push("ZENE_EXECUTOR_API_KEY");
    keys.push("ZENE_EXECUTOR_MODEL");
    keys.push("ZENE_REFLECTOR_PROVIDER");
    keys.push("ZENE_REFLECTOR_API_KEY");
    keys.push("ZENE_REFLECTOR_MODEL");
    keys.push("ZENE_USE_SEMANTIC_MEMORY");
    keys.push("CELADON_LLM_MODEL");
    keys.push("DEEPSEEK_API_KEY");
    keys.push("OPENAI_API_KEY");
    assert(keys@ =~= seq![
        "ZENE_PLANNER_PROVIDER",
        "ZENE_PLANNER_API_KEY",
        "ZENE_PLANNER_MODEL",
        "ZENE_EXECUTOR_PROVIDER",
        "ZENE_EXECUTOR_API_KEY",
        "ZENE_EXECUTOR_MODEL",
        "ZENE_REFLECTOR_PROVIDER",
        "ZENE_REFLECTOR_API_KEY",
        "ZENE_REFLECTOR_MODEL",
        "ZENE_USE_SEMANTIC_MEMORY",
        "CELADON_LLM_MODEL",
        "DEEPSEEK_API_KEY",
        "OPENAI_API_KEY",
    ]);
    keys
}

/// One setting: a key and its value.
#[derive(Debug, Clone)]
pub struct Setting {
    pub key: String,
    pub value: String,
}

pub ghost struct SettingView {
    pub key: Seq<char>,
    pub value: Seq<char>,
}

impl View for Setting {
    type V = SettingView;

    open spec fn view(&self) -> SettingView {
        SettingView { key: self.key@, value: self.value@ }
    }
}

/// The value of the first entry of `entries` under `key`.
pub open spec fn lookup(entries: Seq<SettingView>, key: Seq<char>) -> Option<Seq<char>>
    decreases entries.len(),
{
    if entries.len() == 0 {
        None
    } else if entries[0].key == key {
        Some(entries[0].value)
    } else {
        lookup(entries.drop_first(), key)
    }
}

/// A value counts only if something other than whitespace is in it.
pub open spec fn usable(v: Option<Seq<char>>) -> bool {
    v is Some && trimmed(v->0).len() > 0
}

/// The value of `key`: the tenant's setting where it is usable, else the
/// environment's where that is usable, else the default.
pub open spec fn resolved(
    tenant: Seq<SettingView>,
    env: Seq<SettingView>,
    key: Seq<char>,
    default: Seq<char>,
) -> Seq<char> {
    if usable(lookup(tenant, key)) {
        lookup(tenant, key)->0
    } else if usable(lookup(env, key)) {
        lookup(env, key)->0
    } else {
        default
    }
}

fn find_setting(entries: &Vec<Setting>, key: &str) -> (r: Option<usize>)
    ensures
        r is Some <==> lookup(views(entries@), key@) is Some,
        r is Some ==> r->0 < entries.len() && lookup(views(entries@), key@) == Some(
            entries@[r->0 as int].value@,
        ),
{
    let ghost all = views(entries@);
    let mut i: usize = 0;
    assert(all.skip(0) =~= all);
    while i < entries.len()
        invariant
            i <= entries.len(),
            all == views(entries@),
            lookup(all, key@) == lookup(all.skip(i as int), key@),
        decreases entries.len() - i,
    {
        proof {
            assert(all.skip(i as int)[0] == entries@[i as int]@);
            assert(all.skip(i as int).drop_first() =~= all.skip(i as int + 1));
        }
        if same(entries[i].key.as_str(), key) {
            return Some(i);
        }
        i += 1;
    }
    None
}

fn usable_value(entries: &Vec<Setting>, key: &str) -> (r: Option<String>)
    ensures
        r is Some <==> usable(lookup(views(entries@), key@)),
        r is Some ==> Some(r->0@) == lookup(views(entries@), key@),
{
    match find_setting(entries, key) {
        Some(i) => {
            let t = trim(entries[i].value.as_str());
            if t.as_str().unicode_len() > 0 {
                Some(entries[i].value.clone())
            } else {
                None
            }
        },
        None => None,
    }
}

/// Resolves `key` over the tenant's settings, the environment and a
/// default, in that order of precedence.
pub fn resolve_setting(tenant: &Vec<Setting>, env: &Vec<Setting>, key: &str, default: &str) -> (out:
    String)
    ensures
        out@ == resolved(views(tenant@), views(env@), key@, default@),
{
    match usable_value(tenant, key) {
        Some(v) => v,
        None => match usable_value(env, key) {
            Some(v) => v,
            None => String::from_str(default),
        },
    }
}

/// The tenant's usable setting wins over the environment and the default.
pub proof fn lemma_tenant_setting_wins(
    tenant: Seq<SettingView>,
    env: Seq<SettingView>,
    key: Seq<char>,
    default: Seq<char>,
)
    requires
        usable(lookup(tenant, key)),
    ensures
        resolved(tenant, env, key, default) == lookup(tenant, key)->0,
{
}

/// Without a usable tenant setting, the environment's usable value wins
/// over the default; a tenant setting that is empty or only whitespace
/// counts as none.
pub proof fn lemma_environment_is_second(
    tenant: Seq<SettingView>,
    env: Seq<SettingView>,
    key: Seq<char>,
    default: Seq<char>,
)
    requires
        !usable(lookup(tenant, key)),
        usable(lookup(env, key)),
    ensures
        resolved(tenant, env, key, default) == lookup(env, key)->0,
{
}

/// With no usable value in either source the default is the result.
pub proof fn lemma_default_is_last(
    tenant: Seq<SettingView>,
    env: Seq<SettingView>,
    key: Seq<char>,
    default: Seq<char>,
)
    requires
        !usable(lookup(tenant, key)),
        !usable(lookup(env, key)),
    ensures
        resolved(tenant, env, key, default) == default,
{
}

/// A tenant setting with an empty value changes nothing: the result is
/// what it would be without any tenant setting.
pub proof fn lemma_empty_setting_is_absent(
    env: Seq<SettingView>,
    key: Seq<char>,
    default: Seq<char>,
)
    ensures
        resolved(seq![SettingView { key, value: Seq::empty() }], env, key, default) == resolved(
            Seq::empty(),
            env,
            key,
            default,
        ),
{
    let one = seq![SettingView { key, value: Seq::<char>::empty() }];
    assert(lookup(one, key) == Some(Seq::<char>::empty()));
    assert(trimmed(Seq::<char>::empty()).len() == 0) by {
        reveal_with_fuel(crate::text::strip_start, 2);
        reveal_with_fuel(crate::text::strip_end, 2);
    }
    assert(lookup(Seq::<SettingView>::empty(), key) is None);
}

/// The settings of one role of the coding agent.
#[derive(Debug, Clone)]
pub struct RoleConfig {
    pub provider: String,
    pub api_key: String,
    pub model: String,
}

pub ghost struct RoleView {
    pub provider: Seq<char>,
    pub api_key: Seq<char>,
    pub model: Seq<char>,
}

impl View for RoleConfig {
    type V = RoleView;

    open spec fn view(&self) -> RoleView {
        RoleView { provider: self.provider@, api_key: self.api_key@, model: self.model@ }
    }
}

/// What the coding agent is configured with.
#[derive(Debug, Clone)]
pub struct ExecutionConfig {
    pub planner: RoleConfig,
    pub executor: RoleConfig,
    pub reflector: RoleConfig,
    pub use_semantic_memory: bool,
    pub simple_mode: bool,
}

pub ghost struct ExecutionView {
    pub planner: RoleView,
    pub executor: RoleView,
    pub reflector: RoleView,
    pub use_semantic_memory: bool,
    pub simple_mode: bool,
}

impl View for ExecutionConfig {
    type V = ExecutionView;

    open spec fn view(&self) -> ExecutionView {
        ExecutionView {
            planner: self.planner@,
            executor: self.executor@,
            reflector: self.reflector@,
            use_semantic_memory: self.use_semantic_memory,
            simple_mode: self.simple_mode,
        }
    }
}

/// A provider that the completion client knows by name.
#[derive(Debug, Clone, Copy, PartialEq, Eq, Structural)]
pub enum ProviderKind {
    Zhipu,
    Moonshot,
    Aliyun,
    OpenAi,
    Anthropic,
    Google,
    DeepSeek,
}

/// Which completion client the caller is to construct.
#[derive(Debug, Clone)]
pub enum ClientPlan {
    /// No credential: a client that is never called.
    Placeholder,
    /// A client of the OpenAI protocol at the base address of a registered
    /// provider.
    Compatible { api_key: String, base_url: String },
    /// The client made for a provider known by name.
    Native { provider: ProviderKind, api_key: String },
}

pub ghost enum ClientPlanView {
    Placeholder,
    Compatible { api_key: Seq<char>, base_url: Seq<char> },
    Native { provider: ProviderKind, api_key: Seq<char> },
}

impl View for ClientPlan {
    type V = ClientPlanView;

    open spec fn view(&self) -> ClientPlanView {
        match self {
            ClientPlan::Placeholder => ClientPlanView::Placeholder,
            ClientPlan::Compatible { api_key, base_url } => ClientPlanView::Compatible {
                api_key: api_key@,
                base_url: base_url@,
            },
            ClientPlan::Native { provider, api_key } => ClientPlanView::Native {
                provider: *provider,
                api_key: api_key@,
            },
        }
    }
}

/// The base address that the provider registry holds for an endpoint of a
/// provider, if it holds one.
pub uninterp spec fn registry_base_url(provider: Seq<char>, endpoint: Seq<char>) -> Option<
    Seq<char>,
>;

/// Looks an endpoint of a provider up in the provider registry.
///
/// Trusted: reads the table behind `llm_providers::get_providers_data`,
/// the provider's `endpoints` and the endpoint's `base_url`. The table is
/// fixed data of that crate, so the result is a function of the two names.
#[verifier::external_body]
fn lookup_base_url(provider: &str, endpoint: &str) -> (r: Option<String>)
    ensures
        crate::models::opt_text(r) == registry_base_url(provider@, endpoint@),
{
    llm_providers::get_providers_data().get(provider).and_then(
        |p| p.endpoints.get(endpoint),
    ).map(|e| e.base_url.to_string())
}

/// The provider known under `name`; any other name stands for DeepSeek.
pub open spec fn native_kind(name: Seq<char>) -> ProviderKind {
    if name == "zhipu"@ {
        ProviderKind::Zhipu
    } else if name == "moonshot"@ {
        ProviderKind::Moonshot
    } else if name == "aliyun"@ {
        ProviderKind::Aliyun
    } else if name == "openai"@ {
        ProviderKind::OpenAi
    } else if name == "anthropic"@ {
        ProviderKind::Anthropic
    } else if name == "google"@ {
        ProviderKind::Google
    } else {
        ProviderKind::DeepSeek
    }
}

/// The client for a provider and key: none to call without a credential,
/// the registered base address where the registry has one, else the
/// client of the provider's name.
pub open spec fn planned_client(
    is_dummy: bool,
    provider: Seq<char>,
    key: Seq<char>,
    base_url: Option<Seq<char>>,
) -> ClientPlanView {
    if is_dummy {
        ClientPlanView::Placeholder
    } else if base_url is Some {
        ClientPlanView::Compatible { api_key: key, base_url: base_url->0 }
    } else {
        ClientPlanView::Native { provider: native_kind(provider), api_key: key }
    }
}

/// Chooses the completion client from what was resolved and from what the
/// registry answered.
pub fn plan_client(is_dummy: bool, provider: &str, key: &str, base_url: Option<String>) -> (plan:
    ClientPlan)
    ensures
        plan@ == planned_client(is_dummy, provider@, key@, crate::models::opt_text(base_url)),
{
    if is_dummy {
        return ClientPlan::Placeholder;
    }
    match base_url {
        Some(url) => ClientPlan::Compatible { api_key: String::from_str(key), base_url: url },
        None => {
            let kind = if same(provider, "zhipu") {
                ProviderKind::Zhipu
            } else if same(provider, "moonshot") {
                ProviderKind::Moonshot
            } else if same(provider, "aliyun") {
                ProviderKind::Aliyun
            } else if same(provider, "openai") {
                ProviderKind::OpenAi
            } else if same(provider, "anthropic") {
                ProviderKind::Anthropic
            } else if same(provider, "google") {
                ProviderKind::Google
            } else {
                ProviderKind::DeepSeek
            };
            ClientPlan::Native { provider: kind, api_key: String::from_str(key) }
        },
    }
}

/// Who speaks in a message of a completion request.
#[derive(Debug, Clone, Copy, PartialEq, Eq, Structural)]
pub enum Role {
    System,
    User,
    Assistant,
}

/// One message of a completion request.
#[derive(Debug, Clone)]
pub struct ChatMessage {
    pub role: Role,
    pub content: String,
}

pub ghost struct MessageView {
    pub role: Role,
    pub content: Seq<char>,
}

impl View for ChatMessage {
    type V = MessageView;

    open spec fn view(&self) -> MessageView {
        MessageView { role: self.role, content: self.content@ }
    }
}

/// A completion request for the caller to send.
#[derive(Debug, Clone)]
pub struct ChatPlan {
    pub model: String,
    pub messages: Vec<ChatMessage>,
    pub max_tokens: u32,
}

/// What a completion round comes to: a reply that is already known, or a
/// request to send.
#[derive(Debug, Clone)]
pub enum CompletionStep {
    Reply(String),
    Ask(ChatPlan),
}

/// The role that a name in a history stands for, if it stands for one.
pub open spec fn role_named(name: Seq<char>) -> Option<Role> {
    if name == "system"@ {
        Some(Role::System)
    } else if name == "user"@ {
        Some(Role::User)
    } else if name == "assistant"@ {
        Some(Role::Assistant)
    } else {
        None
    }
}

/// The views of the pairs of a history.
pub open spec fn pair_views(h: Seq<(String, String)>) -> Seq<(Seq<char>, Seq<char>)> {
    Seq::new(h.len(), |i: int| (h[i].0@, h[i].1@))
}

/// The messages of a history, in order; entries under an unknown role are
/// left out.
pub open spec fn history_messages(h: Seq<(Seq<char>, Seq<char>)>) -> Seq<MessageView>
    decreases h.len(),
{
    if h.len() == 0 {
        Seq::empty()
    } else {
        let head = history_messages(h.drop_last());
        match role_named(h.last().0) {
            Some(role) => head.push(MessageView { role, content: h.last().1 }),
            None => head,
        }
    }
}

/// The messages of a round: the system prompt, the history, the new input.
pub open spec fn chat_messages(
    system_prompt: Seq<char>,
    history: Seq<(Seq<char>, Seq<char>)>,
    user_input: Seq<char>,
) -> Seq<MessageView> {
    seq![MessageView { role: Role::System, content: system_prompt }] + history_messages(history)
        + seq![MessageView { role: Role::User, content: user_input }]
}

/// The resolved configuration of the completion service and of the three
/// roles of the coding agent.
#[derive(Debug, Clone)]
pub struct LlmGateway {
    /// The client for clarification and summaries.
    pub client: ClientPlan,
    pub planner_provider: String,
    pub planner_key: String,
    pub planner_model: String,
    pub executor_provider: String,
    pub executor_key: String,
    pub executor_model: String,
    pub reflector_provider: String,
    pub reflector_key: String,
    pub reflector_model: String,
    pub use_semantic_memory: bool,
    /// No usable credential was found: completions are not attempted.
    pub is_dummy: bool,
}

pub ghost struct GatewayView {
    pub client: ClientPlanView,
    pub planner: RoleView,
    pub executor: RoleView,
    pub reflector: RoleView,
    pub use_semantic_memory: bool,
    pub is_dummy: bool,
}

impl View for LlmGateway {
    type V = GatewayView;

    open spec fn view(&self) -> GatewayView {
        GatewayView {
            client: self.client@,
            planner: RoleView {
                provider: self.planner_provider@,
                api_key: self.planner_key@,
                model: self.planner_model@,
            },
            executor: RoleView {
                provider: self.executor_provider@,
                api_key: self.executor_key@,
                model: self.executor_model@,
            },
            reflector: RoleView {
                provider: self.reflector_provider@,
                api_key: self.reflector_key@,
                model: self.reflector_model@,
            },
            use_semantic_memory: self.use_semantic_memory,
            is_dummy: self.is_dummy,
        }
    }
}

/// The credential of the completion client: the planner's key where one is
/// set, else the generic key, else the word that marks its absence.
pub open spec fn basic_key(tenant: Seq<SettingView>, env: Seq<SettingView>) -> Seq<char> {
    let planner_key = resolved(tenant, env, "ZENE_PLANNER_API_KEY"@, ""@);
    if planner_key.len() > 0 {
        planner_key
    } else {
        resolved(tenant, env, "DEEPSEEK_API_KEY"@, "dummy"@)
    }
}

/// Whether no usable credential is resolved.
pub open spec fn no_credential(tenant: Seq<SettingView>, env: Seq<SettingView>) -> bool {
    basic_key(tenant, env) == "dummy"@ || trimmed(basic_key(tenant, env)).len() == 0
}

/// The configuration that the two sources resolve to.
pub open spec fn loaded(tenant: Seq<SettingView>, env: Seq<SettingView>) -> GatewayView {
    let provider = resolved(tenant, env, "ZENE_PLANNER_PROVIDER"@, "deepseek"@);
    GatewayView {
        client: planned_client(
            no_credential(tenant, env),
            provider,
            basic_key(tenant, env),
            registry_base_url(provider, REGISTRY_ENDPOINT@),
        ),
        planner: RoleView {
            provider,
            api_key: resolved(tenant, env, "ZENE_PLANNER_API_KEY"@, ""@),
            model: resolved(tenant, env, "ZENE_PLANNER_MODEL"@, "deepseek-chat"@),
        },
        executor: RoleView {
            provider: resolved(tenant, env, "ZENE_EXECUTOR_PROVIDER"@, "openai"@),
            api_key: resolved(tenant, env, "ZENE_EXECUTOR_API_KEY"@, ""@),
            model: resolved(tenant, env, "ZENE_EXECUTOR_MODEL"@, "gpt-4o"@),
        },
        reflector: RoleView {
            provider: resolved(tenant, env, "ZENE_REFLECTOR_PROVIDER"@, "deepseek"@),
            api_key: resolved(tenant, env, "ZENE_REFLECTOR_API_KEY"@, ""@),
            model: resolved(tenant, env, "ZENE_REFLECTOR_MODEL"@, "deepseek-chat"@),
        },
        use_semantic_memory: resolved(tenant, env, "ZENE_USE_SEMANTIC_MEMORY"@, "false"@)
            == "true"@,
        is_dummy: no_credential(tenant, env),
    }
}

impl LlmGateway {
    /// Resolves the configuration from the tenant's settings and the
    /// environment. Without a usable credential the result is marked so,
    /// and is still a configuration.
    pub fn load(tenant: &Vec<Setting>, env: &Vec<Setting>) -> (g: LlmGateway)
        ensures
            g@ == loaded(views(tenant@), views(env@)),
    {
        let planner_provider = resolve_setting(tenant, env, "ZENE_PLANNER_PROVIDER", "deepseek");
        let planner_key = resolve_setting(tenant, env, "ZENE_PLANNER_API_KEY", "");
        let planner_model = resolve_setting(tenant, env, "ZENE_PLANNER_MODEL", "deepseek-chat");
        let executor_provider = resolve_setting(tenant, env, "ZENE_EXECUTOR_PROVIDER", "openai");
        let executor_key = resolve_setting(tenant, env, "ZENE_EXECUTOR_API_KEY", "");
        let executor_model = resolve_setting(tenant, env, "ZENE_EXECUTOR_MODEL", "gpt-4o");
        let reflector_provider = resolve_setting(tenant, env, "ZENE_REFLECTOR_PROVIDER", "deepseek");
        let reflector_key = resolve_setting(tenant, env, "ZENE_REFLECTOR_API_KEY", "");
        let reflector_model = resolve_setting(tenant, env, "ZENE_REFLECTOR_MODEL", "deepseek-chat");
        let memory = resolve_setting(tenant, env, "ZENE_USE_SEMANTIC_MEMORY", "false");
        let use_semantic_memory = same(memory.as_str(), "true");
        let key = if planner_key.as_str().unicode_len() > 0 {
            planner_key.clone()
        } else {
            resolve_setting(tenant, env, "DEEPSEEK_API_KEY", "dummy")
        };
        let is_dummy = same(key.as_str(), "dummy") || trim(key.as_str()).as_str().unicode_len()
            == 0;
        let base_url = if is_dummy {
            None
        } else {
            lookup_base_url(planner_provider.as_str(), REGISTRY_ENDPOINT)
        };
        let client = plan_client(is_dummy, planner_provider.as_str(), key.as_str(), base_url);
        LlmGateway {
            client,
            planner_provider,
            planner_key,
            planner_model,
            executor_provider,
            executor_key,
            executor_model,
            reflector_provider,
            reflector_key,
            reflector_model,
            use_semantic_memory,
            is_dummy,
        }
    }

    /// The configuration of the coding agent, always in its simple mode.
    pub fn to_agent_config(&self) -> (config: ExecutionConfig)
        ensures
            config@ == (ExecutionView {
                planner: self@.planner,
                executor: self@.executor,
                reflector: self@.reflector,
                use_semantic_memory: self.use_semantic_memory,
                simple_mode: true,
            }),
    {
        ExecutionConfig {
            planner: RoleConfig {
                provider: self.planner_provider.clone(),
                api_key: self.planner_key.clone(),
                model: self.planner_model.clone(),
            },
            executor: RoleConfig {
                provider: self.executor_provider.clone(),
                api_key: self.executor_key.clone(),
                model: self.executor_model.clone(),
            },
            reflector: RoleConfig {
                provider: self.reflector_provider.clone(),
                api_key: self.reflector_key.clone(),
                model: self.reflector_model.clone(),
            },
            use_semantic_memory: self.use_semantic_memory,
            simple_mode: true,
        }
    }

    /// One round with the completion service. Without a credential the
    /// round is answered here, by a fixed reply; otherwise the result is
    /// the request to send: the planner's model, the system prompt, the
    /// history, the new input, and a limit of 2048 tokens.
    pub fn clarify_round(
        &self,
        system_prompt: &str,
        history: &Vec<(String, String)>,
        user_input: &str,
    ) -> (step: CompletionStep)
        ensures
            self.is_dummy ==> (step matches CompletionStep::Reply(m) && m@ == NO_CREDENTIAL_REPLY@),
            !self.is_dummy ==> (step matches CompletionStep::Ask(plan) && plan.model@
                == self.planner_model@ && plan.max_tokens == 2048 && views(plan.messages@)
                == chat_messages(system_prompt@, pair_views(history@), user_input@)),
    {
        if self.is_dummy {
            return CompletionStep::Reply(String::from_str(NO_CREDENTIAL_REPLY));
        }
        let mut messages: Vec<ChatMessage> = Vec::new();
        messages.push(ChatMessage { role: Role::System, content: String::from_str(system_prompt) });
        let ghost first = views(messages@);
        let ghost h = pair_views(history@);
        let mut i: usize = 0;
        assert(first + history_messages(h.take(0)) =~= views(messages@));
        while i < history.len()
            invariant
                i <= history.len(),
                h == pair_views(history@),
                views(messages@) == first + history_messages(h.take(i as int)),
            decreases history.len() - i,
        {
            let name = history[i].0.as_str();
            let role = if same(name, "system") {
                Some(Role::System)
            } else if same(name, "user") {
                Some(Role::User)
            } else if same(name, "assistant") {
                Some(Role::Assistant)
            } else {
                None
            };
            proof {
                assert(h.take(i as int + 1).drop_last() =~= h.take(i as int));
                assert(h.take(i as int + 1).last() == (history@[i as int].0@, history@[i as int].1@));
            }
            let ghost before = views(messages@);
            match role {
                Some(r) => {
                    messages.push(ChatMessage { role: r, content: history[i].1.clone() });
                    assert(views(messages@) =~= before.push(
                        MessageView { role: r, content: history@[i as int].1@ },
                    ));
                    assert(first + history_messages(h.take(i as int)).push(
                        MessageView { role: r, content: history@[i as int].1@ },
                    ) =~= before.push(MessageView { role: r, content: history@[i as int].1@ }));
                },
                None => {},
            }
            i += 1;
        }
        assert(h.take(history.len() as int) =~= h);
        let ghost before = views(messages@);
        messages.push(ChatMessage { role: Role::User, content: String::from_str(user_input) });
        assert(views(messages@) =~= before.push(
            MessageView { role: Role::User, content: user_input@ },
        ));
        assert(first =~= seq![MessageView { role: Role::System, content: system_prompt@ }]);
        assert(views(messages@) =~= chat_messages(system_prompt@, h, user_input@));
        CompletionStep::Ask(
            ChatPlan { model: self.planner_model.clone(), messages, max_tokens: 2048 },
        )
    }

    /// What a sent request comes to: the reply, or the failure of the
    /// service under a fixed prefix.
    pub fn completion_result(outcome: Result<String, String>) -> (r: Result<String, ServiceError>)
        ensures
            match outcome {
                Ok(text) => r == Ok::<String, ServiceError>(text),
                Err(cause) => r matches Err(e) && e@ == ErrorView::Engine(
                    COMPLETION_FAILED@ + cause@,
                ),
            },
    {
        match outcome {
            Ok(text) => Ok(text),
            Err(cause) => Err(ServiceError::Engine(join2(COMPLETION_FAILED, cause.as_str()))),
        }
    }
}

/// A request to the coding agent in the shape of a remote procedure call.
#[derive(Debug, Clone)]
pub struct AgentRunPayload {
    pub jsonrpc: String,
    pub id: String,
    pub method: String,
    pub session_id: String,
    pub instruction: String,
    pub workspace: String,
}

pub ghost struct PayloadView {
    pub jsonrpc: Seq<char>,
    pub id: Seq<char>,
    pub method: Seq<char>,
    pub session_id: Seq<char>,
    pub instruction: Seq<char>,
    pub workspace: Seq<char>,
}

impl View for AgentRunPayload {
    type V = PayloadView;

    open spec fn view(&self) -> PayloadView {
        PayloadView {
            jsonrpc: self.jsonrpc@,
            id: self.id@,
            method: self.method@,
            session_id: self.session_id@,
            instruction: self.instruction@,
            workspace: self.workspace@,
        }
    }
}

/// The indented JSON text of an object whose members are the strings
/// `values` under `keys`, and one more member under `inner_key`: the
/// object of the strings `inner_values` under `inner_keys`.
pub uninterp spec fn pretty_object_text(
    keys: Seq<Seq<char>>,
    values: Seq<Seq<char>>,
    inner_key: Seq<char>,
    inner_keys: Seq<Seq<char>>,
    inner_values: Seq<Seq<char>>,
) -> Seq<char>;

/// Renders an object of strings with one nested object of strings as
/// indented JSON.
///
/// Trusted: fills two `serde_json::Map`s and calls
/// `serde_json::to_string_pretty`. States that a text comes back and that
/// it is the one that the members determine. That call fails only where a
/// value refuses to be serialized, a key is no string, or the writer
/// fails: a `Value` of strings under `String` keys does neither, and the
/// writer is a `Vec<u8>`, which takes every write.
#[verifier::external_body]
fn render_object(
    keys: &Vec<String>,
    values: &Vec<String>,
    inner_key: &str,
    inner_keys: &Vec<String>,
    inner_values: &Vec<String>,
) -> (r: Result<String, String>)
    requires
        keys.len() == values.len(),
        inner_keys.len() == inner_values.len(),
    ensures
        r is Ok,
        r matches Ok(text) ==> text@ == pretty_object_text(
            views(keys@),
            views(values@),
            inner_key@,
            views(inner_keys@),
            views(inner_values@),
        ),
{
    let mut root = serde_json::Map::new();
    for (k, v) in keys.iter().zip(values.iter()) {
        root.insert(k.clone(), serde_json::Value::String(v.clone()));
    }
    let mut inner = serde_json::Map::new();
    for (k, v) in inner_keys.iter().zip(inner_values.iter()) {
        inner.insert(k.clone(), serde_json::Value::String(v.clone()));
    }
    root.insert(inner_key.to_string(), serde_json::Value::Object(inner));
    serde_json::to_string_pretty(&serde_json::Value::Object(root)).map_err(|e| e.to_string())
}

impl PayloadView {
    /// The indented JSON text of this request.
    pub open spec fn pretty_text(self) -> Seq<char> {
        pretty_object_text(
            seq!["jsonrpc"@, "id"@, "method"@],
            seq![self.jsonrpc, self.id, self.method],
            "params"@,
            seq!["session_id"@, "instruction"@, "workspace"@],
            seq![self.session_id, self.instruction, self.workspace],
        )
    }
}

impl AgentRunPayload {
    /// This request as indented JSON: an object of the members `jsonrpc`,
    /// `id`, `method` and `params`, the last one the object of
    /// `session_id`, `instruction` and `workspace`. A request holds only
    /// strings, so rendering it always gives a text.
    pub fn to_pretty_json(&self) -> (r: Result<String, String>)
        ensures
            r matches Ok(text) && text@ == self@.pretty_text(),
    {
        let mut keys: Vec<String> = Vec::new();
        keys.push(String::from_str("jsonrpc"));
        keys.push(String::from_str("id"));
        keys.push(String::from_str("method"));
        let mut values: Vec<String> = Vec::new();
        values.push(self.jsonrpc.clone());
        values.push(self.id.clone());
        values.push(self.method.clone());
        let mut inner_keys: Vec<String> = Vec::new();
        inner_keys.push(String::from_str("session_id"));
        inner_keys.push(String::from_str("instruction"));
        inner_keys.push(String::from_str("workspace"));
        let mut inner_values: Vec<String> = Vec::new();
        inner_values.push(self.session_id.clone());
        inner_values.push(self.instruction.clone());
        inner_values.push(self.workspace.clone());
        proof {
            assert(views(keys@) =~= seq!["jsonrpc"@, "id"@, "method"@]);
            assert(views(values@) =~= seq![self.jsonrpc@, self.id@, self.method@]);
            assert(views(inner_keys@) =~= seq!["session_id"@, "instruction"@, "workspace"@]);
            assert(views(inner_values@) =~= seq![
                self.session_id@,
                self.instruction@,
                self.workspace@,
            ]);
        }
        render_object(&keys, &values, "params", &inner_keys, &inner_values)
    }
}

/// A request to a provider that carries an agent request as its context.
#[derive(Debug, Clone)]
pub struct InvokePayload {
    pub method: String,
    pub model: String,
    pub prompt: String,
    pub context: AgentRunPayload,
}

impl LlmGateway {
    /// The provider request for `model` and `prompt` around `context`.
    pub fn invoke_payload(&self, model: &str, prompt: &str, context: &AgentRunPayload) -> (out:
        InvokePayload)
        ensures
            out.method@ == "provider.invoke"@,
            out.model@ == model@,
            out.prompt@ == prompt@,
            out.context@ == context@,
    {
        InvokePayload {
            method: String::from_str("provider.invoke"),
            model: String::from_str(model),
            prompt: String::from_str(prompt),
            context: AgentRunPayload {
                jsonrpc: context.jsonrpc.clone(),
                id: context.id.clone(),
                method: context.method.clone(),
                session_id: context.session_id.clone(),
                instruction: context.instruction.clone(),
                workspace: context.workspace.clone(),
            },
        }
    }
}

/// What an engine of the coding agent was, or is to be, built from.
#[derive(Debug, Clone)]
pub enum EngineSource {
    /// A given configuration.
    Config(ExecutionConfig),
    /// The configuration that the agent reads from the environment.
    Environment,
}

pub ghost enum EngineSourceView {
    Config(ExecutionView),
    Environment,
}

impl View for EngineSource {
    type V = EngineSourceView;

    open spec fn view(&self) -> EngineSourceView {
        match self {
            EngineSource::Config(c) => EngineSourceView::Config(c@),
            EngineSource::Environment => EngineSourceView::Environment,
        }
    }
}

/// The run that the engine is asked for.
#[derive(Debug, Clone)]
pub struct RunRequest {
    pub prompt: String,
    pub session_id: String,
}

/// Which engine serves a streamed run.
#[derive(Debug, Clone)]
pub enum EngineUse {
    /// The cached engine.
    Cached,
    /// A new engine, which takes the place of the cached one.
    Build(EngineSource),
}

/// A streamed run for the caller to start.
#[derive(Debug, Clone)]
pub struct StreamPlan {
    pub request: RunRequest,
    pub engine: EngineUse,
}

/// The gateway to the coding agent: it knows whether an engine is cached
/// and what it was built from.
#[derive(Debug, Clone)]
pub struct ZeneClient {
    pub engine: Option<EngineSource>,
}

/// The view of what is cached.
pub open spec fn cached_view(e: Option<EngineSource>) -> Option<EngineSourceView> {
    match e {
        Some(s) => Some(s@),
        None => None,
    }
}

impl ZeneClient {
    /// A gateway with no engine yet.
    pub fn new() -> (c: ZeneClient)
        ensures
            c.engine is None,
    {
        ZeneClient { engine: None }
    }

    /// Records that an engine built from `source` is now the cached one.
    pub fn adopt(&mut self, source: EngineSource)
        ensures
            cached_view(final(self).engine) == Some(source@),
    {
        self.engine = Some(source);
    }

    /// Records that an engine built from `config` is now the cached one.
    pub fn init(&mut self, config: ExecutionConfig)
        ensures
            cached_view(final(self).engine) == Some(EngineSourceView::Config(config@)),
    {
        self.adopt(EngineSource::Config(config));
    }

    /// The agent request for an instruction in a workspace, under a new
    /// random identifier.
    pub fn agent_run_payload(&self, session_id: &str, instruction: &str, workspace: &str) -> (out:
        AgentRunPayload)
        ensures
            out@ == (PayloadView {
                jsonrpc: "2.0"@,
                id: out.id@,
                method: "agent.run"@,
                session_id: session_id@,
                instruction: instruction@,
                workspace: workspace@,
            }),
    {
        AgentRunPayload {
            jsonrpc: String::from_str("2.0"),
            id: fresh_id(),
            method: String::from_str("agent.run"),
            session_id: String::from_str(session_id),
            instruction: String::from_str(instruction),
            workspace: String::from_str(workspace),
        }
    }

    /// Plans a streamed run. The cached engine serves it where there is
    /// one and no other configuration is asked for. Otherwise a new engine
    /// is to be built, from the configuration asked for or, without one,
    /// from the environment; once it stands the caller hands its source to
    /// [`ZeneClient::adopt`].
    pub fn run_agent_stream(
        &self,
        session_id: &str,
        instruction: &str,
        config_override: Option<ExecutionConfig>,
    ) -> (plan: StreamPlan)
        ensures
            plan.request.prompt@ == instruction@,
            plan.request.session_id@ == session_id@,
            match config_override {
                Some(c) => plan.engine matches EngineUse::Build(s) && s@
                    == EngineSourceView::Config(c@),
                None => if self.engine is Some {
                    plan.engine is Cached
                } else {
                    plan.engine matches EngineUse::Build(s) && s@ == EngineSourceView::Environment
                },
            },
    {
        let request = RunRequest {
            prompt: String::from_str(instruction),
            session_id: String::from_str(session_id),
        };
        let engine = match config_override {
            Some(c) => EngineUse::Build(EngineSource::Config(c)),
            None => if self.engine.is_some() {
                EngineUse::Cached
            } else {
                EngineUse::Build(EngineSource::Environment)
            },
        };
        StreamPlan { request, engine }
    }
}

} // verus!
