use celadon::clients::{
    ClientPlan, CompletionStep, EngineSource, EngineUse, LlmGateway, ProviderKind, Role, Setting,
    ZeneClient, plan_client, resolve_setting, CLARIFY_SYSTEM,
};
use celadon::common::ServiceError;
use celadon::models::{Stage, StateStore};
use celadon::relay::StreamRelay;
use celadon::text::{contains, decimal_string, less_than, same, strip, trim, Strip};
use celadon::service::agent_reply;
use celadon::utils::{now_timestamp, suggest_project_name};

fn setting(key: &str, value: &str) -> Setting {
    Setting { key: key.to_string(), value: value.to_string() }
}

#[test]
fn suggested_names() {
    assert_eq!(suggest_project_name("Build a chat app"), "build-a-chat-app");
    assert_eq!(suggest_project_name(""), "celadon-project");
    assert_eq!(suggest_project_name("!!!"), "celadon-project");
    assert_eq!(suggest_project_name("ab"), "celadon-ab");
    assert_eq!(suggest_project_name("abc"), "celadon-abc");
    assert_eq!(suggest_project_name("abcd"), "abcd");
    assert_eq!(suggest_project_name("  Hello,   World!! "), "hello-world");
    assert_eq!(suggest_project_name("做一个 Todo 应用 v2"), "todo-v2");
    assert_eq!(suggest_project_name("A-B"), "celadon-a-b");
    assert_eq!(suggest_project_name("XYZ09az"), "xyz09az");
}

#[test]
fn decimal_numerals() {
    assert_eq!(decimal_string(0), "0");
    assert_eq!(decimal_string(7), "7");
    assert_eq!(decimal_string(10), "10");
    assert_eq!(decimal_string(1203), "1203");
    assert_eq!(decimal_string(u32::MAX), "4294967295");
}

#[test]
fn trimming_and_stripping() {
    assert_eq!(trim("  a b \n\t"), "a b");
    assert_eq!(trim("\u{3000}x\u{a0}"), "x");
    assert_eq!(trim(" \u{2003} "), "");
    assert_eq!(trim(""), "");
    assert_eq!(trim("\u{200b}x"), "\u{200b}x");
    assert_eq!(strip("--a-b--", Strip::Dash), "a-b");
    assert_eq!(strip("---", Strip::Dash), "");
    assert_eq!(strip(" -a- ", Strip::Dash), " -a- ");
    for s in ["  a b \n\t", "\u{85}x\u{1680}", "\u{2028}\u{2029}y\u{202f}\u{205f}", "\u{1c}z\u{1f}"] {
        assert_eq!(trim(s), s.trim());
    }
}

#[test]
fn substring_search() {
    assert!(contains("abc ## def", "##"));
    assert!(contains("abc", ""));
    assert!(contains("", ""));
    assert!(!contains("", "a"));
    assert!(!contains("a#b#c", "##"));
    assert!(contains("项目背景", "背景"));
    assert!(contains("xx##", "##"));
    assert!(!contains("ab", "abc"));
}

#[test]
fn text_order_and_equality() {
    assert!(less_than("2024-01-01", "2024-01-02"));
    assert!(!less_than("2024-01-02", "2024-01-01"));
    assert!(!less_than("same", "same"));
    assert!(less_than("", "a"));
    assert!(!less_than("a", ""));
    assert!(less_than("ab", "abc"));
    assert!(less_than("z", "é"));
    assert!(same("abc", "abc"));
    assert!(!same("abc", "abd"));
}

#[test]
fn timestamps_are_well_formed() {
    let t = now_timestamp();
    assert!(chrono::DateTime::parse_from_rfc3339(&t).is_ok());
}

#[test]
fn stage_labels_and_order() {
    assert_eq!(Stage::default(), Stage::IdeaCollecting);
    let all = [
        (Stage::IdeaCollecting, "IDEA_COLLECTING"),
        (Stage::Clarifying, "CLARIFYING"),
        (Stage::PrdConfirmed, "PRD_CONFIRMED"),
        (Stage::Developing, "DEVELOPING"),
        (Stage::Testing, "TESTING"),
        (Stage::Deploying, "DEPLOYING"),
        (Stage::Delivered, "DELIVERED"),
    ];
    for (i, (stage, label)) in all.iter().enumerate() {
        assert_eq!(stage.label(), *label);
        assert_eq!(stage.rank() as usize, i);
    }
}

#[test]
fn default_store_is_empty() {
    let s = StateStore::default();
    assert!(s.projects.is_empty() && s.sessions.is_empty() && s.idea_events.is_empty());
    assert!(s.conversation_turns.is_empty() && s.prd_versions.is_empty());
    assert!(s.task_runs.is_empty() && s.deployment_runs.is_empty());
    assert_eq!(s.find_session("x"), None);
    assert_eq!(s.find_project("x"), None);
}

#[test]
fn error_messages() {
    assert_eq!(ServiceError::SessionNotFound("s".to_string()).message(), "session not found: s");
    assert_eq!(ServiceError::ProjectNotFound("p".to_string()).message(), "project not found: p");
    assert_eq!(ServiceError::Validation("v".to_string()).message(), "v");
    assert_eq!(ServiceError::Config("c".to_string()).message(), "c");
    assert_eq!(ServiceError::Engine("e".to_string()).message(), "e");
    assert_eq!(ServiceError::Persistence("w".to_string()).message(), "w");
    assert_eq!(ServiceError::Auth("a".to_string()).message(), "a");
    assert_eq!(
        ServiceError::NoActiveStream("s1".to_string()).message(),
        "No active stream for session s1"
    );
}

#[test]
fn tenant_setting_wins_then_environment_then_default() {
    let tenant = vec![setting("K", "from-tenant")];
    let env = vec![setting("K", "from-env")];
    let none: Vec<Setting> = Vec::new();
    assert_eq!(resolve_setting(&tenant, &env, "K", "fallback"), "from-tenant");
    assert_eq!(resolve_setting(&none, &env, "K", "fallback"), "from-env");
    assert_eq!(resolve_setting(&none, &none, "K", "fallback"), "fallback");
    assert_eq!(resolve_setting(&vec![setting("K", "")], &env, "K", "fallback"), "from-env");
    assert_eq!(resolve_setting(&vec![setting("K", "  \t")], &env, "K", "fallback"), "from-env");
    assert_eq!(resolve_setting(&tenant, &vec![setting("K", " ")], "Other", "fallback"), "fallback");
    assert_eq!(resolve_setting(&none, &vec![setting("K", " ")], "K", "fallback"), "fallback");
    assert_eq!(resolve_setting(&vec![setting("K", " v ")], &env, "K", "fallback"), " v ");
    let two = vec![setting("A", "1"), setting("K", "2"), setting("K", "3")];
    assert_eq!(resolve_setting(&two, &env, "K", "fallback"), "2");
}

#[test]
fn gateway_defaults_are_the_degraded_configuration() {
    let g = LlmGateway::load(&Vec::new(), &Vec::new());
    assert!(g.is_dummy);
    assert!(matches!(g.client, ClientPlan::Placeholder));
    assert_eq!(g.planner_provider, "deepseek");
    assert_eq!(g.planner_key, "");
    assert_eq!(g.planner_model, "deepseek-chat");
    assert_eq!(g.executor_provider, "openai");
    assert_eq!(g.executor_model, "gpt-4o");
    assert_eq!(g.reflector_provider, "deepseek");
    assert_eq!(g.reflector_model, "deepseek-chat");
    assert!(!g.use_semantic_memory);
    let c = g.to_agent_config();
    assert!(c.simple_mode);
    assert!(!c.use_semantic_memory);
    assert_eq!(c.executor.model, "gpt-4o");
    assert_eq!(c.planner.provider, "deepseek");
    assert_eq!(c.reflector.api_key, "");
}

#[test]
fn gateway_without_credential_answers_with_guidance() {
    let g = LlmGateway::load(&Vec::new(), &vec![setting("DEEPSEEK_API_KEY", "dummy")]);
    assert!(g.is_dummy);
    match g.clarify_round(CLARIFY_SYSTEM, &Vec::new(), "hello") {
        CompletionStep::Reply(m) => {
            assert_eq!(m, "请先在管理员设置中配置 LLM API Key 以启用需求澄清功能。")
        }
        CompletionStep::Ask(_) => panic!("no request without a credential"),
    }
}

#[test]
fn gateway_uses_the_registered_base_address() {
    let env = vec![setting("DEEPSEEK_API_KEY", "sk-generic")];
    let g = LlmGateway::load(&Vec::new(), &env);
    assert!(!g.is_dummy);
    match &g.client {
        ClientPlan::Compatible { api_key, base_url } => {
            assert_eq!(api_key, "sk-generic");
            assert!(base_url.starts_with("https://"));
            assert_ne!(base_url, "deepseek");
            assert_ne!(base_url, "global");
        }
        other => panic!("unexpected client {:?}", other),
    }
}

#[test]
fn gateway_falls_back_to_the_client_of_a_name() {
    let tenant = vec![
        setting("ZENE_PLANNER_PROVIDER", "no-such-provider"),
        setting("ZENE_PLANNER_API_KEY", "sk-planner"),
        setting("ZENE_USE_SEMANTIC_MEMORY", "true"),
    ];
    let env = vec![setting("DEEPSEEK_API_KEY", "sk-generic")];
    let g = LlmGateway::load(&tenant, &env);
    assert!(!g.is_dummy);
    assert!(g.use_semantic_memory);
    match &g.client {
        ClientPlan::Native { provider, api_key } => {
            assert_eq!(*provider, ProviderKind::DeepSeek);
            assert_eq!(api_key, "sk-planner");
        }
        other => panic!("unexpected client {:?}", other),
    }
    assert!(g.to_agent_config().use_semantic_memory);
}

#[test]
fn plan_client_knows_the_named_providers() {
    let cases = [
        ("zhipu", ProviderKind::Zhipu),
        ("moonshot", ProviderKind::Moonshot),
        ("aliyun", ProviderKind::Aliyun),
        ("openai", ProviderKind::OpenAi),
        ("anthropic", ProviderKind::Anthropic),
        ("google", ProviderKind::Google),
        ("deepseek", ProviderKind::DeepSeek),
        ("other", ProviderKind::DeepSeek),
    ];
    for (name, kind) in cases {
        match plan_client(false, name, "k", None) {
            ClientPlan::Native { provider, api_key } => {
                assert_eq!(provider, kind);
                assert_eq!(api_key, "k");
            }
            other => panic!("unexpected client {:?}", other),
        }
    }
    assert!(matches!(plan_client(true, "openai", "k", Some("u".to_string())), ClientPlan::Placeholder));
    match plan_client(false, "openai", "k", Some("https://x".to_string())) {
        ClientPlan::Compatible { api_key, base_url } => {
            assert_eq!((api_key.as_str(), base_url.as_str()), ("k", "https://x"));
        }
        other => panic!("unexpected client {:?}", other),
    }
}

#[test]
fn clarify_round_builds_the_request() {
    let g = LlmGateway::load(
        &Vec::new(),
        &vec![setting("ZENE_PLANNER_API_KEY", "sk"), setting("ZENE_PLANNER_MODEL", "m")],
    );
    let history = vec![
        ("user".to_string(), "one".to_string()),
        ("tool".to_string(), "dropped".to_string()),
        ("assistant".to_string(), "two".to_string()),
        ("system".to_string(), "three".to_string()),
    ];
    match g.clarify_round("SYS", &history, "now") {
        CompletionStep::Ask(plan) => {
            assert_eq!(plan.model, "m");
            assert_eq!(plan.max_tokens, 2048);
            let got: Vec<(Role, &str)> =
                plan.messages.iter().map(|m| (m.role, m.content.as_str())).collect();
            assert_eq!(
                got,
                vec![
                    (Role::System, "SYS"),
                    (Role::User, "one"),
                    (Role::Assistant, "two"),
                    (Role::System, "three"),
                    (Role::User, "now"),
                ]
            );
        }
        CompletionStep::Reply(_) => panic!("a credential is set"),
    }
}

#[test]
fn completion_failure_carries_the_upstream_message() {
    assert_eq!(LlmGateway::completion_result(Ok("hi".to_string())).unwrap(), "hi");
    let err = LlmGateway::completion_result(Err("timeout".to_string())).unwrap_err();
    assert!(matches!(&err, ServiceError::Engine(_)));
    assert_eq!(err.message(), "LLM 调用失败: timeout");
}

#[test]
fn agent_gateway_reuses_or_rebuilds_the_engine() {
    let g = LlmGateway::load(&Vec::new(), &Vec::new());
    let mut z = ZeneClient::new();
    let plan = z.run_agent_stream("s", "do", None);
    assert_eq!(plan.request.prompt, "do");
    assert_eq!(plan.request.session_id, "s");
    assert!(matches!(plan.engine, EngineUse::Build(EngineSource::Environment)));
    assert!(z.engine.is_none());
    z.init(g.to_agent_config());
    assert!(matches!(z.engine, Some(EngineSource::Config(_))));
    assert!(matches!(z.run_agent_stream("s", "do", None).engine, EngineUse::Cached));
    let mut other = g.to_agent_config();
    other.executor.model = "m2".to_string();
    match z.run_agent_stream("s", "do", Some(other)).engine {
        EngineUse::Build(EngineSource::Config(c)) => assert_eq!(c.executor.model, "m2"),
        _ => panic!("an override asks for a new engine"),
    }
    z.adopt(EngineSource::Environment);
    assert!(matches!(z.engine, Some(EngineSource::Environment)));
}

#[test]
fn agent_payload_has_a_fresh_identifier() {
    let z = ZeneClient::new();
    let a = z.agent_run_payload("s", "i", "w");
    let b = z.agent_run_payload("s", "i", "w");
    assert_ne!(a.id, b.id);
    assert_eq!((a.jsonrpc.as_str(), a.method.as_str()), ("2.0", "agent.run"));
    assert_eq!((a.session_id.as_str(), a.instruction.as_str(), a.workspace.as_str()), ("s", "i", "w"));
    let text = a.to_pretty_json().unwrap();
    assert_ne!(text, a.id);
    let v: serde_json::Value = serde_json::from_str(&text).unwrap();
    assert_eq!(v["params"]["workspace"].as_str(), Some("w"));
    assert_eq!(v["id"].as_str(), Some(a.id.as_str()));
}

#[test]
fn relay_hands_a_stream_out_once() {
    let mut relay: StreamRelay<u32> = StreamRelay::new();
    assert!(matches!(relay.take("s1"), Err(ServiceError::NoActiveStream(id)) if id == "s1"));
    relay.register("s1".to_string(), 10);
    relay.register("s2".to_string(), 20);
    assert_eq!(relay.len(), 2);
    assert!(relay.is_registered("s1"));
    assert_eq!(relay.take("s1").unwrap(), 10);
    assert!(!relay.is_registered("s1"));
    let err = relay.take("s1").unwrap_err();
    assert_eq!(err.message(), "No active stream for session s1");
    assert_eq!(relay.len(), 1);
    assert_eq!(relay.take("s2").unwrap(), 20);
    assert_eq!(relay.len(), 0);
}

#[test]
fn relay_register_replaces() {
    let mut relay: StreamRelay<String> = StreamRelay::new();
    relay.register("s".to_string(), "first".to_string());
    relay.register("t".to_string(), "other".to_string());
    relay.register("s".to_string(), "second".to_string());
    assert_eq!(relay.len(), 2);
    assert_eq!(relay.take("s").unwrap(), "second");
    assert!(relay.take("s").is_err());
    assert_eq!(relay.take("t").unwrap(), "other");
}

#[test]
fn agent_answer_or_failure() {
    let reply = agent_reply("s1", Ok("all done".to_string())).unwrap();
    assert_eq!(reply.status, "completed");
    assert_eq!(reply.output, "all done");
    assert_eq!(reply.session_id, "s1");
    assert!(reply.error.is_none());
    let err = agent_reply("s1", Err("upstream exploded".to_string())).unwrap_err();
    assert!(matches!(&err, ServiceError::Engine(m) if m == "upstream exploded"));
}

#[test]
fn plan_renders_whatever_the_strings_hold() {
    let z = ZeneClient::new();
    for text in ["", "plain", "quote \" and \\ backslash", "line\nbreak\ttab\u{0}\u{1f}", "需求 · é \u{1F600}"] {
        let p = z.agent_run_payload(text, text, text);
        let rendered = p.to_pretty_json();
        assert!(rendered.is_ok());
        let v: serde_json::Value = serde_json::from_str(&rendered.unwrap()).unwrap();
        assert_eq!(v["jsonrpc"].as_str(), Some("2.0"));
        assert_eq!(v["method"].as_str(), Some("agent.run"));
        assert_eq!(v["params"]["session_id"].as_str(), Some(text));
        assert_eq!(v["params"]["instruction"].as_str(), Some(text));
        assert_eq!(v["params"]["workspace"].as_str(), Some(text));
    }
}
