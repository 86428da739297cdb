use celadon::clients::{CompletionStep, Setting};
use celadon::common::ServiceError;
use celadon::models::{
    ConversationTurn, IdeaEvent, PrdVersion, Project, Session, Stage, StateStore,
};
use celadon::service::{
    migrate_idea_events_to_conversation, AgentReply, CeladonService, RunStatus, StartTokens,
};

fn service() -> CeladonService {
    CeladonService::load(StateStore::default(), &Vec::new())
}

fn started(idea: &str) -> (CeladonService, String, String) {
    let mut s = service();
    let out = s.start(idea.to_string(), None, "What is the scope?".to_string()).unwrap();
    (s, out.project_id, out.session_id)
}

fn ok_reply(session_id: &str) -> AgentReply {
    AgentReply {
        status: "completed".to_string(),
        output: "done".to_string(),
        session_id: session_id.to_string(),
        error: None,
    }
}

#[test]
fn start_creates_project_session_and_two_turns() {
    let mut s = service();
    let out = s.start("Build a chat app".to_string(), None, "Which platform?".to_string()).unwrap();
    assert!(!out.project_id.is_empty());
    assert!(!out.session_id.is_empty());
    assert_ne!(out.project_id, out.session_id);
    assert_eq!(out.stage, "CLARIFYING");
    assert_eq!(out.message, "project/session created");
    assert_eq!(out.project_name, "build-a-chat-app");
    assert_eq!(out.conversation.len(), 2);
    assert_eq!(out.conversation[0].role, "user");
    assert_eq!(out.conversation[0].content, "Build a chat app");
    assert!(out.conversation[0].created_at.is_some());
    assert_eq!(out.conversation[1].role, "assistant");
    assert_eq!(out.conversation[1].content, "Which platform?");
    assert!(out.conversation[1].created_at.is_none());
    assert_eq!(out.assistant_reply, "Which platform?");

    let status = s.status(&out.session_id).unwrap();
    assert_eq!(status.session.session_id, out.session_id);
    assert_eq!(status.session.stage, Stage::Clarifying);
    assert_eq!(status.session.context_snapshot, "Build a chat app");
    assert!(status.conversation.len() >= 2);
    assert_eq!(status.project.id, out.project_id);
    assert_eq!(status.project.status, "ACTIVE");
    assert!(status.latest_prd.is_none());
    assert!(status.latest_task.is_none());
    assert!(status.latest_deployment.is_none());
    assert_eq!(s.state.idea_events.len(), 1);
    assert_eq!(s.state.idea_events[0].user_input, "Build a chat app");
}

#[test]
fn start_keeps_a_given_name() {
    let mut s = service();
    let out = s.start("x".to_string(), Some("My Shop".to_string()), "ok".to_string()).unwrap();
    assert_eq!(out.project_name, "My Shop");
    assert_eq!(s.state.projects[0].name, "My Shop");
}

#[test]
fn start_draws_identifiers_and_timestamps() {
    let (s, project_id, session_id) = started("Build a chat app");
    let p = uuid::Uuid::parse_str(&project_id).unwrap();
    let q = uuid::Uuid::parse_str(&session_id).unwrap();
    assert_eq!(p.get_version_num(), 4);
    assert_eq!(q.get_version_num(), 4);
    assert_eq!(project_id.len(), 36);
    let created = chrono::DateTime::parse_from_rfc3339(&s.state.projects[0].created_at).unwrap();
    let updated = chrono::DateTime::parse_from_rfc3339(&s.state.projects[0].updated_at).unwrap();
    assert!(created <= updated);
    assert_eq!(created.offset().local_minus_utc(), 0);
}

#[test]
fn start_with_given_tokens_is_exact() {
    let mut s = service();
    let k = StartTokens {
        project_id: "p1".to_string(),
        session_id: "s1".to_string(),
        event_id: "e1".to_string(),
        created_at: "t0".to_string(),
        user_turn_at: "t1".to_string(),
        event_at: "t2".to_string(),
        reply_turn_at: "t3".to_string(),
        touched_at: "t4".to_string(),
    };
    let out = s.start_with("Idea one".to_string(), None, "Reply".to_string(), &k);
    assert_eq!(out.project_id, "p1");
    assert_eq!(out.conversation[0].created_at.as_deref(), Some("t0"));
    assert_eq!(s.state.projects.len(), 1);
    assert_eq!(s.state.projects[0].created_at, "t0");
    assert_eq!(s.state.projects[0].updated_at, "t4");
    assert_eq!(s.state.sessions[0].project_id, "p1");
    assert_eq!(s.state.conversation_turns[0].created_at, "t1");
    assert_eq!(s.state.conversation_turns[1].created_at, "t3");
    assert_eq!(s.state.idea_events[0].event_id, "e1");
    assert_eq!(s.state.idea_events[0].created_at, "t2");
    // The same identifiers again take the place of the first pair.
    let again = s.start_with("Idea two".to_string(), None, "Reply".to_string(), &k);
    assert_eq!(again.project_name, "idea-two");
    assert_eq!(s.state.projects.len(), 1);
    assert_eq!(s.state.sessions.len(), 1);
    assert_eq!(s.state.projects[0].name, "idea-two");
    assert_eq!(s.state.conversation_turns.len(), 4);
}

#[test]
fn append_idea_adds_both_turns_in_order() {
    let (mut s, _, sid) = started("Build a chat app");
    let out = s.append_idea(&sid, "Web only".to_string(), "Understood".to_string()).unwrap();
    assert_eq!(out.message, "idea appended");
    assert_eq!(out.session_id, sid);
    assert_eq!(out.user_text, "Web only");
    assert_eq!(out.assistant_reply, "Understood");
    assert_eq!(out.stage, "CLARIFYING");
    let turns = &s.state.conversation_turns;
    assert_eq!(turns.len(), 4);
    assert_eq!((turns[2].role.as_str(), turns[2].content.as_str()), ("user", "Web only"));
    assert_eq!((turns[3].role.as_str(), turns[3].content.as_str()), ("assistant", "Understood"));
    assert_eq!(s.state.sessions[0].context_snapshot, "Web only");
    assert_eq!(s.state.sessions[0].stage, Stage::Clarifying);
    assert_eq!(s.state.idea_events.len(), 2);
}

#[test]
fn append_idea_on_unknown_session_is_not_found() {
    let (mut s, _, _) = started("Build a chat app");
    let before = s.state.conversation_turns.len();
    let err = s.append_idea("nope", "x".to_string(), "y".to_string()).unwrap_err();
    assert!(matches!(&err, ServiceError::SessionNotFound(id) if id == "nope"));
    assert_eq!(err.message(), "session not found: nope");
    assert_eq!(s.state.conversation_turns.len(), before);
    let err = s.append_idea_request("nope", "x").unwrap_err();
    assert_eq!(err.message(), "session not found: nope");
}

#[test]
fn history_lists_the_turns_of_one_session() {
    let (mut s, _, sid) = started("First");
    let other = s.start("Second".to_string(), None, "R2".to_string()).unwrap();
    s.append_idea(&sid, "More".to_string(), "Fine".to_string()).unwrap();
    let h = s.get_conversation_history(&sid);
    let expected = vec![
        ("user".to_string(), "First".to_string()),
        ("assistant".to_string(), "What is the scope?".to_string()),
        ("user".to_string(), "More".to_string()),
        ("assistant".to_string(), "Fine".to_string()),
    ];
    assert_eq!(h, expected);
    assert_eq!(s.get_conversation_history(&other.session_id).len(), 2);
    assert!(s.get_conversation_history("nope").is_empty());
}

#[test]
fn generate_prd_falls_back_on_an_empty_completion() {
    let mut s = service();
    s.state.projects.push(Project {
        id: "p".to_string(),
        name: "todo".to_string(),
        status: "ACTIVE".to_string(),
        created_at: "t".to_string(),
        updated_at: "t".to_string(),
    });
    s.state.sessions.push(Session {
        session_id: "s".to_string(),
        project_id: "p".to_string(),
        stage: Stage::Clarifying,
        context_snapshot: String::new(),
    });
    s.state.conversation_turns.push(ConversationTurn {
        session_id: "s".to_string(),
        role: "user".to_string(),
        content: "Build a todo app".to_string(),
        created_at: "t".to_string(),
    });
    let out = s.generate_prd("s", String::new()).unwrap();
    assert!(!out.content.is_empty());
    assert!(out.content.to_lowercase().contains("build a todo app"));
    assert!(out.content.contains("##"));
    assert_eq!(
        out.content,
        "# PRD · todo\n\n## 背景与目标\n\n根据澄清对话整理如下。若此处为摘要而非完整 PRD，请检查后端 LLM 配置（如 DEEPSEEK_API_KEY）或重试生成。\n\n## 对话摘要\n\n- **user**: Build a todo app\n\n## 功能与验收\n\n待根据上述对话由 AI 补充功能清单与验收标准。"
    );
    assert_eq!(out.version, 1);
    assert_eq!(out.diff_from_prev, None);
    assert_eq!(out.path, ".celadon/prd/p/v1.md");
    assert_eq!(out.message, "prd generated");
    assert_eq!(s.state.sessions[0].stage, Stage::PrdConfirmed);
    assert_eq!(s.state.sessions[0].context_snapshot, "PRD v1 ready");
    assert_eq!(s.state.prd_versions.len(), 1);
    assert_eq!(s.state.prd_versions[0].content, out.content);
    assert_ne!(s.state.projects[0].updated_at, "t");
}

#[test]
fn fallback_lists_every_turn_trimmed() {
    let (mut s, _, sid) = started("  Build it  ");
    let out = s.generate_prd(&sid, "too short".to_string()).unwrap();
    assert!(out.content.contains("- **user**: Build it\n\n- **assistant**: What is the scope?\n\n## "));
    assert!(out.content.starts_with("# PRD · build-it\n\n## "));
}

#[test]
fn generate_prd_keeps_a_usable_completion() {
    let (mut s, _, sid) = started("Build a chat app");
    let raw = format!("  ## Goals\n{}\n", "x".repeat(200));
    let out = s.generate_prd(&sid, raw.clone()).unwrap();
    assert_eq!(out.content, raw);
}

#[test]
fn fallback_threshold_is_150_bytes_after_trimming() {
    let short = format!("##{}", "a".repeat(147));
    let enough = format!("##{}", "a".repeat(148));
    assert_eq!(short.len(), 149);
    assert!(CeladonService::use_fallback(&short));
    assert!(!CeladonService::use_fallback(&enough));
    assert!(CeladonService::use_fallback(&format!("   {}   ", short)));
    assert!(CeladonService::use_fallback(""));
    assert!(CeladonService::use_fallback(" \n\t "));
    // Long enough, but without any mark of a document.
    assert!(CeladonService::use_fallback(&"a".repeat(300)));
    assert!(!CeladonService::use_fallback(&format!("背景{}", "a".repeat(300))));
    assert!(!CeladonService::use_fallback(&format!("{}功能", "a".repeat(300))));
    // Bytes count, not characters: fifty characters of three bytes each.
    assert!(!CeladonService::use_fallback(&"功能一".repeat(17)));
    assert!(CeladonService::use_fallback(&"功能".repeat(24)));
}

#[test]
fn prd_versions_count_up_without_gaps() {
    let (mut s, pid, sid) = started("Build a chat app");
    let other = s.start("Another".to_string(), None, "R".to_string()).unwrap();
    for expected in 1u32..=12 {
        let out = s.generate_prd(&sid, String::new()).unwrap();
        assert_eq!(out.version, expected);
        assert_eq!(out.path, format!(".celadon/prd/{}/v{}.md", pid, expected));
        if expected == 1 {
            assert_eq!(out.diff_from_prev, None);
        } else {
            assert_eq!(
                out.diff_from_prev,
                Some(format!("Incremental update from PRD v{}", expected - 1))
            );
        }
        if expected == 3 {
            let o = s.generate_prd(&other.session_id, String::new()).unwrap();
            assert_eq!(o.version, 1);
        }
    }
    let mine: Vec<u32> = s
        .state
        .prd_versions
        .iter()
        .filter(|v| v.project_id == pid)
        .map(|v| v.version)
        .collect();
    assert_eq!(mine, (1u32..=12).collect::<Vec<u32>>());
    assert_eq!(s.state.sessions[0].context_snapshot, "PRD v12 ready");
    let status = s.status(&sid).unwrap();
    let latest = status.latest_prd.unwrap();
    assert_eq!(latest.version, 12);
    assert_eq!(latest.diff_from_prev, Some("Incremental update from PRD v11".to_string()));
}

#[test]
fn generate_prd_refuses_missing_session_project_and_conversation() {
    let mut s = service();
    let err = s.generate_prd("s", "x".to_string()).unwrap_err();
    assert!(matches!(err, ServiceError::SessionNotFound(_)));
    s.state.sessions.push(Session {
        session_id: "s".to_string(),
        project_id: "gone".to_string(),
        stage: Stage::Clarifying,
        context_snapshot: String::new(),
    });
    let err = s.generate_prd("s", "x".to_string()).unwrap_err();
    assert!(matches!(&err, ServiceError::ProjectNotFound(id) if id == "gone"));
    assert_eq!(err.message(), "project not found: gone");
    assert_eq!(s.prd_request("s").unwrap_err().message(), "project not found: gone");
    s.state.projects.push(Project {
        id: "gone".to_string(),
        name: "n".to_string(),
        status: "ACTIVE".to_string(),
        created_at: "t".to_string(),
        updated_at: "t".to_string(),
    });
    let err = s.generate_prd("s", "x".to_string()).unwrap_err();
    assert!(matches!(err, ServiceError::Validation(_)));
    assert_eq!(err.message(), "no conversation found for session: s");
    assert_eq!(s.prd_request("s").unwrap_err().message(), "no conversation found for session: s");
    assert!(s.state.prd_versions.is_empty());
    assert_eq!(s.state.sessions[0].stage, Stage::Clarifying);
}

#[test]
fn versions_in_range_tells_when_a_next_version_exists() {
    let (mut s, pid, _) = started("Build a chat app");
    assert!(s.versions_in_range());
    s.state.prd_versions.push(PrdVersion {
        prd_id: "x".to_string(),
        project_id: pid,
        version: u32::MAX,
        content: String::new(),
        diff_from_prev: None,
    });
    assert!(!s.versions_in_range());
}

#[test]
fn prd_request_carries_name_and_transcript() {
    let env = vec![Setting { key: "DEEPSEEK_API_KEY".to_string(), value: "sk-1".to_string() }];
    let mut s = CeladonService::load(StateStore::default(), &env);
    let out = s.start("Build a chat app".to_string(), None, "Which platform?".to_string()).unwrap();
    match s.prd_request(&out.session_id).unwrap() {
        CompletionStep::Ask(plan) => {
            assert_eq!(plan.messages.len(), 2);
            assert_eq!(plan.messages[0].content, celadon::clients::PRD_GEN_SYSTEM);
            assert_eq!(
                plan.messages[1].content,
                "项目名: build-a-chat-app\n\n对话记录:\n[user] Build a chat app\n[assistant] Which platform?\n"
            );
        }
        CompletionStep::Reply(_) => panic!("a credential is set"),
    }
}

#[test]
fn deploy_without_prd_records_version_zero_and_delivers() {
    let (mut s, pid, sid) = started("Build a chat app");
    let out = s.run_deploy(&sid, "staging".to_string()).unwrap();
    assert_eq!(out.version, "prd-v0");
    assert_eq!(out.env, "staging");
    assert_eq!(out.result, "SIMULATED_SUCCESS");
    assert_eq!(out.message, "deployment recorded");
    assert_eq!(out.project_id, pid);
    assert_eq!(s.state.sessions[0].stage, Stage::Delivered);
    assert_eq!(s.state.sessions[0].context_snapshot, "deployed to staging");
    assert_eq!(s.state.deployment_runs.len(), 1);
    let run = &s.state.deployment_runs[0];
    assert_eq!(run.version, "prd-v0");
    assert_eq!(run.rollback_hint, format!("redeploy previous stable tag for project {}", pid));
    assert!(uuid::Uuid::parse_str(&run.deploy_id).is_ok());
    let status = s.status(&sid).unwrap();
    assert_eq!(status.latest_deployment.unwrap().version, "prd-v0");
}

#[test]
fn deploy_ships_the_highest_version() {
    let (mut s, _, sid) = started("Build a chat app");
    s.generate_prd(&sid, String::new()).unwrap();
    s.generate_prd(&sid, String::new()).unwrap();
    let out = s.run_deploy(&sid, "production".to_string()).unwrap();
    assert_eq!(out.version, "prd-v2");
    assert!(matches!(
        s.run_deploy("nope", "staging".to_string()),
        Err(ServiceError::SessionNotFound(_))
    ));
}

#[test]
fn dry_run_then_real_run_ends_in_testing() {
    let (mut s, _, sid) = started("Build a chat app");
    let first = s.run_dev(&sid, None, true, "/work", None).unwrap();
    assert_eq!(first.message, "development workflow queued (dry-run)");
    assert_eq!(first.run_status, RunStatus::Queued);
    assert!(first.zene_response.is_none());
    assert_eq!(s.state.sessions[0].stage, Stage::Developing);
    let second = s.run_dev(&sid, None, false, "/work", Some(ok_reply(&sid))).unwrap();
    assert_eq!(second.message, "development workflow executed");
    assert_eq!(second.run_status, RunStatus::Succeeded);
    assert!(!second.dry_run);
    assert_eq!(s.state.sessions[0].stage, Stage::Testing);
    assert_eq!(s.state.task_runs.len(), 2);
    assert_eq!(s.state.task_runs[0].run_status, "QUEUED");
    assert_eq!(s.state.task_runs[0].logs, "dry-run only, zene was not executed");
    assert_eq!(s.state.task_runs[1].run_status, "SUCCEEDED");
    assert_eq!(s.state.task_runs[1].logs, "zene agent executed successfully");
    let status = s.status(&sid).unwrap();
    let latest = status.latest_task.unwrap();
    assert_eq!(latest.run_status, "SUCCEEDED");
    assert_eq!(latest.task_id, s.state.task_runs[1].task_id);
}

#[test]
fn failed_run_stays_in_development() {
    let (mut s, _, sid) = started("Build a chat app");
    let mut reply = ok_reply(&sid);
    reply.error = Some("boom".to_string());
    let out = s.run_dev(&sid, Some("Do it".to_string()), false, "/w", Some(reply)).unwrap();
    assert_eq!(out.run_status, RunStatus::Failed);
    assert_eq!(s.state.task_runs[0].run_status, "FAILED");
    assert_eq!(s.state.task_runs[0].logs, "zene agent returned an error");
    assert_eq!(s.state.sessions[0].stage, Stage::Developing);
    assert_eq!(s.state.sessions[0].context_snapshot, "Do it");
    assert_eq!(out.zene_response.unwrap().error.as_deref(), Some("boom"));
}

#[test]
fn dry_run_takes_a_delivered_session_back_to_development() {
    let (mut s, _, sid) = started("Build a chat app");
    s.run_deploy(&sid, "staging".to_string()).unwrap();
    assert_eq!(s.state.sessions[0].stage, Stage::Delivered);
    s.run_dev(&sid, None, true, "/w", Some(ok_reply(&sid))).unwrap();
    assert_eq!(s.state.sessions[0].stage, Stage::Developing);
    assert_eq!(s.state.task_runs[0].run_status, "QUEUED");
}

#[test]
fn run_dev_renders_the_plan_as_json() {
    let (mut s, _, sid) = started("Build a chat app");
    let out = s.run_dev(&sid, None, true, "/work \"dir\"", None).unwrap();
    let instruction = "Implement the latest PRD for project `build-a-chat-app` and run tests.";
    assert_eq!(out.zene_request.instruction, instruction);
    assert_eq!(out.zene_request.jsonrpc, "2.0");
    assert_eq!(out.zene_request.method, "agent.run");
    assert_eq!(out.llm_connector_request.method, "provider.invoke");
    assert_eq!(out.llm_connector_request.model, "deepseek-chat");
    assert_eq!(
        out.llm_connector_request.prompt,
        "Execute coding task based on current project context."
    );
    assert_eq!(out.llm_connector_request.context.id, out.zene_request.id);
    assert_eq!(out.service_layer_method, "workflow.start_development");
    let plan = &s.state.task_runs[0].plan_json;
    let v: serde_json::Value = serde_json::from_str(plan).unwrap();
    assert_eq!(v["jsonrpc"].as_str(), Some("2.0"));
    assert_eq!(v["method"].as_str(), Some("agent.run"));
    assert_eq!(v["id"].as_str(), Some(out.zene_request.id.as_str()));
    assert_eq!(v["params"]["session_id"].as_str(), Some(sid.as_str()));
    assert_eq!(v["params"]["instruction"].as_str(), Some(instruction));
    assert_eq!(v["params"]["workspace"].as_str(), Some("/work \"dir\""));
    assert_eq!(v.as_object().unwrap().len(), 4);
    assert!(plan.contains("\n  \"params\": {\n"));
    assert_eq!(s.state.sessions[0].context_snapshot, instruction);
}

#[test]
fn record_dev_run_reports_a_plan_that_was_not_rendered() {
    let (mut s, _, sid) = started("Build a chat app");
    let err = s
        .record_dev_run(
            &sid,
            "go",
            RunStatus::Succeeded,
            Err("key must be a string".to_string()),
            "t1".to_string(),
            "now".to_string(),
        )
        .unwrap_err();
    assert!(matches!(&err, ServiceError::Persistence(m) if m == "key must be a string"));
    assert!(s.state.task_runs.is_empty());
    assert_eq!(s.state.sessions[0].stage, Stage::Clarifying);
    s.record_dev_run(
        &sid,
        "go",
        RunStatus::Succeeded,
        Ok("{}".to_string()),
        "t1".to_string(),
        "now".to_string(),
    )
    .unwrap();
    assert_eq!(s.state.task_runs[0].task_id, "t1");
    assert_eq!(s.state.task_runs[0].plan_json, "{}");
    assert_eq!(s.state.projects[0].updated_at, "now");
    assert_eq!(s.state.sessions[0].stage, Stage::Testing);
}

#[test]
fn dev_instruction_defaults_to_the_project() {
    let (s, _, sid) = started("Build a chat app");
    assert_eq!(
        s.dev_instruction(&sid, &None).unwrap(),
        "Implement the latest PRD for project `build-a-chat-app` and run tests."
    );
    assert_eq!(s.dev_instruction(&sid, &Some("Ship".to_string())).unwrap(), "Ship");
    assert!(matches!(s.dev_instruction("nope", &None), Err(ServiceError::SessionNotFound(_))));
}

#[test]
fn status_of_unknown_session_is_not_found() {
    let s = service();
    let err = s.status("missing").unwrap_err();
    assert_eq!(err.message(), "session not found: missing");
}

#[test]
fn list_projects_puts_the_latest_update_first() {
    let mut s = service();
    for (id, at) in [("a", "2024-01-01T00:00:00Z"), ("b", "2024-03-01T00:00:00Z"), ("c", "2024-02-01T00:00:00Z"), ("d", "2024-03-01T00:00:00Z"), ("e", "2025-01-01T00:00:00Z")] {
        s.state.projects.push(Project {
            id: id.to_string(),
            name: format!("name-{}", id),
            status: "ACTIVE".to_string(),
            created_at: at.to_string(),
            updated_at: at.to_string(),
        });
    }
    for (sid, pid, stage) in [("s-c2", "c", Stage::Testing), ("s-a", "a", Stage::Clarifying), ("s-b", "b", Stage::Developing), ("s-c", "c", Stage::Delivered), ("s-d", "d", Stage::PrdConfirmed)] {
        s.state.sessions.push(Session {
            session_id: sid.to_string(),
            project_id: pid.to_string(),
            stage,
            context_snapshot: String::new(),
        });
    }
    let list = s.list_projects().unwrap();
    let ids: Vec<&str> = list.iter().map(|p| p.project_id.as_str()).collect();
    // `e` has no session; `b` and `d` were updated at the same time and keep their order.
    assert_eq!(ids, vec!["b", "d", "c", "a"]);
    assert_eq!(list[2].session_id, "s-c2");
    assert_eq!(list[2].stage, Stage::Testing);
    assert_eq!(list[0].name, "name-b");
    assert_eq!(list[0].updated_at, "2024-03-01T00:00:00Z");
    assert!(service().list_projects().unwrap().is_empty());
}

#[test]
fn migration_copies_idea_events_once() {
    let mut state = StateStore::default();
    for (i, text) in ["first", "second"].iter().enumerate() {
        state.idea_events.push(IdeaEvent {
            event_id: format!("e{}", i),
            session_id: "s".to_string(),
            user_input: text.to_string(),
            created_at: format!("t{}", i),
        });
    }
    migrate_idea_events_to_conversation(&mut state);
    assert_eq!(state.conversation_turns.len(), 2);
    assert_eq!(state.conversation_turns[0].role, "user");
    assert_eq!(state.conversation_turns[0].content, "first");
    assert_eq!(state.conversation_turns[0].session_id, "s");
    assert_eq!(state.conversation_turns[1].created_at, "t1");
    let once: Vec<(String, String, String, String)> = state
        .conversation_turns
        .iter()
        .map(|t| (t.session_id.clone(), t.role.clone(), t.content.clone(), t.created_at.clone()))
        .collect();
    migrate_idea_events_to_conversation(&mut state);
    let twice: Vec<(String, String, String, String)> = state
        .conversation_turns
        .iter()
        .map(|t| (t.session_id.clone(), t.role.clone(), t.content.clone(), t.created_at.clone()))
        .collect();
    assert_eq!(once, twice);
    assert_eq!(state.idea_events.len(), 2);
}

#[test]
fn migration_leaves_a_store_with_turns_alone() {
    let mut state = StateStore::default();
    migrate_idea_events_to_conversation(&mut state);
    assert!(state.conversation_turns.is_empty());
    state.idea_events.push(IdeaEvent {
        event_id: "e".to_string(),
        session_id: "s".to_string(),
        user_input: "old".to_string(),
        created_at: "t".to_string(),
    });
    state.conversation_turns.push(ConversationTurn {
        session_id: "s".to_string(),
        role: "assistant".to_string(),
        content: "new".to_string(),
        created_at: "t".to_string(),
    });
    let service = CeladonService::load(state, &Vec::new());
    assert_eq!(service.state.conversation_turns.len(), 1);
    assert_eq!(service.state.conversation_turns[0].content, "new");
}

#[test]
fn load_migrates_and_resolves() {
    let mut state = StateStore::default();
    state.idea_events.push(IdeaEvent {
        event_id: "e".to_string(),
        session_id: "s".to_string(),
        user_input: "old".to_string(),
        created_at: "t".to_string(),
    });
    let tenant = vec![Setting { key: "ZENE_PLANNER_MODEL".to_string(), value: "m1".to_string() }];
    let env = vec![Setting { key: "ZENE_PLANNER_MODEL".to_string(), value: "m2".to_string() }];
    let a = CeladonService::load(state.clone(), &env);
    assert_eq!(a.state.conversation_turns.len(), 1);
    assert_eq!(a.llm_gateway.planner_model, "m2");
    assert!(a.zene_client.engine.is_none());
    let mut b = CeladonService::load_with_db(state, &tenant, &env);
    assert_eq!(b.state.conversation_turns[0].content, "old");
    assert_eq!(b.llm_gateway.planner_model, "m1");
    b.update_setting(&Vec::new(), &Vec::new());
    assert_eq!(b.llm_gateway.planner_model, "deepseek-chat");
}
