//! The operations of the workflow: each loads nothing and saves nothing,
//! it takes the state it is given from one stage to the next.
//!
//! An operation that needs a completion or an agent run comes in two
//! parts. The first says what to ask for ([`CeladonService::start_request`],
//! [`CeladonService::append_idea_request`], [`CeladonService::prd_request`],
//! [`CeladonService::dev_instruction`]); the second takes the answer and
//! changes the state. Identifiers and timestamps are drawn by the
//! operation itself; the form of each operation that ends in `_with` takes
//! them as arguments and is specified exactly.

use vstd::prelude::*;
use vstd::string::*;
use crate::clients::{
    chat_messages, pair_views, AgentRunPayload, CompletionStep, InvokePayload, LlmGateway,
    PayloadView, Setting, ZeneClient, CLARIFY_SYSTEM, NO_CREDENTIAL_REPLY, PRD_GEN_SYSTEM,
};
use crate::common::{AppResult, ErrorView, ServiceError};
use crate::models::{
    has_key, lemma_position_spec, lemma_upsert_has_key, opt_text, position, upsert, views,
    ConversationTurn, DeploymentRun, DeploymentView, IdeaEventView, PrdVersion, PrdView, Project,
    ProjectView, Session, SessionView, Stage, StateStore, StoreView, TaskRun, TaskView, TurnView,
};
use crate::order::{
    is_ranking, lemma_insert_stable_at, lemma_sort_stable, lemma_text_lt_asymmetric,
    lemma_text_not_lt_transitive, sort_stable, Ranked,
};
use crate::store::{first_owned, last_owned, max_version, turns_of};
use crate::text::{
    contains, decimal, decimal_string, has_substring, join2, join3, less_than, text_lt, trim,
    trimmed,
};
use crate::utils::{fresh_id, now_timestamp, suggest_project_name, suggested_name};

verus! {

/// The turn that a record of the older shape stands for.
pub open spec fn turn_of_idea(e: IdeaEventView) -> TurnView {
    TurnView {
        session_id: e.session_id,
        role: "user"@,
        content: e.user_input,
        created_at: e.created_at,
    }
}

/// The store after the records of the older shape were copied into the
/// conversation: where it has such records and no turn, each record
/// becomes a turn of the user; otherwise nothing changes.
pub open spec fn migrated(s: StoreView) -> StoreView {
    if s.conversation_turns.len() == 0 && s.idea_events.len() > 0 {
        StoreView {
            conversation_turns: Seq::new(
                s.idea_events.len(),
                |i: int| turn_of_idea(s.idea_events[i]),
            ),
            ..s
        }
    } else {
        s
    }
}

/// Copies the records of the older shape into the conversation of a store
/// that has no turn yet.
pub fn migrate_idea_events_to_conversation(state: &mut StateStore)
    ensures
        final(state)@ == migrated(old(state)@),
{
    if state.conversation_turns.len() == 0 && state.idea_events.len() > 0 {
        let mut i: usize = 0;
        while i < state.idea_events.len()
            invariant
                i <= state.idea_events.len(),
                state.idea_events == old(state).idea_events,
                state.projects == old(state).projects,
                state.sessions == old(state).sessions,
                state.prd_versions == old(state).prd_versions,
                state.task_runs == old(state).task_runs,
                state.deployment_runs == old(state).deployment_runs,
                state.conversation_turns.len() == i,
                forall|j: int|
                    0 <= j < i ==> (#[trigger] state.conversation_turns@[j])@ == turn_of_idea(
                        state.idea_events@[j]@,
                    ),
            decreases state.idea_events.len() - i,
        {
            let e = &state.idea_events[i];
            let turn = ConversationTurn {
                session_id: e.session_id.clone(),
                role: String::from_str("user"),
                content: e.user_input.clone(),
                created_at: e.created_at.clone(),
            };
            state.conversation_turns.push(turn);
            i += 1;
        }
        assert(state@.conversation_turns =~= migrated(old(state)@).conversation_turns);
    }
}

/// Migrating twice gives the same conversation, and the same store, as
/// migrating once.
pub proof fn lemma_migration_is_idempotent(s: StoreView)
    ensures
        migrated(migrated(s)) == migrated(s),
        migrated(migrated(s)).conversation_turns == migrated(s).conversation_turns,
{
}

/// The identifiers and timestamps that starting a project draws.
#[derive(Debug, Clone)]
pub struct StartTokens {
    pub project_id: String,
    pub session_id: String,
    pub event_id: String,
    pub created_at: String,
    pub user_turn_at: String,
    pub event_at: String,
    pub reply_turn_at: String,
    pub touched_at: String,
}

/// The identifier and timestamps that a further idea draws.
#[derive(Debug, Clone)]
pub struct IdeaTokens {
    pub user_turn_at: String,
    pub reply_turn_at: String,
    pub event_id: String,
    pub event_at: String,
    pub touched_at: String,
}

/// One turn as an operation reports it.
#[derive(Debug, Clone)]
pub struct TurnSummary {
    pub role: String,
    pub content: String,
    pub created_at: Option<String>,
}

pub ghost struct TurnSummaryView {
    pub role: Seq<char>,
    pub content: Seq<char>,
    pub created_at: Option<Seq<char>>,
}

impl View for TurnSummary {
    type V = TurnSummaryView;

    open spec fn view(&self) -> TurnSummaryView {
        TurnSummaryView {
            role: self.role@,
            content: self.content@,
            created_at: opt_text(self.created_at),
        }
    }
}

/// What starting a project reports.
#[derive(Debug, Clone)]
pub struct StartOutcome {
    pub message: String,
    pub project_id: String,
    pub project_name: String,
    pub session_id: String,
    pub conversation: Vec<TurnSummary>,
    pub assistant_reply: String,
    pub stage: String,
}

/// What a further idea reports.
#[derive(Debug, Clone)]
pub struct IdeaOutcome {
    pub message: String,
    pub session_id: String,
    pub user_text: String,
    pub assistant_reply: String,
    pub stage: String,
}

/// The name of a new project: the one given, else the one suggested for
/// the idea.
pub open spec fn project_name_for(idea: Seq<char>, name: Option<Seq<char>>) -> Seq<char> {
    match name {
        Some(n) => n,
        None => suggested_name(idea),
    }
}

/// The store after a project was started from `idea` and the assistant
/// answered `reply`.
pub open spec fn started(
    s: StoreView,
    idea: Seq<char>,
    name: Option<Seq<char>>,
    reply: Seq<char>,
    k: StartTokens,
) -> StoreView {
    let project = ProjectView {
        id: k.project_id@,
        name: project_name_for(idea, name),
        status: "ACTIVE"@,
        created_at: k.created_at@,
        updated_at: k.created_at@,
    };
    let session = SessionView {
        session_id: k.session_id@,
        project_id: k.project_id@,
        stage: Stage::Clarifying,
        context_snapshot: idea,
    };
    (StoreView {
        projects: upsert(s.projects, project),
        sessions: upsert(s.sessions, session),
        ..s
    }).with_turn(k.session_id@, "user"@, idea, k.user_turn_at@).with_idea(
        k.session_id@,
        idea,
        k.event_id@,
        k.event_at@,
    ).with_turn(k.session_id@, "assistant"@, reply, k.reply_turn_at@).touch(
        k.project_id@,
        k.touched_at@,
    )
}

/// The store after a further idea `text` was answered by `reply` in
/// session `sid`, which the store has.
pub open spec fn idea_appended(
    s: StoreView,
    sid: Seq<char>,
    text: Seq<char>,
    reply: Seq<char>,
    k: IdeaTokens,
) -> StoreView {
    let pid = s.sessions[position(s.sessions, sid)].project_id;
    s.with_turn(sid, "user"@, text, k.user_turn_at@).with_turn(
        sid,
        "assistant"@,
        reply,
        k.reply_turn_at@,
    ).with_idea(sid, text, k.event_id@, k.event_at@).with_session_state(
        sid,
        Stage::Clarifying,
        text,
    ).touch(pid, k.touched_at@)
}

/// The history of a session as pairs of role and content.
pub open spec fn history_of(turns: Seq<TurnView>, sid: Seq<char>) -> Seq<(Seq<char>, Seq<char>)> {
    Seq::new(
        turns_of(turns, sid).len(),
        |i: int| (turns_of(turns, sid)[i].role, turns_of(turns, sid)[i].content),
    )
}

/// The workflow of one tenant: its state, the resolved configuration and
/// the gateway to the coding agent.
#[derive(Debug, Clone)]
pub struct CeladonService {
    pub state: StateStore,
    pub llm_gateway: LlmGateway,
    pub zene_client: ZeneClient,
}

impl CeladonService {
    /// The workflow over a state read from a single tenant's storage:
    /// records of the older shape are migrated, the configuration is
    /// resolved from the environment alone, and the gateway has no engine
    /// yet.
    pub fn load(state: StateStore, env: &Vec<Setting>) -> (service: CeladonService)
        ensures
            service.state@ == migrated(state@),
            service.llm_gateway@ == crate::clients::loaded(Seq::empty(), views(env@)),
            service.zene_client.engine is None,
    {
        let mut state = state;
        migrate_idea_events_to_conversation(&mut state);
        let none: Vec<Setting> = Vec::new();
        assert(views(none@) =~= Seq::empty());
        let llm_gateway = LlmGateway::load(&none, env);
        CeladonService { state, llm_gateway, zene_client: ZeneClient::new() }
    }

    /// The workflow over a state read from a tenant's row: as
    /// [`CeladonService::load`], with the tenant's settings before the
    /// environment.
    pub fn load_with_db(state: StateStore, tenant: &Vec<Setting>, env: &Vec<Setting>) -> (service:
        CeladonService)
        ensures
            service.state@ == migrated(state@),
            service.llm_gateway@ == crate::clients::loaded(views(tenant@), views(env@)),
            service.zene_client.engine is None,
    {
        let mut state = state;
        migrate_idea_events_to_conversation(&mut state);
        let llm_gateway = LlmGateway::load(tenant, env);
        CeladonService { state, llm_gateway, zene_client: ZeneClient::new() }
    }

    /// Takes a configuration resolved anew, after a setting changed.
    pub fn update_setting(&mut self, tenant: &Vec<Setting>, env: &Vec<Setting>)
        ensures
            final(self).llm_gateway@ == crate::clients::loaded(views(tenant@), views(env@)),
            final(self).state == old(self).state,
            final(self).zene_client == old(self).zene_client,
    {
        self.llm_gateway = LlmGateway::load(tenant, env);
    }

    /// The history of a session as pairs of role and content.
    pub fn get_conversation_history(&self, session_id: &str) -> (out: Vec<(String, String)>)
        ensures
            pair_views(out@) == history_of(self.state@.conversation_turns, session_id@),
    {
        let places = self.state.turn_places(session_id);
        let mut out: Vec<(String, String)> = Vec::new();
        let mut i: usize = 0;
        while i < places.len()
            invariant
                i <= places.len(),
                places@.len() == turns_of(self.state@.conversation_turns, session_id@).len(),
                forall|k: int|
                    0 <= k < places@.len() ==> places@[k] < self.state.conversation_turns.len()
                        && self.state.conversation_turns@[#[trigger] places@[k] as int]@
                        == turns_of(self.state@.conversation_turns, session_id@)[k],
                out@.len() == i,
                forall|k: int|
                    0 <= k < i ==> (#[trigger] out@[k]).0@ == turns_of(
                        self.state@.conversation_turns,
                        session_id@,
                    )[k].role && out@[k].1@ == turns_of(
                        self.state@.conversation_turns,
                        session_id@,
                    )[k].content,
            decreases places.len() - i,
        {
            let t = &self.state.conversation_turns[places[i]];
            out.push((t.role.clone(), t.content.clone()));
            i += 1;
        }
        assert(pair_views(out@) =~= history_of(self.state@.conversation_turns, session_id@));
        out
    }

    /// The completion round that opens a project: the clarification
    /// prompt, no history, the idea.
    pub fn start_request(&self, idea: &str) -> (step: CompletionStep)
        ensures
            self.llm_gateway.is_dummy ==> (step matches CompletionStep::Reply(m) && m@
                == NO_CREDENTIAL_REPLY@),
            !self.llm_gateway.is_dummy ==> (step matches CompletionStep::Ask(plan) && plan.model@
                == self.llm_gateway.planner_model@ && plan.max_tokens == 2048 && views(
                plan.messages@,
            ) == chat_messages(CLARIFY_SYSTEM@, Seq::empty(), idea@)),
    {
        let history: Vec<(String, String)> = Vec::new();
        assert(pair_views(history@) =~= Seq::empty());
        self.llm_gateway.clarify_round(CLARIFY_SYSTEM, &history, idea)
    }

    /// The completion round for a further idea: the clarification prompt,
    /// the history of the session, the new text. Fails where the store has
    /// no such session.
    pub fn append_idea_request(&self, session_id: &str, text: &str) -> (r: AppResult<
        CompletionStep,
    >)
        ensures
            !has_key(self.state@.sessions, session_id@) ==> (r matches Err(e) && e@
                == ErrorView::SessionNotFound(session_id@)),
            has_key(self.state@.sessions, session_id@) ==> r is Ok,
            r is Ok && self.llm_gateway.is_dummy ==> (r->Ok_0 matches CompletionStep::Reply(m)
                && m@ == NO_CREDENTIAL_REPLY@),
            r is Ok && !self.llm_gateway.is_dummy ==> (r->Ok_0 matches CompletionStep::Ask(plan)
                && plan.model@ == self.llm_gateway.planner_model@ && plan.max_tokens == 2048
                && views(plan.messages@) == chat_messages(
                CLARIFY_SYSTEM@,
                history_of(self.state@.conversation_turns, session_id@),
                text@,
            )),
    {
        if self.state.find_session(session_id).is_none() {
            return Err(ServiceError::SessionNotFound(String::from_str(session_id)));
        }
        let history = self.get_conversation_history(session_id);
        Ok(self.llm_gateway.clarify_round(CLARIFY_SYSTEM, &history, text))
    }

    /// Starts a project from an idea that the assistant answered with
    /// `assistant_reply`, under the given identifiers and timestamps.
    pub fn start_with(
        &mut self,
        idea: String,
        name: Option<String>,
        assistant_reply: String,
        k: &StartTokens,
    ) -> (out: StartOutcome)
        ensures
            final(self).state@ == started(
                old(self).state@,
                idea@,
                opt_text(name),
                assistant_reply@,
                *k,
            ),
            final(self).llm_gateway == old(self).llm_gateway,
            final(self).zene_client == old(self).zene_client,
            out.message@ == "project/session created"@,
            out.project_id@ == k.project_id@,
            out.project_name@ == project_name_for(idea@, opt_text(name)),
            out.session_id@ == k.session_id@,
            views(out.conversation@) == seq![
                TurnSummaryView { role: "user"@, content: idea@, created_at: Some(k.created_at@) },
                TurnSummaryView { role: "assistant"@, content: assistant_reply@, created_at: None },
            ],
            out.assistant_reply@ == assistant_reply@,
            out.stage@ == Stage::Clarifying.spec_label(),
    {
        let project_name = match name {
            Some(n) => n,
            None => suggest_project_name(idea.as_str()),
        };
        let project = Project {
            id: k.project_id.clone(),
            name: project_name.clone(),
            status: String::from_str("ACTIVE"),
            created_at: k.created_at.clone(),
            updated_at: k.created_at.clone(),
        };
        let session = Session {
            session_id: k.session_id.clone(),
            project_id: k.project_id.clone(),
            stage: Stage::Clarifying,
            context_snapshot: idea.clone(),
        };
        proof {
            lemma_upsert_has_key(old(self).state@.sessions, session@);
        }
        self.state.insert_project(project);
        self.state.insert_session(session);
        let sid = k.session_id.as_str();
        let _ = self.state.append_conversation_turn(
            sid,
            "user",
            idea.as_str(),
            k.user_turn_at.clone(),
        );
        let _ = self.state.append_idea_event(sid, idea.clone(), k.event_id.clone(), k.event_at.clone());
        let _ = self.state.append_conversation_turn(
            sid,
            "assistant",
            assistant_reply.as_str(),
            k.reply_turn_at.clone(),
        );
        self.state.touch_project(k.project_id.as_str(), k.touched_at.clone());
        let mut conversation: Vec<TurnSummary> = Vec::new();
        conversation.push(
            TurnSummary {
                role: String::from_str("user"),
                content: idea.clone(),
                created_at: Some(k.created_at.clone()),
            },
        );
        conversation.push(
            TurnSummary {
                role: String::from_str("assistant"),
                content: assistant_reply.clone(),
                created_at: None,
            },
        );
        assert(views(conversation@) =~= seq![
            TurnSummaryView { role: "user"@, content: idea@, created_at: Some(k.created_at@) },
            TurnSummaryView { role: "assistant"@, content: assistant_reply@, created_at: None },
        ]);
        StartOutcome {
            message: String::from_str("project/session created"),
            project_id: k.project_id.clone(),
            project_name,
            session_id: k.session_id.clone(),
            conversation,
            assistant_reply,
            stage: Stage::Clarifying.label(),
        }
    }

    /// Starts a project from an idea that the assistant answered with
    /// `assistant_reply`. A project and a session are created under new
    /// identifiers, the idea and the reply become the first two turns, and
    /// the session is in the stage of clarification.
    pub fn start(&mut self, idea: String, name: Option<String>, assistant_reply: String) -> (r:
        AppResult<StartOutcome>)
        ensures
            r is Ok,
            exists|k: StartTokens|
                final(self).state@ == #[trigger] started(
                    old(self).state@,
                    idea@,
                    opt_text(name),
                    assistant_reply@,
                    k,
                ) && r->Ok_0.project_id@ == k.project_id@ && r->Ok_0.session_id@ == k.session_id@
                    && opt_text(r->Ok_0.conversation@[0].created_at) == Some(k.created_at@),
            final(self).llm_gateway == old(self).llm_gateway,
            final(self).zene_client == old(self).zene_client,
            r->Ok_0.message@ == "project/session created"@,
            r->Ok_0.project_name@ == project_name_for(idea@, opt_text(name)),
            r->Ok_0.conversation@.len() == 2,
            r->Ok_0.conversation@[0].role@ == "user"@,
            r->Ok_0.conversation@[0].content@ == idea@,
            r->Ok_0.conversation@[1].role@ == "assistant"@,
            r->Ok_0.conversation@[1].content@ == assistant_reply@,
            r->Ok_0.conversation@[1].created_at is None,
            r->Ok_0.assistant_reply@ == assistant_reply@,
            r->Ok_0.stage@ == Stage::Clarifying.spec_label(),
    {
        let created_at = now_timestamp();
        let project_id = fresh_id();
        let session_id = fresh_id();
        let user_turn_at = now_timestamp();
        let event_id = fresh_id();
        let event_at = now_timestamp();
        let reply_turn_at = now_timestamp();
        let touched_at = now_timestamp();
        let k = StartTokens {
            project_id,
            session_id,
            event_id,
            created_at,
            user_turn_at,
            event_at,
            reply_turn_at,
            touched_at,
        };
        let out = self.start_with(idea, name, assistant_reply, &k);
        proof {
            let ghost c = views(out.conversation@);
            assert(c.len() == 2);
            assert(c[0] == out.conversation@[0]@ && c[1] == out.conversation@[1]@);
        }
        Ok(out)
    }

    /// Appends a further idea and the assistant's reply to a session,
    /// under the given identifier and timestamps.
    pub fn append_idea_with(
        &mut self,
        session_id: &str,
        text: String,
        assistant_reply: String,
        k: &IdeaTokens,
    ) -> (r: AppResult<IdeaOutcome>)
        ensures
            final(self).llm_gateway == old(self).llm_gateway,
            final(self).zene_client == old(self).zene_client,
            !has_key(old(self).state@.sessions, session_id@) ==> (r matches Err(e) && e@
                == ErrorView::SessionNotFound(session_id@)) && final(self).state@ == old(
                self,
            ).state@,
            has_key(old(self).state@.sessions, session_id@) ==> (r matches Ok(out)
                && out.message@ == "idea appended"@ && out.session_id@ == session_id@
                && out.user_text@ == text@ && out.assistant_reply@ == assistant_reply@
                && out.stage@ == Stage::Clarifying.spec_label()) && final(self).state@
                == idea_appended(old(self).state@, session_id@, text@, assistant_reply@, *k),
    {
        let at = match self.state.find_session(session_id) {
            Some(at) => at,
            None => {
                return Err(ServiceError::SessionNotFound(String::from_str(session_id)));
            },
        };
        let project_id = self.state.sessions[at].project_id.clone();
        let _ = self.state.append_conversation_turn(
            session_id,
            "user",
            text.as_str(),
            k.user_turn_at.clone(),
        );
        let _ = self.state.append_conversation_turn(
            session_id,
            "assistant",
            assistant_reply.as_str(),
            k.reply_turn_at.clone(),
        );
        let _ = self.state.append_idea_event(
            session_id,
            text.clone(),
            k.event_id.clone(),
            k.event_at.clone(),
        );
        self.state.set_session_state(session_id, Stage::Clarifying, text.clone());
        self.state.touch_project(project_id.as_str(), k.touched_at.clone());
        Ok(
            IdeaOutcome {
                message: String::from_str("idea appended"),
                session_id: String::from_str(session_id),
                user_text: text,
                assistant_reply,
                stage: Stage::Clarifying.label(),
            },
        )
    }

    /// Appends a further idea and the assistant's reply to a session. The
    /// session goes to the stage of clarification and remembers the text.
    /// Fails, and changes nothing, where the store has no such session.
    pub fn append_idea(&mut self, session_id: &str, text: String, assistant_reply: String) -> (r:
        AppResult<IdeaOutcome>)
        ensures
            final(self).llm_gateway == old(self).llm_gateway,
            final(self).zene_client == old(self).zene_client,
            !has_key(old(self).state@.sessions, session_id@) ==> (r matches Err(e) && e@
                == ErrorView::SessionNotFound(session_id@)) && final(self).state@ == old(
                self,
            ).state@,
            has_key(old(self).state@.sessions, session_id@) ==> (r matches Ok(out)
                && out.message@ == "idea appended"@ && out.session_id@ == session_id@
                && out.user_text@ == text@ && out.assistant_reply@ == assistant_reply@
                && out.stage@ == Stage::Clarifying.spec_label()) && (exists|k: IdeaTokens|
                final(self).state@ == #[trigger] idea_appended(
                    old(self).state@,
                    session_id@,
                    text@,
                    assistant_reply@,
                    k,
                )),
    {
        let user_turn_at = now_timestamp();
        let reply_turn_at = now_timestamp();
        let event_id = fresh_id();
        let event_at = now_timestamp();
        let touched_at = now_timestamp();
        let k = IdeaTokens { user_turn_at, reply_turn_at, event_id, event_at, touched_at };
        self.append_idea_with(session_id, text, assistant_reply, &k)
    }
}

/// The opening of the document that stands in for an unusable completion.
pub const FALLBACK_HEAD: &'static str = "# PRD · ";

/// What follows the project's name in that document.
pub const FALLBACK_BODY: &'static str =
    "\n\n## 背景与目标\n\n根据澄清对话整理如下。若此处为摘要而非完整 PRD，请检查后端 LLM 配置（如 DEEPSEEK_API_KEY）或重试生成。\n\n## 对话摘要\n\n";

/// What follows the summary of the conversation in that document.
pub const FALLBACK_TAIL: &'static str =
    "\n\n## 功能与验收\n\n待根据上述对话由 AI 补充功能清单与验收标准。";

/// The least number of bytes of a usable document.
pub const PRD_MIN_BYTES: usize = 150;

/// Why a session cannot be worked on: the store lacks it, or lacks its
/// project.
pub open spec fn lookup_refusal(s: StoreView, sid: Seq<char>) -> Option<ErrorView> {
    if !has_key(s.sessions, sid) {
        Some(ErrorView::SessionNotFound(sid))
    } else if !has_key(s.projects, session_of(s, sid).project_id) {
        Some(ErrorView::ProjectNotFound(session_of(s, sid).project_id))
    } else {
        None
    }
}

/// The session with identifier `sid`, which the store has.
pub open spec fn session_of(s: StoreView, sid: Seq<char>) -> SessionView {
    s.sessions[position(s.sessions, sid)]
}

/// The project of the session with identifier `sid`.
pub open spec fn project_of(s: StoreView, sid: Seq<char>) -> ProjectView {
    s.projects[position(s.projects, session_of(s, sid).project_id)]
}

/// Why no document can be written for a session: a lookup fails, or the
/// session has no conversation.
pub open spec fn prd_refusal(s: StoreView, sid: Seq<char>) -> Option<ErrorView> {
    if lookup_refusal(s, sid) is Some {
        lookup_refusal(s, sid)
    } else if turns_of(s.conversation_turns, sid).len() == 0 {
        Some(ErrorView::Validation("no conversation found for session: "@ + sid))
    } else {
        None
    }
}

/// The conversation as one text, a line for each turn.
pub open spec fn transcript(turns: Seq<TurnView>) -> Seq<char>
    decreases turns.len(),
{
    if turns.len() == 0 {
        Seq::empty()
    } else {
        transcript(turns.drop_last()) + ("["@ + turns.last().role + "] "@ + (turns.last().content
            + "\n"@))
    }
}

/// What the completion service is given to write a document from.
pub open spec fn prd_input(name: Seq<char>, turns: Seq<TurnView>) -> Seq<char> {
    "项目名: "@ + name + "\n\n对话记录:\n"@ + transcript(turns)
}

/// One turn as an item of a list.
pub open spec fn turn_line(t: TurnView) -> Seq<char> {
    "- **"@ + t.role + "**: "@ + trimmed(t.content)
}

/// The turns as a list, an empty line between two items.
pub open spec fn summary_lines(turns: Seq<TurnView>) -> Seq<char>
    decreases turns.len(),
{
    if turns.len() == 0 {
        Seq::empty()
    } else if turns.len() == 1 {
        turn_line(turns[0])
    } else {
        summary_lines(turns.drop_last()) + "\n\n"@ + turn_line(turns.last())
    }
}

/// The document built from the conversation itself.
pub open spec fn fallback_document(name: Seq<char>, turns: Seq<TurnView>) -> Seq<char> {
    FALLBACK_HEAD@ + name + FALLBACK_BODY@ + summary_lines(turns) + FALLBACK_TAIL@
}

/// Whether a completion cannot serve as a document: without its outer
/// whitespace it is empty, shorter than the least number of bytes, or
/// holds none of the marks of a document.
pub open spec fn needs_fallback(raw: Seq<char>) -> bool {
    let t = trimmed(raw);
    t.len() == 0 || vstd::utf8::encode_utf8(t).len() < PRD_MIN_BYTES || (!has_substring(
        t,
        "##"@,
    ) && !has_substring(t, "背景"@) && !has_substring(t, "功能"@))
}

/// The content of the document written from `raw`.
pub open spec fn prd_content(raw: Seq<char>, name: Seq<char>, turns: Seq<TurnView>) -> Seq<char> {
    if needs_fallback(raw) {
        fallback_document(name, turns)
    } else {
        raw
    }
}

/// The note on the version before, where the project has one.
pub open spec fn diff_note(prds: Seq<PrdView>, pid: Seq<char>) -> Option<Seq<char>> {
    if last_owned(prds, pid) >= 0 {
        Some("Incremental update from PRD v"@ + decimal(max_version(prds, pid)))
    } else {
        None
    }
}

/// The document that `raw` becomes for the session `sid`.
pub open spec fn next_prd(s: StoreView, sid: Seq<char>, raw: Seq<char>, prd_id: Seq<char>) -> PrdView {
    let pid = project_of(s, sid).id;
    PrdView {
        prd_id,
        project_id: pid,
        version: max_version(s.prd_versions, pid) + 1,
        content: prd_content(
            raw,
            project_of(s, sid).name,
            turns_of(s.conversation_turns, sid),
        ),
        diff_from_prev: diff_note(s.prd_versions, pid),
    }
}

/// The store after a document was written for the session `sid`.
pub open spec fn prd_generated(
    s: StoreView,
    sid: Seq<char>,
    raw: Seq<char>,
    prd_id: Seq<char>,
    now: Seq<char>,
) -> StoreView {
    let prd = next_prd(s, sid, raw, prd_id);
    (StoreView { prd_versions: s.prd_versions.push(prd), ..s }).with_session_state(
        sid,
        Stage::PrdConfirmed,
        "PRD v"@ + decimal(prd.version) + " ready"@,
    ).touch(prd.project_id, now)
}

/// Whether every stored version is below the greatest number of its type,
/// so that a next one exists.
pub open spec fn versions_bounded(prds: Seq<PrdView>) -> bool {
    forall|i: int| 0 <= i < prds.len() ==> (#[trigger] prds[i]).version < u32::MAX
}

/// Below a bound on all versions, the highest of a project is below it.
pub proof fn lemma_max_version_bounded(prds: Seq<PrdView>, pid: Seq<char>)
    requires
        versions_bounded(prds),
    ensures
        max_version(prds, pid) < u32::MAX,
    decreases prds.len(),
{
    if prds.len() > 0 {
        let t = prds.drop_last();
        assert forall|i: int| 0 <= i < t.len() implies (#[trigger] t[i]).version < u32::MAX by {
            assert(t[i] == prds[i]);
        }
        lemma_max_version_bounded(t, pid);
        assert(prds.last() == prds[prds.len() - 1]);
    }
}

/// What writing a document reports.
#[derive(Debug, Clone)]
pub struct PrdOutcome {
    pub message: String,
    pub project_id: String,
    pub session_id: String,
    pub version: u32,
    /// Where the caller mirrors the content, below the tenant's storage.
    pub path: String,
    pub content: String,
    pub diff_from_prev: Option<String>,
}

impl CeladonService {
    /// The places of a session and of its project, or the lookup that
    /// fails.
    pub fn resolve(&self, session_id: &str) -> (r: AppResult<(usize, usize)>)
        ensures
            match lookup_refusal(self.state@, session_id@) {
                Some(e) => r matches Err(x) && x@ == e,
                None => r matches Ok(at) && at.0 == position(self.state@.sessions, session_id@)
                    && at.0 < self.state.sessions.len() && at.1 == position(
                    self.state@.projects,
                    session_of(self.state@, session_id@).project_id,
                ) && at.1 < self.state.projects.len(),
            },
    {
        let at = match self.state.find_session(session_id) {
            Some(at) => at,
            None => {
                return Err(ServiceError::SessionNotFound(String::from_str(session_id)));
            },
        };
        let pid = self.state.sessions[at].project_id.as_str();
        match self.state.find_project(pid) {
            Some(p) => Ok((at, p)),
            None => Err(ServiceError::ProjectNotFound(String::from_str(pid))),
        }
    }

    fn transcript_text(&self, session_id: &str, places: &Vec<usize>) -> (out: String)
        requires
            places@.len() == turns_of(self.state@.conversation_turns, session_id@).len(),
            forall|k: int|
                0 <= k < places@.len() ==> places@[k] < self.state.conversation_turns.len()
                    && self.state.conversation_turns@[#[trigger] places@[k] as int]@ == turns_of(
                    self.state@.conversation_turns,
                    session_id@,
                )[k],
        ensures
            out@ == transcript(turns_of(self.state@.conversation_turns, session_id@)),
    {
        let ghost ts = turns_of(self.state@.conversation_turns, session_id@);
        let mut out = String::new();
        let mut i: usize = 0;
        while i < places.len()
            invariant
                i <= places.len(),
                ts == turns_of(self.state@.conversation_turns, session_id@),
                places@.len() == ts.len(),
                forall|k: int|
                    0 <= k < places@.len() ==> places@[k] < self.state.conversation_turns.len()
                        && self.state.conversation_turns@[#[trigger] places@[k] as int]@ == ts[k],
                out@ == transcript(ts.take(i as int)),
            decreases places.len() - i,
        {
            let t = &self.state.conversation_turns[places[i]];
            proof {
                assert(ts.take(i as int + 1).drop_last() =~= ts.take(i as int));
                assert(ts.take(i as int + 1).last() == ts[i as int]);
            }
            let head = join3("[", t.role.as_str(), "] ");
            let line = join2(t.content.as_str(), "\n");
            let whole = join2(head.as_str(), line.as_str());
            out.append(whole.as_str());
            i += 1;
        }
        assert(ts.take(i as int) =~= ts);
        out
    }

    fn summary_text(&self, session_id: &str, places: &Vec<usize>) -> (out: String)
        requires
            places@.len() == turns_of(self.state@.conversation_turns, session_id@).len(),
            forall|k: int|
                0 <= k < places@.len() ==> places@[k] < self.state.conversation_turns.len()
                    && self.state.conversation_turns@[#[trigger] places@[k] as int]@ == turns_of(
                    self.state@.conversation_turns,
                    session_id@,
                )[k],
        ensures
            out@ == summary_lines(turns_of(self.state@.conversation_turns, session_id@)),
    {
        let ghost ts = turns_of(self.state@.conversation_turns, session_id@);
        let mut out = String::new();
        let mut i: usize = 0;
        while i < places.len()
            invariant
                i <= places.len(),
                ts == turns_of(self.state@.conversation_turns, session_id@),
                places@.len() == ts.len(),
                forall|k: int|
                    0 <= k < places@.len() ==> places@[k] < self.state.conversation_turns.len()
                        && self.state.conversation_turns@[#[trigger] places@[k] as int]@ == ts[k],
                out@ == summary_lines(ts.take(i as int)),
            decreases places.len() - i,
        {
            let t = &self.state.conversation_turns[places[i]];
            proof {
                assert(ts.take(i as int + 1).drop_last() =~= ts.take(i as int));
                assert(ts.take(i as int + 1).last() == ts[i as int]);
                assert(ts.take(i as int + 1)[0] == ts[0]);
            }
            let head = join3("- **", t.role.as_str(), "**: ");
            let body = trim(t.content.as_str());
            let line = join2(head.as_str(), body.as_str());
            if i == 0 {
                out = line;
            } else {
                out.append("\n\n");
                out.append(line.as_str());
            }
            i += 1;
        }
        assert(ts.take(i as int) =~= ts);
        out
    }

    /// The completion round that writes a document: the prompt for
    /// documents, no history, and the project's name with the transcript
    /// of the session. Fails where a lookup fails or the session has no
    /// conversation.
    pub fn prd_request(&self, session_id: &str) -> (r: AppResult<CompletionStep>)
        ensures
            match prd_refusal(self.state@, session_id@) {
                Some(e) => r matches Err(x) && x@ == e,
                None => r is Ok,
            },
            r is Ok && self.llm_gateway.is_dummy ==> (r->Ok_0 matches CompletionStep::Reply(m)
                && m@ == NO_CREDENTIAL_REPLY@),
            r is Ok && !self.llm_gateway.is_dummy ==> (r->Ok_0 matches CompletionStep::Ask(plan)
                && plan.model@ == self.llm_gateway.planner_model@ && plan.max_tokens == 2048
                && views(plan.messages@) == chat_messages(
                PRD_GEN_SYSTEM@,
                Seq::empty(),
                prd_input(
                    project_of(self.state@, session_id@).name,
                    turns_of(self.state@.conversation_turns, session_id@),
                ),
            )),
    {
        let at = match self.resolve(session_id) {
            Ok(at) => at,
            Err(e) => {
                return Err(e);
            },
        };
        let places = self.state.turn_places(session_id);
        if places.len() == 0 {
            return Err(
                ServiceError::Validation(join2("no conversation found for session: ", session_id)),
            );
        }
        let text = self.transcript_text(session_id, &places);
        let head = join3("项目名: ", self.state.projects[at.1].name.as_str(), "\n\n对话记录:\n");
        let input = join2(head.as_str(), text.as_str());
        let history: Vec<(String, String)> = Vec::new();
        assert(pair_views(history@) =~= Seq::empty());
        Ok(self.llm_gateway.clarify_round(PRD_GEN_SYSTEM, &history, input.as_str()))
    }

    /// Whether a completion cannot serve as a document.
    pub fn use_fallback(raw: &str) -> (b: bool)
        ensures
            b == needs_fallback(raw@),
    {
        let t = trim(raw);
        let text = t.as_str();
        let bytes = text.as_bytes();
        if text.unicode_len() == 0 || bytes.len() < PRD_MIN_BYTES {
            return true;
        }
        !contains(text, "##") && !contains(text, "背景") && !contains(text, "功能")
    }

    /// Whether every stored version leaves room for a next one.
    pub fn versions_in_range(&self) -> (b: bool)
        ensures
            b == versions_bounded(self.state@.prd_versions),
    {
        let mut i: usize = 0;
        while i < self.state.prd_versions.len()
            invariant
                i <= self.state.prd_versions.len(),
                forall|j: int| 0 <= j < i ==> (#[trigger] self.state@.prd_versions[j]).version < u32::MAX,
            decreases self.state.prd_versions.len() - i,
        {
            if self.state.prd_versions[i].version == u32::MAX {
                assert(self.state@.prd_versions[i as int].version == u32::MAX);
                return false;
            }
            i += 1;
        }
        true
    }

    /// Writes the next document of a session's project from the completion
    /// `raw`, under the given identifier and timestamp.
    pub fn generate_prd_with(
        &mut self,
        session_id: &str,
        raw: String,
        prd_id: String,
        touched_at: String,
    ) -> (r: AppResult<PrdOutcome>)
        requires
            versions_bounded(old(self).state@.prd_versions),
        ensures
            final(self).llm_gateway == old(self).llm_gateway,
            final(self).zene_client == old(self).zene_client,
            match prd_refusal(old(self).state@, session_id@) {
                Some(e) => (r matches Err(x) && x@ == e) && final(self).state@ == old(self).state@,
                None => final(self).state@ == prd_generated(
                    old(self).state@,
                    session_id@,
                    raw@,
                    prd_id@,
                    touched_at@,
                ) && (r matches Ok(out) && out.message@ == "prd generated"@ && out.project_id@
                    == project_of(old(self).state@, session_id@).id && out.session_id@
                    == session_id@ && out.version == next_prd(
                    old(self).state@,
                    session_id@,
                    raw@,
                    prd_id@,
                ).version && out.content@ == next_prd(
                    old(self).state@,
                    session_id@,
                    raw@,
                    prd_id@,
                ).content && opt_text(out.diff_from_prev) == next_prd(
                    old(self).state@,
                    session_id@,
                    raw@,
                    prd_id@,
                ).diff_from_prev && out.path@ == ".celadon/prd/"@ + out.project_id@ + "/v"@
                    + decimal(out.version as nat) + ".md"@),
            },
    {
        let at = match self.resolve(session_id) {
            Ok(at) => at,
            Err(e) => {
                return Err(e);
            },
        };
        let places = self.state.turn_places(session_id);
        if places.len() == 0 {
            return Err(
                ServiceError::Validation(join2("no conversation found for session: ", session_id)),
            );
        }
        let project_id = self.state.projects[at.1].id.clone();
        let content = if Self::use_fallback(raw.as_str()) {
            let lines = self.summary_text(session_id, &places);
            let head = join3(FALLBACK_HEAD, self.state.projects[at.1].name.as_str(), FALLBACK_BODY);
            join3(head.as_str(), lines.as_str(), FALLBACK_TAIL)
        } else {
            raw
        };
        proof {
            lemma_position_spec(old(self).state@.projects, session_of(old(self).state@, session_id@).project_id);
            lemma_max_version_bounded(old(self).state@.prd_versions, project_id@);
        }
        let previous = self.state.highest_version(project_id.as_str());
        let next_version: u32 = previous + 1;
        let diff_from_prev = if self.state.has_version(project_id.as_str()) {
            Some(join2("Incremental update from PRD v", decimal_string(previous).as_str()))
        } else {
            None
        };
        let note = match &diff_from_prev {
            Some(d) => Some(d.clone()),
            None => None,
        };
        let prd = PrdVersion {
            prd_id,
            project_id: project_id.clone(),
            version: next_version,
            content: content.clone(),
            diff_from_prev: note,
        };
        assert(prd@ == next_prd(old(self).state@, session_id@, raw@, prd_id@));
        self.state.prd_versions.push(prd);
        assert(self.state@.prd_versions =~= old(self).state@.prd_versions.push(prd@));
        let number = decimal_string(next_version);
        self.state.set_session_state(
            session_id,
            Stage::PrdConfirmed,
            join3("PRD v", number.as_str(), " ready"),
        );
        self.state.touch_project(project_id.as_str(), touched_at);
        let dir = join3(".celadon/prd/", project_id.as_str(), "/v");
        let path = join3(dir.as_str(), number.as_str(), ".md");
        Ok(
            PrdOutcome {
                message: String::from_str("prd generated"),
                project_id,
                session_id: String::from_str(session_id),
                version: next_version,
                path,
                content,
                diff_from_prev,
            },
        )
    }

    /// Writes the next document of a session's project from the completion
    /// `raw`. The version is one above the highest that the project has; a
    /// completion that cannot serve is replaced by a document built from
    /// the conversation. The session goes to the stage of a confirmed
    /// document.
    pub fn generate_prd(&mut self, session_id: &str, raw: String) -> (r: AppResult<PrdOutcome>)
        requires
            versions_bounded(old(self).state@.prd_versions),
        ensures
            final(self).llm_gateway == old(self).llm_gateway,
            final(self).zene_client == old(self).zene_client,
            match prd_refusal(old(self).state@, session_id@) {
                Some(e) => (r matches Err(x) && x@ == e) && final(self).state@ == old(self).state@,
                None => (exists|prd_id: Seq<char>, now: Seq<char>|
                    final(self).state@ == #[trigger] prd_generated(
                        old(self).state@,
                        session_id@,
                        raw@,
                        prd_id,
                        now,
                    )) && (r matches Ok(out) && out.message@ == "prd generated"@
                    && out.project_id@ == project_of(old(self).state@, session_id@).id
                    && out.session_id@ == session_id@ && out.version == max_version(
                    old(self).state@.prd_versions,
                    project_of(old(self).state@, session_id@).id,
                ) + 1 && out.content@ == prd_content(
                    raw@,
                    project_of(old(self).state@, session_id@).name,
                    turns_of(old(self).state@.conversation_turns, session_id@),
                ) && opt_text(out.diff_from_prev) == diff_note(
                    old(self).state@.prd_versions,
                    project_of(old(self).state@, session_id@).id,
                ) && out.path@ == ".celadon/prd/"@ + out.project_id@ + "/v"@ + decimal(
                    out.version as nat,
                ) + ".md"@),
            },
    {
        let prd_id = fresh_id();
        let touched_at = now_timestamp();
        self.generate_prd_with(session_id, raw, prd_id, touched_at)
    }
}

/// What the coding agent answered to a run.
#[derive(Debug, Clone)]
pub struct AgentReply {
    pub status: String,
    pub output: String,
    pub session_id: String,
    /// The failure that the agent reported, if it reported one.
    pub error: Option<String>,
}

/// The status of an answer of the agent that carries no error.
pub const RUN_COMPLETED: &'static str = "completed";

/// What a run of the agent to its end comes to: its output as an answer
/// without an error, or the failure with the message of the agent.
pub fn agent_reply(session_id: &str, outcome: Result<String, String>) -> (r: AppResult<AgentReply>)
    ensures
        match outcome {
            Ok(output) => r matches Ok(reply) && reply.status@ == RUN_COMPLETED@ && reply.output@
                == output@ && reply.session_id@ == session_id@ && reply.error is None,
            Err(cause) => r matches Err(e) && e@ == ErrorView::Engine(cause@),
        },
{
    match outcome {
        Ok(output) => Ok(
            AgentReply {
                status: String::from_str(RUN_COMPLETED),
                output,
                session_id: String::from_str(session_id),
                error: None,
            },
        ),
        Err(cause) => Err(ServiceError::Engine(cause)),
    }
}

/// How a development run ended.
#[derive(Debug, Clone, Copy, PartialEq, Eq, Structural)]
pub enum RunStatus {
    /// The agent was not asked.
    Queued,
    /// The agent answered without an error.
    Succeeded,
    /// The agent answered with an error.
    Failed,
}

impl RunStatus {
    /// The status under which a run is stored.
    pub open spec fn spec_label(self) -> Seq<char> {
        match self {
            RunStatus::Queued => "QUEUED"@,
            RunStatus::Succeeded => "SUCCEEDED"@,
            RunStatus::Failed => "FAILED"@,
        }
    }

    /// The summary of its log.
    pub open spec fn spec_logs(self) -> Seq<char> {
        match self {
            RunStatus::Queued => "dry-run only, zene was not executed"@,
            RunStatus::Succeeded => "zene agent executed successfully"@,
            RunStatus::Failed => "zene agent returned an error"@,
        }
    }

    /// The stage that the session is in after the run.
    pub open spec fn stage(self) -> Stage {
        match self {
            RunStatus::Succeeded => Stage::Testing,
            _ => Stage::Developing,
        }
    }

    /// The stage that the session is in after the run.
    pub fn stage_of(&self) -> (s: Stage)
        ensures
            s == self.stage(),
    {
        match self {
            RunStatus::Succeeded => Stage::Testing,
            _ => Stage::Developing,
        }
    }

    /// The status under which a run is stored.
    pub fn label(&self) -> (out: String)
        ensures
            out@ == self.spec_label(),
    {
        match self {
            RunStatus::Queued => String::from_str("QUEUED"),
            RunStatus::Succeeded => String::from_str("SUCCEEDED"),
            RunStatus::Failed => String::from_str("FAILED"),
        }
    }

    /// The summary of its log.
    pub fn logs(&self) -> (out: String)
        ensures
            out@ == self.spec_logs(),
    {
        match self {
            RunStatus::Queued => String::from_str("dry-run only, zene was not executed"),
            RunStatus::Succeeded => String::from_str("zene agent executed successfully"),
            RunStatus::Failed => String::from_str("zene agent returned an error"),
        }
    }
}

/// How a run ended: queued where it was a dry run or nothing was
/// answered, failed where the answer carries an error, else succeeded.
pub open spec fn run_status_of(dry_run: bool, response: Option<AgentReply>) -> RunStatus {
    if dry_run || response is None {
        RunStatus::Queued
    } else if response->0.error is Some {
        RunStatus::Failed
    } else {
        RunStatus::Succeeded
    }
}

/// The instruction of a run: the one given, else the default for the
/// project.
pub open spec fn final_instruction(name: Seq<char>, instruction: Option<Seq<char>>) -> Seq<char> {
    match instruction {
        Some(i) => i,
        None => "Implement the latest PRD for project `"@ + name + "` and run tests."@,
    }
}

/// The store after a development run of the session `sid` was recorded.
pub open spec fn dev_recorded(
    s: StoreView,
    sid: Seq<char>,
    instruction: Seq<char>,
    status: RunStatus,
    plan_json: Seq<char>,
    task_id: Seq<char>,
    now: Seq<char>,
) -> StoreView {
    let pid = project_of(s, sid).id;
    (StoreView {
        task_runs: s.task_runs.push(
            TaskView {
                task_id,
                project_id: pid,
                plan_json,
                run_status: status.spec_label(),
                logs: status.spec_logs(),
            },
        ),
        ..s
    }).with_session_state(sid, status.stage(), instruction).touch(pid, now)
}

/// The label of the document that a deployment ships.
pub open spec fn deployed_version(prds: Seq<PrdView>, pid: Seq<char>) -> Seq<char> {
    "prd-v"@ + decimal(max_version(prds, pid))
}

/// The store after a deployment of the session `sid` was recorded.
pub open spec fn deployed(
    s: StoreView,
    sid: Seq<char>,
    env: Seq<char>,
    deploy_id: Seq<char>,
    now: Seq<char>,
) -> StoreView {
    let pid = project_of(s, sid).id;
    (StoreView {
        deployment_runs: s.deployment_runs.push(
            DeploymentView {
                deploy_id,
                project_id: pid,
                env,
                version: deployed_version(s.prd_versions, pid),
                result: "SIMULATED_SUCCESS"@,
                rollback_hint: "redeploy previous stable tag for project "@ + pid,
            },
        ),
        ..s
    }).with_session_state(sid, Stage::Delivered, "deployed to "@ + env).touch(pid, now)
}

/// What a development run reports.
#[derive(Debug, Clone)]
pub struct DevOutcome {
    pub message: String,
    pub service_layer_method: String,
    pub dry_run: bool,
    pub run_status: RunStatus,
    pub zene_request: AgentRunPayload,
    pub zene_response: Option<AgentReply>,
    pub llm_connector_request: InvokePayload,
}

/// What a deployment reports.
#[derive(Debug, Clone)]
pub struct DeployOutcome {
    pub message: String,
    pub project_id: String,
    pub session_id: String,
    pub env: String,
    pub version: String,
    pub result: String,
}

impl CeladonService {
    /// The instruction that a development run of a session gives the
    /// agent: the one given, else the default for the project. Fails where
    /// a lookup fails.
    pub fn dev_instruction(&self, session_id: &str, instruction: &Option<String>) -> (r: AppResult<
        String,
    >)
        ensures
            match lookup_refusal(self.state@, session_id@) {
                Some(e) => r matches Err(x) && x@ == e,
                None => r matches Ok(text) && text@ == final_instruction(
                    project_of(self.state@, session_id@).name,
                    opt_text(*instruction),
                ),
            },
    {
        let at = match self.resolve(session_id) {
            Ok(at) => at,
            Err(e) => {
                return Err(e);
            },
        };
        match instruction {
            Some(i) => Ok(i.clone()),
            None => Ok(
                join3(
                    "Implement the latest PRD for project `",
                    self.state.projects[at.1].name.as_str(),
                    "` and run tests.",
                ),
            ),
        }
    }

    /// How a run ended, from whether it was a dry run and what the agent
    /// answered.
    pub fn run_status(dry_run: bool, response: &Option<AgentReply>) -> (status: RunStatus)
        ensures
            status == run_status_of(dry_run, *response),
    {
        if dry_run {
            return RunStatus::Queued;
        }
        match response {
            None => RunStatus::Queued,
            Some(reply) => if reply.error.is_some() {
                RunStatus::Failed
            } else {
                RunStatus::Succeeded
            },
        }
    }

    /// Records a development run of a session: the rendered plan, how the
    /// run ended, and the stage that follows. A plan that could not be
    /// rendered is a failure of persistence and changes nothing.
    pub fn record_dev_run(
        &mut self,
        session_id: &str,
        instruction: &str,
        status: RunStatus,
        plan: Result<String, String>,
        task_id: String,
        touched_at: String,
    ) -> (r: AppResult<()>)
        ensures
            final(self).llm_gateway == old(self).llm_gateway,
            final(self).zene_client == old(self).zene_client,
            match lookup_refusal(old(self).state@, session_id@) {
                Some(e) => (r matches Err(x) && x@ == e) && final(self).state@ == old(self).state@,
                None => match plan {
                    Err(cause) => (r matches Err(x) && x@ == ErrorView::Persistence(cause@))
                        && final(self).state@ == old(self).state@,
                    Ok(text) => r is Ok && final(self).state@ == dev_recorded(
                        old(self).state@,
                        session_id@,
                        instruction@,
                        status,
                        text@,
                        task_id@,
                        touched_at@,
                    ),
                },
            },
    {
        let at = match self.resolve(session_id) {
            Ok(at) => at,
            Err(e) => {
                return Err(e);
            },
        };
        let plan_json = match plan {
            Ok(text) => text,
            Err(cause) => {
                return Err(ServiceError::Persistence(cause));
            },
        };
        let project_id = self.state.projects[at.1].id.clone();
        let run = TaskRun {
            task_id,
            project_id: project_id.clone(),
            plan_json,
            run_status: status.label(),
            logs: status.logs(),
        };
        self.state.task_runs.push(run);
        assert(self.state@.task_runs =~= old(self).state@.task_runs.push(run@));
        self.state.set_session_state(session_id, status.stage_of(), String::from_str(instruction));
        self.state.touch_project(project_id.as_str(), touched_at);
        Ok(())
    }

    /// Records a development run of a session. A dry run is queued and
    /// leaves the session in development; a run that the agent answered
    /// without an error has succeeded and takes the session to testing; an
    /// answer with an error has failed and leaves it in development. Fails,
    /// and changes nothing, only where the store lacks the session or its
    /// project.
    pub fn run_dev(
        &mut self,
        session_id: &str,
        instruction: Option<String>,
        dry_run: bool,
        workspace: &str,
        response: Option<AgentReply>,
    ) -> (r: AppResult<DevOutcome>)
        ensures
            final(self).llm_gateway == old(self).llm_gateway,
            final(self).zene_client == old(self).zene_client,
            match lookup_refusal(old(self).state@, session_id@) {
                Some(e) => (r matches Err(x) && x@ == e) && final(self).state@ == old(self).state@,
                None => r matches Ok(out) && ((exists|task_id: Seq<char>, now: Seq<char>|
                        final(self).state@ == #[trigger] dev_recorded(
                            old(self).state@,
                            session_id@,
                            final_instruction(
                                project_of(old(self).state@, session_id@).name,
                                opt_text(instruction),
                            ),
                            run_status_of(dry_run, response),
                            out.zene_request@.pretty_text(),
                            task_id,
                            now,
                        )) && out.dry_run == dry_run && out.run_status == run_status_of(
                        dry_run,
                        response,
                    ) && out.message@ == (if dry_run {
                        "development workflow queued (dry-run)"@
                    } else {
                        "development workflow executed"@
                    }) && out.service_layer_method@ == "workflow.start_development"@
                        && out.zene_request@ == (PayloadView {
                        jsonrpc: "2.0"@,
                        id: out.zene_request.id@,
                        method: "agent.run"@,
                        session_id: session_id@,
                        instruction: final_instruction(
                            project_of(old(self).state@, session_id@).name,
                            opt_text(instruction),
                        ),
                        workspace: workspace@,
                    }) && out.llm_connector_request.context@ == out.zene_request@
                        && out.llm_connector_request.method@ == "provider.invoke"@
                        && out.llm_connector_request.model@ == "deepseek-chat"@
                        && out.llm_connector_request.prompt@
                        == "Execute coding task based on current project context."@
                        && out.zene_response == (if dry_run {
                        None
                    } else {
                        response
                    })),
            },
    {
        let text = match self.dev_instruction(session_id, &instruction) {
            Ok(text) => text,
            Err(e) => {
                return Err(e);
            },
        };
        let zene_request = self.zene_client.agent_run_payload(session_id, text.as_str(), workspace);
        let llm_connector_request = self.llm_gateway.invoke_payload(
            "deepseek-chat",
            "Execute coding task based on current project context.",
            &zene_request,
        );
        let status = Self::run_status(dry_run, &response);
        let zene_response = if dry_run {
            None
        } else {
            response
        };
        let plan = zene_request.to_pretty_json();
        let task_id = fresh_id();
        let touched_at = now_timestamp();
        match self.record_dev_run(session_id, text.as_str(), status, plan, task_id, touched_at) {
            Ok(()) => {},
            Err(e) => {
                return Err(e);
            },
        }
        Ok(
            DevOutcome {
                message: if dry_run {
                    String::from_str("development workflow queued (dry-run)")
                } else {
                    String::from_str("development workflow executed")
                },
                service_layer_method: String::from_str("workflow.start_development"),
                dry_run,
                run_status: status,
                zene_request,
                zene_response,
                llm_connector_request,
            },
        )
    }

    /// Records a deployment of a session's project to `env`, under the
    /// given identifier and timestamp.
    pub fn run_deploy_with(
        &mut self,
        session_id: &str,
        env: String,
        deploy_id: String,
        touched_at: String,
    ) -> (r: AppResult<DeployOutcome>)
        ensures
            final(self).llm_gateway == old(self).llm_gateway,
            final(self).zene_client == old(self).zene_client,
            match lookup_refusal(old(self).state@, session_id@) {
                Some(e) => (r matches Err(x) && x@ == e) && final(self).state@ == old(self).state@,
                None => final(self).state@ == deployed(
                    old(self).state@,
                    session_id@,
                    env@,
                    deploy_id@,
                    touched_at@,
                ) && (r matches Ok(out) && out.message@ == "deployment recorded"@
                    && out.project_id@ == project_of(old(self).state@, session_id@).id
                    && out.session_id@ == session_id@ && out.env@ == env@ && out.version@
                    == deployed_version(
                    old(self).state@.prd_versions,
                    project_of(old(self).state@, session_id@).id,
                ) && out.result@ == "SIMULATED_SUCCESS"@),
            },
    {
        let at = match self.resolve(session_id) {
            Ok(at) => at,
            Err(e) => {
                return Err(e);
            },
        };
        let project_id = self.state.projects[at.1].id.clone();
        let highest = self.state.highest_version(project_id.as_str());
        let version = join2("prd-v", decimal_string(highest).as_str());
        let run = DeploymentRun {
            deploy_id,
            project_id: project_id.clone(),
            env: env.clone(),
            version: version.clone(),
            result: String::from_str("SIMULATED_SUCCESS"),
            rollback_hint: join2("redeploy previous stable tag for project ", project_id.as_str()),
        };
        self.state.deployment_runs.push(run);
        assert(self.state@.deployment_runs =~= old(self).state@.deployment_runs.push(run@));
        self.state.set_session_state(
            session_id,
            Stage::Delivered,
            join2("deployed to ", env.as_str()),
        );
        self.state.touch_project(project_id.as_str(), touched_at);
        Ok(
            DeployOutcome {
                message: String::from_str("deployment recorded"),
                project_id,
                session_id: String::from_str(session_id),
                env,
                version,
                result: String::from_str("SIMULATED_SUCCESS"),
            },
        )
    }

    /// Records a deployment of a session's project to `env`: the label of
    /// the highest version of its document, `prd-v0` where it has none, a
    /// simulated success, and the session delivered.
    pub fn run_deploy(&mut self, session_id: &str, env: String) -> (r: AppResult<DeployOutcome>)
        ensures
            final(self).llm_gateway == old(self).llm_gateway,
            final(self).zene_client == old(self).zene_client,
            match lookup_refusal(old(self).state@, session_id@) {
                Some(e) => (r matches Err(x) && x@ == e) && final(self).state@ == old(self).state@,
                None => (exists|deploy_id: Seq<char>, now: Seq<char>|
                    final(self).state@ == #[trigger] deployed(
                        old(self).state@,
                        session_id@,
                        env@,
                        deploy_id,
                        now,
                    )) && (r matches Ok(out) && out.message@ == "deployment recorded"@
                    && out.project_id@ == project_of(old(self).state@, session_id@).id
                    && out.session_id@ == session_id@ && out.env@ == env@ && out.version@
                    == deployed_version(
                    old(self).state@.prd_versions,
                    project_of(old(self).state@, session_id@).id,
                ) && out.result@ == "SIMULATED_SUCCESS"@),
            },
    {
        let deploy_id = fresh_id();
        let touched_at = now_timestamp();
        self.run_deploy_with(session_id, env, deploy_id, touched_at)
    }
}

/// A project as a status shows it.
#[derive(Debug, Clone)]
pub struct ProjectBrief {
    pub id: String,
    pub name: String,
    pub status: String,
}

/// A session as a status shows it.
#[derive(Debug, Clone)]
pub struct SessionBrief {
    pub session_id: String,
    pub stage: Stage,
    pub context_snapshot: String,
}

/// A document as a status shows it.
#[derive(Debug, Clone)]
pub struct PrdBrief {
    pub version: u32,
    pub diff_from_prev: Option<String>,
}

/// A task run as a status shows it.
#[derive(Debug, Clone)]
pub struct TaskBrief {
    pub task_id: String,
    pub run_status: String,
}

/// A deployment as a status shows it.
#[derive(Debug, Clone)]
pub struct DeploymentBrief {
    pub deploy_id: String,
    pub env: String,
    pub version: String,
    pub result: String,
}

/// Where a session and its project stand.
#[derive(Debug, Clone)]
pub struct StatusReport {
    pub project: ProjectBrief,
    pub session: SessionBrief,
    pub conversation: Vec<TurnSummary>,
    pub latest_prd: Option<PrdBrief>,
    pub latest_task: Option<TaskBrief>,
    pub latest_deployment: Option<DeploymentBrief>,
}

/// The turns of a session as a status shows them.
pub open spec fn conversation_of(turns: Seq<TurnView>, sid: Seq<char>) -> Seq<TurnSummaryView> {
    Seq::new(
        turns_of(turns, sid).len(),
        |i: int|
            TurnSummaryView {
                role: turns_of(turns, sid)[i].role,
                content: turns_of(turns, sid)[i].content,
                created_at: Some(turns_of(turns, sid)[i].created_at),
            },
    )
}

/// Whether `out` shows the last document of project `pid`.
pub open spec fn shows_last_prd(out: Option<PrdBrief>, prds: Seq<PrdView>, pid: Seq<char>) -> bool {
    let at = last_owned(prds, pid);
    match out {
        None => at < 0,
        Some(b) => at >= 0 && b.version == prds[at].version && opt_text(b.diff_from_prev)
            == prds[at].diff_from_prev,
    }
}

/// Whether `out` shows the last task run of project `pid`.
pub open spec fn shows_last_task(out: Option<TaskBrief>, tasks: Seq<TaskView>, pid: Seq<char>) -> bool {
    let at = last_owned(tasks, pid);
    match out {
        None => at < 0,
        Some(b) => at >= 0 && b.task_id@ == tasks[at].task_id && b.run_status@
            == tasks[at].run_status,
    }
}

/// Whether `out` shows the last deployment of project `pid`.
pub open spec fn shows_last_deployment(
    out: Option<DeploymentBrief>,
    runs: Seq<DeploymentView>,
    pid: Seq<char>,
) -> bool {
    let at = last_owned(runs, pid);
    match out {
        None => at < 0,
        Some(b) => at >= 0 && b.deploy_id@ == runs[at].deploy_id && b.env@ == runs[at].env
            && b.version@ == runs[at].version && b.result@ == runs[at].result,
    }
}

/// A project with its first session, as a listing shows it.
#[derive(Debug, Clone)]
pub struct ProjectSummary {
    pub project_id: String,
    pub name: String,
    pub status: String,
    pub updated_at: String,
    pub session_id: String,
    pub stage: Stage,
}

pub ghost struct SummaryView {
    pub project_id: Seq<char>,
    pub name: Seq<char>,
    pub status: Seq<char>,
    pub updated_at: Seq<char>,
    pub session_id: Seq<char>,
    pub stage: Stage,
}

impl View for ProjectSummary {
    type V = SummaryView;

    open spec fn view(&self) -> SummaryView {
        SummaryView {
            project_id: self.project_id@,
            name: self.name@,
            status: self.status@,
            updated_at: self.updated_at@,
            session_id: self.session_id@,
            stage: self.stage,
        }
    }
}

/// The entry of a project and a session in a listing.
pub open spec fn summary_of(p: ProjectView, s: SessionView) -> SummaryView {
    SummaryView {
        project_id: p.id,
        name: p.name,
        status: p.status,
        updated_at: p.updated_at,
        session_id: s.session_id,
        stage: s.stage,
    }
}

/// Each project that has a session, with the first such session, in the
/// order of the projects.
pub open spec fn joined(projects: Seq<ProjectView>, sessions: Seq<SessionView>) -> Seq<SummaryView>
    decreases projects.len(),
{
    if projects.len() == 0 {
        Seq::empty()
    } else {
        let head = joined(projects.drop_last(), sessions);
        let at = first_owned(sessions, projects.last().id);
        if at < sessions.len() {
            head.push(summary_of(projects.last(), sessions[at]))
        } else {
            head
        }
    }
}

impl Ranked for SummaryView {
    /// An entry comes before another where it was updated later.
    open spec fn before(&self, other: &Self) -> bool {
        text_lt(other.updated_at, self.updated_at)
    }
}

/// The listing of a store: the joined entries, the one updated last first,
/// entries with the same time of update in the order of their projects.
pub open spec fn listing(s: StoreView) -> Seq<SummaryView> {
    sort_stable(joined(s.projects, s.sessions))
}

/// No entry of a listing was updated later than one in front of it, and
/// the listing holds the joined entries, each as often as they do.
pub proof fn lemma_listing_is_latest_first(s: StoreView)
    ensures
        forall|i: int, j: int|
            #![trigger listing(s)[i], listing(s)[j]]
            0 <= i < j < listing(s).len() ==> !text_lt(
                listing(s)[i].updated_at,
                listing(s)[j].updated_at,
            ),
        listing(s).to_multiset() == joined(s.projects, s.sessions).to_multiset(),
        listing(s).len() == joined(s.projects, s.sessions).len(),
{
    assert(is_ranking::<SummaryView>()) by {
        assert forall|a: SummaryView, b: SummaryView| #[trigger] a.before(&b) implies !b.before(
            &a,
        ) by {
            lemma_text_lt_asymmetric(b.updated_at, a.updated_at);
        }
        assert forall|a: SummaryView, b: SummaryView, c: SummaryView|
            #![trigger c.before(&b), b.before(&a)]
            !c.before(&b) && !b.before(&a) implies !c.before(&a) by {
            lemma_text_not_lt_transitive(c.updated_at, b.updated_at, a.updated_at);
        }
    }
    lemma_sort_stable(joined(s.projects, s.sessions));
    let l = listing(s);
    assert forall|i: int, j: int| #![trigger l[i], l[j]] 0 <= i < j < l.len() implies !text_lt(
        l[i].updated_at,
        l[j].updated_at,
    ) by {
        assert(!l[j].before(&l[i]));
    }
}

impl CeladonService {
    /// Where a session and its project stand: both in brief, the whole
    /// conversation, and the last document, task run and deployment of
    /// the project, each the one that was stored last. Fails where a
    /// lookup fails.
    pub fn status(&self, session_id: &str) -> (r: AppResult<StatusReport>)
        ensures
            match lookup_refusal(self.state@, session_id@) {
                Some(e) => r matches Err(x) && x@ == e,
                None => r matches Ok(out) && out.project.id@ == project_of(
                    self.state@,
                    session_id@,
                ).id && out.project.name@ == project_of(self.state@, session_id@).name
                    && out.project.status@ == project_of(self.state@, session_id@).status
                    && out.session.session_id@ == session_of(self.state@, session_id@).session_id
                    && out.session.stage == session_of(self.state@, session_id@).stage
                    && out.session.context_snapshot@ == session_of(
                    self.state@,
                    session_id@,
                ).context_snapshot && views(out.conversation@) == conversation_of(
                    self.state@.conversation_turns,
                    session_id@,
                ) && shows_last_prd(out.latest_prd, self.state@.prd_versions, out.project.id@)
                    && shows_last_task(out.latest_task, self.state@.task_runs, out.project.id@)
                    && shows_last_deployment(
                    out.latest_deployment,
                    self.state@.deployment_runs,
                    out.project.id@,
                ),
            },
    {
        let at = match self.resolve(session_id) {
            Ok(at) => at,
            Err(e) => {
                return Err(e);
            },
        };
        let session = &self.state.sessions[at.0];
        let project = &self.state.projects[at.1];
        let pid = project.id.as_str();
        let latest_prd = match self.state.last_prd(pid) {
            Some(i) => {
                let v = &self.state.prd_versions[i];
                Some(
                    PrdBrief {
                        version: v.version,
                        diff_from_prev: match &v.diff_from_prev {
                            Some(d) => Some(d.clone()),
                            None => None,
                        },
                    },
                )
            },
            None => None,
        };
        let latest_task = match self.state.last_task(pid) {
            Some(i) => {
                let t = &self.state.task_runs[i];
                Some(TaskBrief { task_id: t.task_id.clone(), run_status: t.run_status.clone() })
            },
            None => None,
        };
        let latest_deployment = match self.state.last_deployment(pid) {
            Some(i) => {
                let d = &self.state.deployment_runs[i];
                Some(
                    DeploymentBrief {
                        deploy_id: d.deploy_id.clone(),
                        env: d.env.clone(),
                        version: d.version.clone(),
                        result: d.result.clone(),
                    },
                )
            },
            None => None,
        };
        let places = self.state.turn_places(session_id);
        let mut conversation: Vec<TurnSummary> = Vec::new();
        let mut i: usize = 0;
        while i < places.len()
            invariant
                i <= places.len(),
                places@.len() == turns_of(self.state@.conversation_turns, session_id@).len(),
                forall|k: int|
                    0 <= k < places@.len() ==> places@[k] < self.state.conversation_turns.len()
                        && self.state.conversation_turns@[#[trigger] places@[k] as int]@
                        == turns_of(self.state@.conversation_turns, session_id@)[k],
                conversation@.len() == i,
                forall|k: int|
                    0 <= k < i ==> (#[trigger] conversation@[k])@ == conversation_of(
                        self.state@.conversation_turns,
                        session_id@,
                    )[k],
            decreases places.len() - i,
        {
            let t = &self.state.conversation_turns[places[i]];
            conversation.push(
                TurnSummary {
                    role: t.role.clone(),
                    content: t.content.clone(),
                    created_at: Some(t.created_at.clone()),
                },
            );
            i += 1;
        }
        assert(views(conversation@) =~= conversation_of(
            self.state@.conversation_turns,
            session_id@,
        ));
        Ok(
            StatusReport {
                project: ProjectBrief {
                    id: project.id.clone(),
                    name: project.name.clone(),
                    status: project.status.clone(),
                },
                session: SessionBrief {
                    session_id: session.session_id.clone(),
                    stage: session.stage,
                    context_snapshot: session.context_snapshot.clone(),
                },
                conversation,
                latest_prd,
                latest_task,
                latest_deployment,
            },
        )
    }

    /// Every project that has a session, with the first such session, the
    /// one updated last first.
    pub fn list_projects(&self) -> (r: AppResult<Vec<ProjectSummary>>)
        ensures
            r matches Ok(out) && views(out@) == listing(self.state@),
    {
        let ghost projects = self.state@.projects;
        let ghost sessions = self.state@.sessions;
        let mut out: Vec<ProjectSummary> = Vec::new();
        let mut i: usize = 0;
        assert(views(out@) =~= sort_stable(joined(projects.take(0), sessions)));
        while i < self.state.projects.len()
            invariant
                i <= self.state.projects.len(),
                projects == self.state@.projects,
                sessions == self.state@.sessions,
                views(out@) == sort_stable(joined(projects.take(i as int), sessions)),
            decreases self.state.projects.len() - i,
        {
            let p = &self.state.projects[i];
            proof {
                assert(projects.take(i as int + 1).drop_last() =~= projects.take(i as int));
                assert(projects.take(i as int + 1).last() == p@);
            }
            match self.state.first_session_of(p.id.as_str()) {
                Some(at) => {
                    let s = &self.state.sessions[at];
                    let entry = ProjectSummary {
                        project_id: p.id.clone(),
                        name: p.name.clone(),
                        status: p.status.clone(),
                        updated_at: p.updated_at.clone(),
                        session_id: s.session_id.clone(),
                        stage: s.stage,
                    };
                    assert(entry@ == summary_of(p@, sessions[at as int]));
                    let mut k: usize = out.len();
                    while k > 0 && less_than(out[k - 1].updated_at.as_str(), entry.updated_at.as_str())
                        invariant
                            k <= out.len(),
                            forall|j: int|
                                k <= j < out.len() ==> entry@.before(&#[trigger] views(out@)[j]),
                        decreases k,
                    {
                        k -= 1;
                    }
                    proof {
                        lemma_insert_stable_at(views(out@), entry@, k as int);
                    }
                    let ghost before = views(out@);
                    out.insert(k, entry);
                    assert(views(out@) =~= before.insert(k as int, entry@));
                    proof {
                        let head = joined(projects.take(i as int), sessions);
                        assert(joined(projects.take(i as int + 1), sessions) == head.push(entry@));
                        assert(head.push(entry@).drop_last() =~= head);
                        assert(head.push(entry@).last() == entry@);
                    }
                },
                None => {
                    assert(joined(projects.take(i as int + 1), sessions) == joined(
                        projects.take(i as int),
                        sessions,
                    ));
                },
            }
            i += 1;
        }
        assert(projects.take(i as int) =~= projects);
        Ok(out)
    }
}

} // verus!
