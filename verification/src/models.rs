//! The entities of a tenant's state and their mathematical views.
//!
//! Each entity is viewed as a record of character sequences. A
//! [`StateStore`] is viewed as a [`StoreView`]: one sequence per kind of
//! entity, in insertion order. Projects and sessions are found by their
//! identifier; a store is well formed when no identifier occurs twice.

use vstd::prelude::*;
use vstd::string::*;
use crate::text::same;

verus! {

/// The lifecycle position of a session.
#[derive(Debug, Clone, Copy, PartialEq, Eq, Structural)]
pub enum Stage {
    IdeaCollecting,
    Clarifying,
    PrdConfirmed,
    Developing,
    Testing,
    Deploying,
    Delivered,
}

impl Default for Stage {
    fn default() -> (s: Self)
        ensures
            s == Stage::IdeaCollecting,
    {
        Stage::IdeaCollecting
    }
}

impl Stage {
    /// The upper-case label under which a stage is shown and stored.
    pub open spec fn spec_label(self) -> Seq<char> {
        match self {
            Stage::IdeaCollecting => "IDEA_COLLECTING"@,
            Stage::Clarifying => "CLARIFYING"@,
            Stage::PrdConfirmed => "PRD_CONFIRMED"@,
            Stage::Developing => "DEVELOPING"@,
            Stage::Testing => "TESTING"@,
            Stage::Deploying => "DEPLOYING"@,
            Stage::Delivered => "DELIVERED"@,
        }
    }

    /// The upper-case label under which a stage is shown and stored.
    pub fn label(&self) -> (out: String)
        ensures
            out@ == self.spec_label(),
    {
        match self {
            Stage::IdeaCollecting => String::from_str("IDEA_COLLECTING"),
            Stage::Clarifying => String::from_str("CLARIFYING"),
            Stage::PrdConfirmed => String::from_str("PRD_CONFIRMED"),
            Stage::Developing => String::from_str("DEVELOPING"),
            Stage::Testing => String::from_str("TESTING"),
            Stage::Deploying => String::from_str("DEPLOYING"),
            Stage::Delivered => String::from_str("DELIVERED"),
        }
    }

    /// The place of a stage in the fixed order of the lifecycle.
    pub open spec fn spec_rank(self) -> nat {
        match self {
            Stage::IdeaCollecting => 0,
            Stage::Clarifying => 1,
            Stage::PrdConfirmed => 2,
            Stage::Developing => 3,
            Stage::Testing => 4,
            Stage::Deploying => 5,
            Stage::Delivered => 6,
        }
    }

    /// The place of a stage in the fixed order of the lifecycle.
    pub fn rank(&self) -> (r: u8)
        ensures
            r == self.spec_rank(),
    {
        match self {
            Stage::IdeaCollecting => 0,
            Stage::Clarifying => 1,
            Stage::PrdConfirmed => 2,
            Stage::Developing => 3,
            Stage::Testing => 4,
            Stage::Deploying => 5,
            Stage::Delivered => 6,
        }
    }
}

/// The view of an optional string.
pub open spec fn opt_text(o: Option<String>) -> Option<Seq<char>> {
    match o {
        Some(s) => Some(s@),
        None => None,
    }
}

/// A view type whose values are found by an identifier.
pub trait Keyed {
    /// The identifier of this value.
    spec fn key(&self) -> Seq<char>;
}

#[derive(Debug, Clone)]
pub struct Project {
    pub id: String,
    pub name: String,
    pub status: String,
    pub created_at: String,
    pub updated_at: String,
}

pub ghost struct ProjectView {
    pub id: Seq<char>,
    pub name: Seq<char>,
    pub status: Seq<char>,
    pub created_at: Seq<char>,
    pub updated_at: Seq<char>,
}

impl View for Project {
    type V = ProjectView;

    open spec fn view(&self) -> ProjectView {
        ProjectView {
            id: self.id@,
            name: self.name@,
            status: self.status@,
            created_at: self.created_at@,
            updated_at: self.updated_at@,
        }
    }
}

impl Keyed for ProjectView {
    open spec fn key(&self) -> Seq<char> {
        self.id
    }
}

#[derive(Debug, Clone)]
pub struct Session {
    pub session_id: String,
    pub project_id: String,
    pub stage: Stage,
    pub context_snapshot: String,
}

pub ghost struct SessionView {
    pub session_id: Seq<char>,
    pub project_id: Seq<char>,
    pub stage: Stage,
    pub context_snapshot: Seq<char>,
}

impl View for Session {
    type V = SessionView;

    open spec fn view(&self) -> SessionView {
        SessionView {
            session_id: self.session_id@,
            project_id: self.project_id@,
            stage: self.stage,
            context_snapshot: self.context_snapshot@,
        }
    }
}

impl Keyed for SessionView {
    open spec fn key(&self) -> Seq<char> {
        self.session_id
    }
}

/// A record of the older shape, kept so that stores written before
/// conversation turns existed can still be read.
#[derive(Debug, Clone)]
pub struct IdeaEvent {
    pub event_id: String,
    pub session_id: String,
    pub user_input: String,
    pub created_at: String,
}

pub ghost struct IdeaEventView {
    pub event_id: Seq<char>,
    pub session_id: Seq<char>,
    pub user_input: Seq<char>,
    pub created_at: Seq<char>,
}

impl View for IdeaEvent {
    type V = IdeaEventView;

    open spec fn view(&self) -> IdeaEventView {
        IdeaEventView {
            event_id: self.event_id@,
            session_id: self.session_id@,
            user_input: self.user_input@,
            created_at: self.created_at@,
        }
    }
}

#[derive(Debug, Clone)]
pub struct ConversationTurn {
    pub session_id: String,
    /// `user` or `assistant`.
    pub role: String,
    pub content: String,
    pub created_at: String,
}

pub ghost struct TurnView {
    pub session_id: Seq<char>,
    pub role: Seq<char>,
    pub content: Seq<char>,
    pub created_at: Seq<char>,
}

impl View for ConversationTurn {
    type V = TurnView;

    open spec fn view(&self) -> TurnView {
        TurnView {
            session_id: self.session_id@,
            role: self.role@,
            content: self.content@,
            created_at: self.created_at@,
        }
    }
}

#[derive(Debug, Clone)]
pub struct PrdVersion {
    pub prd_id: String,
    pub project_id: String,
    pub version: u32,
    pub content: String,
    pub diff_from_prev: Option<String>,
}

pub ghost struct PrdView {
    pub prd_id: Seq<char>,
    pub project_id: Seq<char>,
    pub version: nat,
    pub content: Seq<char>,
    pub diff_from_prev: Option<Seq<char>>,
}

impl View for PrdVersion {
    type V = PrdView;

    open spec fn view(&self) -> PrdView {
        PrdView {
            prd_id: self.prd_id@,
            project_id: self.project_id@,
            version: self.version as nat,
            content: self.content@,
            diff_from_prev: opt_text(self.diff_from_prev),
        }
    }
}

#[derive(Debug, Clone)]
pub struct TaskRun {
    pub task_id: String,
    pub project_id: String,
    pub plan_json: String,
    pub run_status: String,
    pub logs: String,
}

pub ghost struct TaskView {
    pub task_id: Seq<char>,
    pub project_id: Seq<char>,
    pub plan_json: Seq<char>,
    pub run_status: Seq<char>,
    pub logs: Seq<char>,
}

impl View for TaskRun {
    type V = TaskView;

    open spec fn view(&self) -> TaskView {
        TaskView {
            task_id: self.task_id@,
            project_id: self.project_id@,
            plan_json: self.plan_json@,
            run_status: self.run_status@,
            logs: self.logs@,
        }
    }
}

#[derive(Debug, Clone)]
pub struct DeploymentRun {
    pub deploy_id: String,
    pub project_id: String,
    pub env: String,
    pub version: String,
    pub result: String,
    pub rollback_hint: String,
}

pub ghost struct DeploymentView {
    pub deploy_id: Seq<char>,
    pub project_id: Seq<char>,
    pub env: Seq<char>,
    pub version: Seq<char>,
    pub result: Seq<char>,
    pub rollback_hint: Seq<char>,
}

impl View for DeploymentRun {
    type V = DeploymentView;

    open spec fn view(&self) -> DeploymentView {
        DeploymentView {
            deploy_id: self.deploy_id@,
            project_id: self.project_id@,
            env: self.env@,
            version: self.version@,
            result: self.result@,
            rollback_hint: self.rollback_hint@,
        }
    }
}

/// The views of the items of `s`, in order.
pub open spec fn views<T: View>(s: Seq<T>) -> Seq<T::V> {
    Seq::new(s.len(), |i: int| s[i]@)
}

/// The place of the first item of `s` with identifier `k`, or the length of
/// `s` where there is none.
pub open spec fn position<T: Keyed>(s: Seq<T>, k: Seq<char>) -> int
    decreases s.len(),
{
    if s.len() == 0 {
        0
    } else if s[0].key() == k {
        0
    } else {
        1 + position(s.drop_first(), k)
    }
}

/// Whether an item of `s` has identifier `k`.
pub open spec fn has_key<T: Keyed>(s: Seq<T>, k: Seq<char>) -> bool {
    position(s, k) < s.len()
}

/// Whether no identifier occurs twice in `s`.
pub open spec fn distinct_keys<T: Keyed>(s: Seq<T>) -> bool {
    forall|i: int, j: int|
        0 <= i < s.len() && 0 <= j < s.len() && i != j ==> (#[trigger] s[i]).key() != (
        #[trigger] s[j]).key()
}

/// `s` with `x` in the place of the item that has its identifier, or at
/// the end where there is none.
pub open spec fn upsert<T: Keyed>(s: Seq<T>, x: T) -> Seq<T> {
    if has_key(s, x.key()) {
        s.update(position(s, x.key()), x)
    } else {
        s.push(x)
    }
}

/// `position` is characterised by the first match.
pub proof fn lemma_position<T: Keyed>(s: Seq<T>, k: Seq<char>, i: int)
    requires
        0 <= i <= s.len(),
        forall|j: int| 0 <= j < i ==> (#[trigger] s[j]).key() != k,
        i == s.len() || s[i].key() == k,
    ensures
        position(s, k) == i,
    decreases i,
{
    if i > 0 {
        let t = s.drop_first();
        assert forall|j: int| 0 <= j < i - 1 implies (#[trigger] t[j]).key() != k by {
            assert(t[j] == s[j + 1]);
        }
        lemma_position(t, k, i - 1);
    }
}

/// What `position` returns: a place within `s` or its length, the place of
/// a match, with no match before it.
pub proof fn lemma_position_spec<T: Keyed>(s: Seq<T>, k: Seq<char>)
    ensures
        0 <= position(s, k) <= s.len(),
        position(s, k) < s.len() ==> s[position(s, k)].key() == k,
        forall|j: int| 0 <= j < position(s, k) ==> (#[trigger] s[j]).key() != k,
    decreases s.len(),
{
    if s.len() > 0 && s[0].key() != k {
        let t = s.drop_first();
        lemma_position_spec(t, k);
        assert forall|j: int| 0 <= j < position(s, k) implies (#[trigger] s[j]).key() != k by {
            if j > 0 {
                assert(s[j] == t[j - 1]);
            }
        }
    }
}

/// Putting an item in by its identifier keeps identifiers distinct.
pub proof fn lemma_upsert_distinct<T: Keyed>(s: Seq<T>, x: T)
    requires
        distinct_keys(s),
    ensures
        distinct_keys(upsert(s, x)),
{
    lemma_position_spec(s, x.key());
    let r = upsert(s, x);
    let p = position(s, x.key());
    assert forall|i: int, j: int| 0 <= i < r.len() && 0 <= j < r.len() && i != j implies (
    #[trigger] r[i]).key() != (#[trigger] r[j]).key() by {
        if p < s.len() {
            if i != p && j != p {
                assert(r[i] == s[i] && r[j] == s[j]);
            } else if i == p {
                assert(r[j] == s[j]);
                assert(s[j].key() != s[p].key());
            } else {
                assert(r[i] == s[i]);
                assert(s[i].key() != s[p].key());
            }
        } else {
            if i < s.len() && j < s.len() {
                assert(r[i] == s[i] && r[j] == s[j]);
            } else if i < s.len() {
                assert(r[i] == s[i]);
            } else {
                assert(r[j] == s[j]);
            }
        }
    }
}

/// After an item was put in, the sequence has its identifier.
pub proof fn lemma_upsert_has_key<T: Keyed>(s: Seq<T>, x: T)
    ensures
        has_key(upsert(s, x), x.key()),
        upsert(s, x)[position(upsert(s, x), x.key())] == x,
{
    lemma_position_spec(s, x.key());
    let p = position(s, x.key());
    let r = upsert(s, x);
    assert forall|j: int| 0 <= j < p implies (#[trigger] r[j]).key() != x.key() by {
        assert(r[j] == s[j]);
    }
    lemma_position(r, x.key(), p);
}

/// Everything a tenant has: projects and sessions by identifier, and the
/// append-only records in insertion order.
#[derive(Debug, Clone)]
pub struct StateStore {
    pub projects: Vec<Project>,
    pub sessions: Vec<Session>,
    pub idea_events: Vec<IdeaEvent>,
    pub conversation_turns: Vec<ConversationTurn>,
    pub prd_versions: Vec<PrdVersion>,
    pub task_runs: Vec<TaskRun>,
    pub deployment_runs: Vec<DeploymentRun>,
}

pub ghost struct StoreView {
    pub projects: Seq<ProjectView>,
    pub sessions: Seq<SessionView>,
    pub idea_events: Seq<IdeaEventView>,
    pub conversation_turns: Seq<TurnView>,
    pub prd_versions: Seq<PrdView>,
    pub task_runs: Seq<TaskView>,
    pub deployment_runs: Seq<DeploymentView>,
}

impl View for StateStore {
    type V = StoreView;

    open spec fn view(&self) -> StoreView {
        StoreView {
            projects: views(self.projects@),
            sessions: views(self.sessions@),
            idea_events: views(self.idea_events@),
            conversation_turns: views(self.conversation_turns@),
            prd_versions: views(self.prd_versions@),
            task_runs: views(self.task_runs@),
            deployment_runs: views(self.deployment_runs@),
        }
    }
}

impl StoreView {
    /// The store that holds nothing.
    pub open spec fn empty() -> StoreView {
        StoreView {
            projects: Seq::empty(),
            sessions: Seq::empty(),
            idea_events: Seq::empty(),
            conversation_turns: Seq::empty(),
            prd_versions: Seq::empty(),
            task_runs: Seq::empty(),
            deployment_runs: Seq::empty(),
        }
    }

    /// No project identifier and no session identifier occurs twice.
    pub open spec fn wf(self) -> bool {
        distinct_keys(self.projects) && distinct_keys(self.sessions)
    }

    /// Every session belongs to a project of this store.
    pub open spec fn sessions_resolve(self) -> bool {
        forall|i: int|
            0 <= i < self.sessions.len() ==> has_key(
                self.projects,
                (#[trigger] self.sessions[i]).project_id,
            )
    }
}

impl Default for StateStore {
    fn default() -> (s: Self)
        ensures
            s@ == StoreView::empty(),
            s.wf(),
            s@.sessions_resolve(),
    {
        let s = StateStore {
            projects: Vec::new(),
            sessions: Vec::new(),
            idea_events: Vec::new(),
            conversation_turns: Vec::new(),
            prd_versions: Vec::new(),
            task_runs: Vec::new(),
            deployment_runs: Vec::new(),
        };
        assert(s@.projects =~= Seq::empty());
        assert(s@.sessions =~= Seq::empty());
        assert(s@.idea_events =~= Seq::empty());
        assert(s@.conversation_turns =~= Seq::empty());
        assert(s@.prd_versions =~= Seq::empty());
        assert(s@.task_runs =~= Seq::empty());
        assert(s@.deployment_runs =~= Seq::empty());
        s
    }
}

impl StateStore {
    /// No project identifier and no session identifier occurs twice.
    pub open spec fn wf(&self) -> bool {
        self@.wf()
    }

    /// The place of the session with identifier `id`, if there is one.
    pub fn find_session(&self, id: &str) -> (r: Option<usize>)
        ensures
            r is Some <==> has_key(self@.sessions, id@),
            r is Some ==> r->0 == position(self@.sessions, id@) && r->0 < self.sessions.len(),
    {
        let mut i: usize = 0;
        while i < self.sessions.len()
            invariant
                i <= self.sessions.len(),
                forall|j: int| 0 <= j < i ==> (#[trigger] self@.sessions[j]).key() != id@,
            decreases self.sessions.len() - i,
        {
            if same(self.sessions[i].session_id.as_str(), id) {
                proof {
                    lemma_position(self@.sessions, id@, i as int);
                }
                return Some(i);
            }
            i += 1;
        }
        proof {
            lemma_position(self@.sessions, id@, i as int);
        }
        None
    }

    /// The place of the project with identifier `id`, if there is one.
    pub fn find_project(&self, id: &str) -> (r: Option<usize>)
        ensures
            r is Some <==> has_key(self@.projects, id@),
            r is Some ==> r->0 == position(self@.projects, id@) && r->0 < self.projects.len(),
    {
        let mut i: usize = 0;
        while i < self.projects.len()
            invariant
                i <= self.projects.len(),
                forall|j: int| 0 <= j < i ==> (#[trigger] self@.projects[j]).key() != id@,
            decreases self.projects.len() - i,
        {
            if same(self.projects[i].id.as_str(), id) {
                proof {
                    lemma_position(self@.projects, id@, i as int);
                }
                return Some(i);
            }
            i += 1;
        }
        proof {
            lemma_position(self@.projects, id@, i as int);
        }
        None
    }
}

} // verus!
