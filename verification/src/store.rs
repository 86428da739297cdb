//! The steps that change a store, each with its effect on the view.

use vstd::prelude::*;
use vstd::string::*;
use crate::common::{ErrorView, ServiceError};
use crate::models::{
    has_key, position, upsert, ConversationTurn, DeploymentView, IdeaEvent,
    IdeaEventView, PrdView, Project, ProjectView, Session, SessionView, Stage, StateStore,
    StoreView, TaskView, TurnView,
};
use crate::text::same;

verus! {

/// A record that belongs to a project.
pub trait Owned {
    /// The identifier of the project that this record belongs to.
    spec fn owner(&self) -> Seq<char>;
}

impl Owned for PrdView {
    open spec fn owner(&self) -> Seq<char> {
        self.project_id
    }
}

impl Owned for TaskView {
    open spec fn owner(&self) -> Seq<char> {
        self.project_id
    }
}

impl Owned for DeploymentView {
    open spec fn owner(&self) -> Seq<char> {
        self.project_id
    }
}

impl Owned for SessionView {
    open spec fn owner(&self) -> Seq<char> {
        self.project_id
    }
}

/// The place of the last record of `s` that belongs to project `pid`, or
/// -1 where there is none.
pub open spec fn last_owned<T: Owned>(s: Seq<T>, pid: Seq<char>) -> int
    decreases s.len(),
{
    if s.len() == 0 {
        -1
    } else if s.last().owner() == pid {
        s.len() - 1
    } else {
        last_owned(s.drop_last(), pid)
    }
}

/// The place of the first record of `s` that belongs to project `pid`, or
/// the length of `s` where there is none.
pub open spec fn first_owned<T: Owned>(s: Seq<T>, pid: Seq<char>) -> int
    decreases s.len(),
{
    if s.len() == 0 {
        0
    } else if s[0].owner() == pid {
        0
    } else {
        1 + first_owned(s.drop_first(), pid)
    }
}

/// `last_owned` is characterised by the last match.
pub proof fn lemma_last_owned<T: Owned>(s: Seq<T>, pid: Seq<char>, i: int)
    requires
        -1 <= i < s.len(),
        forall|j: int| i < j < s.len() ==> (#[trigger] s[j]).owner() != pid,
        i == -1 || s[i].owner() == pid,
    ensures
        last_owned(s, pid) == i,
    decreases s.len(),
{
    if s.len() > 0 && i < s.len() - 1 {
        let t = s.drop_last();
        assert forall|j: int| i < j < t.len() implies (#[trigger] t[j]).owner() != pid by {
            assert(t[j] == s[j]);
        }
        lemma_last_owned(t, pid, i);
    }
}

/// `first_owned` is characterised by the first match.
pub proof fn lemma_first_owned<T: Owned>(s: Seq<T>, pid: Seq<char>, i: int)
    requires
        0 <= i <= s.len(),
        forall|j: int| 0 <= j < i ==> (#[trigger] s[j]).owner() != pid,
        i == s.len() || s[i].owner() == pid,
    ensures
        first_owned(s, pid) == i,
    decreases i,
{
    if i > 0 {
        let t = s.drop_first();
        assert forall|j: int| 0 <= j < i - 1 implies (#[trigger] t[j]).owner() != pid by {
            assert(t[j] == s[j + 1]);
        }
        lemma_first_owned(t, pid, i - 1);
    }
}

/// The turns of session `sid`, in order.
pub open spec fn turns_of(turns: Seq<TurnView>, sid: Seq<char>) -> Seq<TurnView>
    decreases turns.len(),
{
    if turns.len() == 0 {
        Seq::empty()
    } else if turns.last().session_id == sid {
        turns_of(turns.drop_last(), sid).push(turns.last())
    } else {
        turns_of(turns.drop_last(), sid)
    }
}

/// The highest version among the documents of project `pid`; 0 where it
/// has none.
pub open spec fn max_version(prds: Seq<PrdView>, pid: Seq<char>) -> nat
    decreases prds.len(),
{
    if prds.len() == 0 {
        0
    } else {
        let rest = max_version(prds.drop_last(), pid);
        if prds.last().project_id == pid && prds.last().version > rest {
            prds.last().version
        } else {
            rest
        }
    }
}

/// How many documents project `pid` has.
pub open spec fn count_versions(prds: Seq<PrdView>, pid: Seq<char>) -> nat
    decreases prds.len(),
{
    if prds.len() == 0 {
        0
    } else if prds.last().project_id == pid {
        count_versions(prds.drop_last(), pid) + 1
    } else {
        count_versions(prds.drop_last(), pid)
    }
}

impl StoreView {
    /// This store with the last-update time of project `pid` set to `now`;
    /// unchanged where there is no such project.
    pub open spec fn touch(self, pid: Seq<char>, now: Seq<char>) -> StoreView {
        if has_key(self.projects, pid) {
            let at = position(self.projects, pid);
            StoreView {
                projects: self.projects.update(
                    at,
                    ProjectView { updated_at: now, ..self.projects[at] },
                ),
                ..self
            }
        } else {
            self
        }
    }

    /// This store with one more conversation turn.
    pub open spec fn with_turn(
        self,
        sid: Seq<char>,
        role: Seq<char>,
        content: Seq<char>,
        now: Seq<char>,
    ) -> StoreView {
        StoreView {
            conversation_turns: self.conversation_turns.push(
                TurnView { session_id: sid, role, content, created_at: now },
            ),
            ..self
        }
    }

    /// This store with one more record of the older shape.
    pub open spec fn with_idea(
        self,
        sid: Seq<char>,
        text: Seq<char>,
        event_id: Seq<char>,
        now: Seq<char>,
    ) -> StoreView {
        StoreView {
            idea_events: self.idea_events.push(
                IdeaEventView { event_id, session_id: sid, user_input: text, created_at: now },
            ),
            ..self
        }
    }

    /// This store with the stage and the snapshot of session `sid` set;
    /// unchanged where there is no such session.
    pub open spec fn with_session_state(
        self,
        sid: Seq<char>,
        stage: Stage,
        snapshot: Seq<char>,
    ) -> StoreView {
        if has_key(self.sessions, sid) {
            let at = position(self.sessions, sid);
            StoreView {
                sessions: self.sessions.update(
                    at,
                    SessionView { stage, context_snapshot: snapshot, ..self.sessions[at] },
                ),
                ..self
            }
        } else {
            self
        }
    }
}

impl StateStore {
    /// Sets the last-update time of a project, if the store has it.
    pub fn touch_project(&mut self, project_id: &str, now: String)
        ensures
            final(self)@ == old(self)@.touch(project_id@, now@),
    {
        match self.find_project(project_id) {
            Some(at) => {
                let p = &self.projects[at];
                let touched = Project {
                    id: p.id.clone(),
                    name: p.name.clone(),
                    status: p.status.clone(),
                    created_at: p.created_at.clone(),
                    updated_at: now,
                };
                self.projects.set(at, touched);
                assert(final(self)@.projects =~= old(self)@.touch(project_id@, now@).projects);
            },
            None => {},
        }
    }

    /// Appends a conversation turn to a session of this store.
    pub fn append_conversation_turn(
        &mut self,
        session_id: &str,
        role: &str,
        content: &str,
        now: String,
    ) -> (r: Result<(), ServiceError>)
        ensures
            has_key(old(self)@.sessions, session_id@) ==> r is Ok && final(self)@ == old(
                self,
            )@.with_turn(session_id@, role@, content@, now@),
            !has_key(old(self)@.sessions, session_id@) ==> (r matches Err(e) && e@
                == ErrorView::SessionNotFound(session_id@)) && final(self)@ == old(self)@,
    {
        if self.find_session(session_id).is_none() {
            return Err(ServiceError::SessionNotFound(String::from_str(session_id)));
        }
        self.conversation_turns.push(
            ConversationTurn {
                session_id: String::from_str(session_id),
                role: String::from_str(role),
                content: String::from_str(content),
                created_at: now,
            },
        );
        assert(final(self)@.conversation_turns =~= old(self)@.with_turn(
            session_id@,
            role@,
            content@,
            now@,
        ).conversation_turns);
        Ok(())
    }

    /// Appends a record of the older shape to a session of this store.
    pub fn append_idea_event(
        &mut self,
        session_id: &str,
        text: String,
        event_id: String,
        now: String,
    ) -> (r: Result<(), ServiceError>)
        ensures
            has_key(old(self)@.sessions, session_id@) ==> r is Ok && final(self)@ == old(
                self,
            )@.with_idea(session_id@, text@, event_id@, now@),
            !has_key(old(self)@.sessions, session_id@) ==> (r matches Err(e) && e@
                == ErrorView::SessionNotFound(session_id@)) && final(self)@ == old(self)@,
    {
        if self.find_session(session_id).is_none() {
            return Err(ServiceError::SessionNotFound(String::from_str(session_id)));
        }
        self.idea_events.push(
            IdeaEvent {
                event_id,
                session_id: String::from_str(session_id),
                user_input: text,
                created_at: now,
            },
        );
        assert(final(self)@.idea_events =~= old(self)@.with_idea(
            session_id@,
            text@,
            event_id@,
            now@,
        ).idea_events);
        Ok(())
    }

    /// Sets the stage and the snapshot of a session, if the store has it.
    pub fn set_session_state(&mut self, session_id: &str, stage: Stage, snapshot: String)
        ensures
            final(self)@ == old(self)@.with_session_state(session_id@, stage, snapshot@),
    {
        match self.find_session(session_id) {
            Some(at) => {
                let s = &self.sessions[at];
                let next = Session {
                    session_id: s.session_id.clone(),
                    project_id: s.project_id.clone(),
                    stage,
                    context_snapshot: snapshot,
                };
                self.sessions.set(at, next);
                assert(final(self)@.sessions =~= old(self)@.with_session_state(
                    session_id@,
                    stage,
                    snapshot@,
                ).sessions);
            },
            None => {},
        }
    }

    /// Puts a project into the store, in the place of the one with its
    /// identifier where there is one.
    pub fn insert_project(&mut self, project: Project)
        ensures
            final(self)@ == (StoreView {
                projects: upsert(old(self)@.projects, project@),
                ..old(self)@
            }),
    {
        match self.find_project(project.id.as_str()) {
            Some(at) => {
                self.projects.set(at, project);
            },
            None => {
                self.projects.push(project);
            },
        }
        assert(final(self)@.projects =~= upsert(old(self)@.projects, project@));
    }

    /// Puts a session into the store, in the place of the one with its
    /// identifier where there is one.
    pub fn insert_session(&mut self, session: Session)
        ensures
            final(self)@ == (StoreView {
                sessions: upsert(old(self)@.sessions, session@),
                ..old(self)@
            }),
    {
        match self.find_session(session.session_id.as_str()) {
            Some(at) => {
                self.sessions.set(at, session);
            },
            None => {
                self.sessions.push(session);
            },
        }
        assert(final(self)@.sessions =~= upsert(old(self)@.sessions, session@));
    }

    /// The places of the turns of a session, in order.
    pub fn turn_places(&self, session_id: &str) -> (out: Vec<usize>)
        ensures
            out@.len() == turns_of(self@.conversation_turns, session_id@).len(),
            forall|k: int|
                0 <= k < out@.len() ==> out@[k] < self.conversation_turns.len()
                    && self.conversation_turns@[#[trigger] out@[k] as int]@ == turns_of(
                    self@.conversation_turns,
                    session_id@,
                )[k],
    {
        let ghost all = self@.conversation_turns;
        let mut out: Vec<usize> = Vec::new();
        let mut i: usize = 0;
        while i < self.conversation_turns.len()
            invariant
                i <= self.conversation_turns.len(),
                all == self@.conversation_turns,
                out@.len() == turns_of(all.take(i as int), session_id@).len(),
                forall|k: int|
                    0 <= k < out@.len() ==> out@[k] < i && self.conversation_turns@[#[trigger] out@[k] as int]@
                        == turns_of(all.take(i as int), session_id@)[k],
            decreases self.conversation_turns.len() - i,
        {
            proof {
                assert(all.take(i as int + 1).drop_last() =~= all.take(i as int));
                assert(all.take(i as int + 1).last() == self.conversation_turns@[i as int]@);
            }
            if same(self.conversation_turns[i].session_id.as_str(), session_id) {
                out.push(i);
            }
            i += 1;
        }
        assert(all.take(i as int) =~= all);
        out
    }

    /// The highest version among the documents of a project, 0 where it has
    /// none.
    pub fn highest_version(&self, project_id: &str) -> (v: u32)
        ensures
            v == max_version(self@.prd_versions, project_id@),
    {
        let ghost all = self@.prd_versions;
        let mut v: u32 = 0;
        let mut i: usize = 0;
        while i < self.prd_versions.len()
            invariant
                i <= self.prd_versions.len(),
                all == self@.prd_versions,
                v == max_version(all.take(i as int), project_id@),
            decreases self.prd_versions.len() - i,
        {
            proof {
                assert(all.take(i as int + 1).drop_last() =~= all.take(i as int));
                assert(all.take(i as int + 1).last() == self.prd_versions@[i as int]@);
            }
            if same(self.prd_versions[i].project_id.as_str(), project_id)
                && self.prd_versions[i].version > v {
                v = self.prd_versions[i].version;
            }
            i += 1;
        }
        assert(all.take(i as int) =~= all);
        v
    }

    /// Whether a project has a document.
    pub fn has_version(&self, project_id: &str) -> (b: bool)
        ensures
            b == (last_owned(self@.prd_versions, project_id@) >= 0),
    {
        self.last_prd(project_id).is_some()
    }

    /// The place of the last document of a project.
    pub fn last_prd(&self, project_id: &str) -> (r: Option<usize>)
        ensures
            match r {
                Some(i) => i < self.prd_versions.len() && i == last_owned(
                    self@.prd_versions,
                    project_id@,
                ),
                None => last_owned(self@.prd_versions, project_id@) == -1,
            },
    {
        let mut i: usize = self.prd_versions.len();
        while i > 0
            invariant
                i <= self.prd_versions.len(),
                forall|j: int|
                    i <= j < self.prd_versions.len() ==> (#[trigger] self@.prd_versions[j]).owner()
                        != project_id@,
            decreases i,
        {
            i -= 1;
            if same(self.prd_versions[i].project_id.as_str(), project_id) {
                proof {
                    lemma_last_owned(self@.prd_versions, project_id@, i as int);
                }
                return Some(i);
            }
        }
        proof {
            lemma_last_owned(self@.prd_versions, project_id@, -1);
        }
        None
    }

    /// The place of the last task run of a project.
    pub fn last_task(&self, project_id: &str) -> (r: Option<usize>)
        ensures
            match r {
                Some(i) => i < self.task_runs.len() && i == last_owned(
                    self@.task_runs,
                    project_id@,
                ),
                None => last_owned(self@.task_runs, project_id@) == -1,
            },
    {
        let mut i: usize = self.task_runs.len();
        while i > 0
            invariant
                i <= self.task_runs.len(),
                forall|j: int|
                    i <= j < self.task_runs.len() ==> (#[trigger] self@.task_runs[j]).owner()
                        != project_id@,
            decreases i,
        {
            i -= 1;
            if same(self.task_runs[i].project_id.as_str(), project_id) {
                proof {
                    lemma_last_owned(self@.task_runs, project_id@, i as int);
                }
                return Some(i);
            }
        }
        proof {
            lemma_last_owned(self@.task_runs, project_id@, -1);
        }
        None
    }

    /// The place of the last deployment of a project.
    pub fn last_deployment(&self, project_id: &str) -> (r: Option<usize>)
        ensures
            match r {
                Some(i) => i < self.deployment_runs.len() && i == last_owned(
                    self@.deployment_runs,
                    project_id@,
                ),
                None => last_owned(self@.deployment_runs, project_id@) == -1,
            },
    {
        let mut i: usize = self.deployment_runs.len();
        while i > 0
            invariant
                i <= self.deployment_runs.len(),
                forall|j: int|
                    i <= j < self.deployment_runs.len() ==> (
                    #[trigger] self@.deployment_runs[j]).owner() != project_id@,
            decreases i,
        {
            i -= 1;
            if same(self.deployment_runs[i].project_id.as_str(), project_id) {
                proof {
                    lemma_last_owned(self@.deployment_runs, project_id@, i as int);
                }
                return Some(i);
            }
        }
        proof {
            lemma_last_owned(self@.deployment_runs, project_id@, -1);
        }
        None
    }

    /// The place of the first session of a project.
    pub fn first_session_of(&self, project_id: &str) -> (r: Option<usize>)
        ensures
            match r {
                Some(i) => i < self.sessions.len() && i == first_owned(
                    self@.sessions,
                    project_id@,
                ),
                None => first_owned(self@.sessions, project_id@) == self.sessions.len(),
            },
    {
        let mut i: usize = 0;
        while i < self.sessions.len()
            invariant
                i <= self.sessions.len(),
                forall|j: int| 0 <= j < i ==> (#[trigger] self@.sessions[j]).owner() != project_id@,
            decreases self.sessions.len() - i,
        {
            if same(self.sessions[i].project_id.as_str(), project_id) {
                proof {
                    lemma_first_owned(self@.sessions, project_id@, i as int);
                }
                return Some(i);
            }
            i += 1;
        }
        proof {
            lemma_first_owned(self@.sessions, project_id@, i as int);
        }
        None
    }
}

} // verus!
