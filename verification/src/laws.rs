//! What holds of every store that the operations produce.

use vstd::prelude::*;
use crate::models::{
    distinct_keys, has_key, lemma_position_spec, lemma_upsert_distinct, lemma_upsert_has_key,
    lemma_position, position, upsert, Keyed, PrdView, ProjectView, SessionView, Stage, StoreView,
};
use crate::service::{
    deployed, dev_recorded, idea_appended, migrated, next_prd, prd_generated, prd_refusal,
    project_of, session_of, started, IdeaTokens, RunStatus, StartTokens,
};
use crate::store::{count_versions, max_version};

verus! {

/// Whether the versions of each project count up from 1 in the order in
/// which its documents were stored.
pub open spec fn versions_dense(prds: Seq<PrdView>) -> bool {
    forall|i: int|
        0 <= i < prds.len() ==> (#[trigger] prds[i]).version == count_versions(
            prds.take(i + 1),
            prds[i].project_id,
        )
}

/// Whether project `pid` has a document with version `v`.
pub open spec fn has_version_number(prds: Seq<PrdView>, pid: Seq<char>, v: nat) -> bool {
    exists|i: int| 0 <= i < prds.len() && (#[trigger] prds[i]).project_id == pid && prds[i].version == v
}

proof fn lemma_dense_prefix(prds: Seq<PrdView>)
    requires
        versions_dense(prds),
        prds.len() > 0,
    ensures
        versions_dense(prds.drop_last()),
        prds.last().version == count_versions(prds, prds.last().project_id),
{
    let t = prds.drop_last();
    assert forall|i: int| 0 <= i < t.len() implies (#[trigger] t[i]).version == count_versions(
        t.take(i + 1),
        t[i].project_id,
    ) by {
        assert(t[i] == prds[i]);
        assert(t.take(i + 1) =~= prds.take(i + 1));
    }
    assert(prds.take(prds.len() as int) =~= prds);
    assert(prds.last() == prds[prds.len() - 1]);
}

/// Where the versions count up from 1, the highest version of a project
/// is the number of its documents.
pub proof fn lemma_highest_is_count(prds: Seq<PrdView>, pid: Seq<char>)
    requires
        versions_dense(prds),
    ensures
        max_version(prds, pid) == count_versions(prds, pid),
    decreases prds.len(),
{
    if prds.len() > 0 {
        lemma_dense_prefix(prds);
        lemma_highest_is_count(prds.drop_last(), pid);
    }
}

/// A document stored under the version after the highest keeps the
/// versions counting up from 1.
pub proof fn lemma_next_version_keeps_dense(prds: Seq<PrdView>, next: PrdView)
    requires
        versions_dense(prds),
        next.version == max_version(prds, next.project_id) + 1,
    ensures
        versions_dense(prds.push(next)),
        count_versions(prds.push(next), next.project_id) == count_versions(
            prds,
            next.project_id,
        ) + 1,
{
    let r = prds.push(next);
    lemma_highest_is_count(prds, next.project_id);
    assert(r.drop_last() =~= prds);
    assert forall|i: int| 0 <= i < r.len() implies (#[trigger] r[i]).version == count_versions(
        r.take(i + 1),
        r[i].project_id,
    ) by {
        if i < prds.len() {
            assert(r[i] == prds[i]);
            assert(r.take(i + 1) =~= prds.take(i + 1));
        } else {
            assert(r.take(i + 1) =~= r);
        }
    }
}

/// The versions of the documents of a project are the numbers from 1 to
/// the number of its documents, each of them and no other, where the
/// versions count up from 1.
pub proof fn lemma_versions_are_one_to_count(prds: Seq<PrdView>, pid: Seq<char>)
    requires
        versions_dense(prds),
    ensures
        forall|v: nat|
            (1 <= v <= count_versions(prds, pid)) <==> #[trigger] has_version_number(prds, pid, v),
    decreases prds.len(),
{
    if prds.len() == 0 {
        assert forall|v: nat| !#[trigger] has_version_number(prds, pid, v) by {}
    } else {
        let t = prds.drop_last();
        let x = prds.last();
        lemma_dense_prefix(prds);
        lemma_versions_are_one_to_count(t, pid);
        assert forall|v: nat| (1 <= v <= count_versions(prds, pid)) <==> #[trigger] has_version_number(
            prds,
            pid,
            v,
        ) by {
            if has_version_number(t, pid, v) {
                let i = choose|i: int|
                    0 <= i < t.len() && (#[trigger] t[i]).project_id == pid && t[i].version == v;
                assert(prds[i] == t[i]);
            }
            if has_version_number(prds, pid, v) {
                let i = choose|i: int|
                    0 <= i < prds.len() && (#[trigger] prds[i]).project_id == pid
                        && prds[i].version == v;
                if i < t.len() {
                    assert(t[i] == prds[i]);
                    assert(has_version_number(t, pid, v));
                }
            }
            if x.project_id == pid && v == count_versions(prds, pid) {
                assert(prds[prds.len() - 1] == x);
            }
        }
    }
}

/// Writing a document keeps the versions of every project counting up
/// from 1, and the project of the session has one document more. So after
/// N documents were written for a project, starting from a store without
/// documents, its versions are the numbers from 1 to N.
pub proof fn lemma_generate_prd_counts_up(
    s: StoreView,
    sid: Seq<char>,
    raw: Seq<char>,
    prd_id: Seq<char>,
    now: Seq<char>,
)
    requires
        versions_dense(s.prd_versions),
        prd_refusal(s, sid) is None,
    ensures
        versions_dense(prd_generated(s, sid, raw, prd_id, now).prd_versions),
        count_versions(
            prd_generated(s, sid, raw, prd_id, now).prd_versions,
            project_of(s, sid).id,
        ) == count_versions(s.prd_versions, project_of(s, sid).id) + 1,
        forall|v: nat|
            (1 <= v <= count_versions(s.prd_versions, project_of(s, sid).id) + 1)
                <==> #[trigger] has_version_number(
                prd_generated(s, sid, raw, prd_id, now).prd_versions,
                project_of(s, sid).id,
                v,
            ),
{
    let next = next_prd(s, sid, raw, prd_id);
    lemma_next_version_keeps_dense(s.prd_versions, next);
    assert(prd_generated(s, sid, raw, prd_id, now).prd_versions == s.prd_versions.push(next));
    lemma_versions_are_one_to_count(s.prd_versions.push(next), project_of(s, sid).id);
}

/// A store without documents has versions that count up from 1, and no
/// other operation touches the documents.
pub proof fn lemma_other_operations_keep_documents(
    s: StoreView,
    sid: Seq<char>,
    text: Seq<char>,
    name: Option<Seq<char>>,
    reply: Seq<char>,
    status: RunStatus,
    start: StartTokens,
    idea: IdeaTokens,
)
    ensures
        versions_dense(StoreView::empty().prd_versions),
        started(s, text, name, reply, start).prd_versions == s.prd_versions,
        idea_appended(s, sid, text, reply, idea).prd_versions == s.prd_versions,
        dev_recorded(s, sid, text, status, reply, text, text).prd_versions == s.prd_versions,
        deployed(s, sid, text, reply, text).prd_versions == s.prd_versions,
        migrated(s).prd_versions == s.prd_versions,
{
}

/// Starting a project keeps identifiers distinct and every session with a
/// project, and leaves the new session in the stage of clarification.
pub proof fn lemma_start_keeps_store_sound(
    s: StoreView,
    idea: Seq<char>,
    name: Option<Seq<char>>,
    reply: Seq<char>,
    k: StartTokens,
)
    requires
        s.wf(),
    ensures
        started(s, idea, name, reply, k).wf(),
        has_key(started(s, idea, name, reply, k).sessions, k.session_id@),
        has_key(started(s, idea, name, reply, k).projects, k.project_id@),
        started(s, idea, name, reply, k).sessions[position(
            started(s, idea, name, reply, k).sessions,
            k.session_id@,
        )].stage == Stage::Clarifying,
        started(s, idea, name, reply, k).conversation_turns.len() == s.conversation_turns.len()
            + 2,
{
    let project = ProjectView {
        id: k.project_id@,
        name: crate::service::project_name_for(idea, name),
        status: "ACTIVE"@,
        created_at: k.created_at@,
        updated_at: k.created_at@,
    };
    let session = SessionView {
        session_id: k.session_id@,
        project_id: k.project_id@,
        stage: Stage::Clarifying,
        context_snapshot: idea,
    };
    lemma_upsert_distinct(s.projects, project);
    lemma_upsert_distinct(s.sessions, session);
    lemma_upsert_has_key(s.projects, project);
    lemma_upsert_has_key(s.sessions, session);
    let ps = upsert(s.projects, project);
    let at = position(ps, k.project_id@);
    lemma_position_spec(ps, k.project_id@);
    let touched = ps.update(at, ProjectView { updated_at: k.touched_at@, ..ps[at] });
    assert forall|i: int, j: int|
        0 <= i < touched.len() && 0 <= j < touched.len() && i != j implies (
    #[trigger] touched[i]).key() != (#[trigger] touched[j]).key() by {
        assert(touched[i].key() == ps[i].key());
        assert(touched[j].key() == ps[j].key());
    }
    assert forall|j: int| 0 <= j < at implies (#[trigger] touched[j]).key() != k.project_id@ by {
        assert(touched[j] == ps[j]);
    }
    lemma_position(touched, k.project_id@, at);
}

/// Putting an item in the place of one with the same identifier changes
/// no place at which an identifier is found, and keeps identifiers
/// distinct.
pub proof fn lemma_update_same_key<T: Keyed>(s: Seq<T>, at: int, x: T)
    requires
        0 <= at < s.len(),
        x.key() == s[at].key(),
    ensures
        forall|k: Seq<char>| #[trigger] position(s.update(at, x), k) == position(s, k),
        distinct_keys(s) ==> distinct_keys(s.update(at, x)),
{
    let r = s.update(at, x);
    assert forall|k: Seq<char>| #[trigger] position(r, k) == position(s, k) by {
        lemma_position_spec(s, k);
        let p = position(s, k);
        assert forall|j: int| 0 <= j < p implies (#[trigger] r[j]).key() != k by {
            assert(r[j].key() == s[j].key());
        }
        if p < s.len() {
            assert(r[p].key() == s[p].key());
        }
        lemma_position(r, k, p);
    }
    if distinct_keys(s) {
        assert forall|i: int, j: int| 0 <= i < r.len() && 0 <= j < r.len() && i != j implies (
        #[trigger] r[i]).key() != (#[trigger] r[j]).key() by {
            assert(r[i].key() == s[i].key() && r[j].key() == s[j].key());
        }
    }
}

/// Touching a project keeps the store sound.
pub proof fn lemma_touch_keeps_sound(s: StoreView, pid: Seq<char>, now: Seq<char>)
    requires
        s.wf(),
        s.sessions_resolve(),
    ensures
        s.touch(pid, now).wf(),
        s.touch(pid, now).sessions_resolve(),
        s.touch(pid, now).sessions == s.sessions,
{
    if has_key(s.projects, pid) {
        lemma_position_spec(s.projects, pid);
        let at = position(s.projects, pid);
        lemma_update_same_key(
            s.projects,
            at,
            ProjectView { updated_at: now, ..s.projects[at] },
        );
        let r = s.touch(pid, now);
        assert forall|i: int| 0 <= i < r.sessions.len() implies has_key(
            r.projects,
            (#[trigger] r.sessions[i]).project_id,
        ) by {
            assert(has_key(s.projects, s.sessions[i].project_id));
        }
    }
}

/// Setting the stage and the snapshot of a session keeps the store sound,
/// and the session is then in that stage.
pub proof fn lemma_session_state_keeps_sound(
    s: StoreView,
    sid: Seq<char>,
    stage: Stage,
    snapshot: Seq<char>,
)
    requires
        s.wf(),
        s.sessions_resolve(),
    ensures
        s.with_session_state(sid, stage, snapshot).wf(),
        s.with_session_state(sid, stage, snapshot).sessions_resolve(),
        has_key(s.with_session_state(sid, stage, snapshot).sessions, sid) == has_key(
            s.sessions,
            sid,
        ),
        has_key(s.sessions, sid) ==> session_of(
            s.with_session_state(sid, stage, snapshot),
            sid,
        ).stage == stage && session_of(
            s.with_session_state(sid, stage, snapshot),
            sid,
        ).project_id == session_of(s, sid).project_id,
{
    if has_key(s.sessions, sid) {
        lemma_position_spec(s.sessions, sid);
        let at = position(s.sessions, sid);
        let next = SessionView { stage, context_snapshot: snapshot, ..s.sessions[at] };
        lemma_update_same_key(s.sessions, at, next);
        let r = s.with_session_state(sid, stage, snapshot);
        assert(position(r.sessions, sid) == at);
        assert forall|i: int| 0 <= i < r.sessions.len() implies has_key(
            r.projects,
            (#[trigger] r.sessions[i]).project_id,
        ) by {
            assert(has_key(s.projects, s.sessions[i].project_id));
            assert(r.sessions[i].project_id == s.sessions[i].project_id);
        }
    }
}

/// Every operation on a session keeps the store sound: no identifier
/// occurs twice and every session has its project. After it the session
/// is in the stage of the operation: clarification after an idea, a
/// confirmed document after a document was written, development or
/// testing after a run, delivered after a deployment.
pub proof fn lemma_operations_keep_store_sound(
    s: StoreView,
    sid: Seq<char>,
    text: Seq<char>,
    reply: Seq<char>,
    status: RunStatus,
    id: Seq<char>,
    now: Seq<char>,
    k: IdeaTokens,
)
    requires
        s.wf(),
        s.sessions_resolve(),
        has_key(s.sessions, sid),
    ensures
        idea_appended(s, sid, text, reply, k).wf() && idea_appended(
            s,
            sid,
            text,
            reply,
            k,
        ).sessions_resolve(),
        session_of(idea_appended(s, sid, text, reply, k), sid).stage == Stage::Clarifying,
        prd_generated(s, sid, text, id, now).wf() && prd_generated(
            s,
            sid,
            text,
            id,
            now,
        ).sessions_resolve(),
        session_of(prd_generated(s, sid, text, id, now), sid).stage == Stage::PrdConfirmed,
        dev_recorded(s, sid, text, status, reply, id, now).wf() && dev_recorded(
            s,
            sid,
            text,
            status,
            reply,
            id,
            now,
        ).sessions_resolve(),
        session_of(dev_recorded(s, sid, text, status, reply, id, now), sid).stage
            == status.stage(),
        deployed(s, sid, text, id, now).wf() && deployed(s, sid, text, id, now).sessions_resolve(),
        session_of(deployed(s, sid, text, id, now), sid).stage == Stage::Delivered,
        migrated(s).wf() && migrated(s).sessions_resolve(),
{
    let pid = project_of(s, sid).id;
    // A further idea.
    let a0 = s.with_turn(sid, "user"@, text, k.user_turn_at@).with_turn(
        sid,
        "assistant"@,
        reply,
        k.reply_turn_at@,
    ).with_idea(sid, text, k.event_id@, k.event_at@);
    lemma_session_state_keeps_sound(a0, sid, Stage::Clarifying, text);
    let a1 = a0.with_session_state(sid, Stage::Clarifying, text);
    lemma_touch_keeps_sound(a1, session_of(s, sid).project_id, k.touched_at@);
    // A document.
    let prd = next_prd(s, sid, text, id);
    let p0 = StoreView { prd_versions: s.prd_versions.push(prd), ..s };
    let snapshot = "PRD v"@ + crate::text::decimal(prd.version) + " ready"@;
    lemma_session_state_keeps_sound(p0, sid, Stage::PrdConfirmed, snapshot);
    lemma_touch_keeps_sound(p0.with_session_state(sid, Stage::PrdConfirmed, snapshot), pid, now);
    // A development run.
    let d0 = StoreView {
        task_runs: s.task_runs.push(
            crate::models::TaskView {
                task_id: id,
                project_id: pid,
                plan_json: reply,
                run_status: status.spec_label(),
                logs: status.spec_logs(),
            },
        ),
        ..s
    };
    lemma_session_state_keeps_sound(d0, sid, status.stage(), text);
    lemma_touch_keeps_sound(d0.with_session_state(sid, status.stage(), text), pid, now);
    // A deployment.
    let e0 = StoreView {
        deployment_runs: s.deployment_runs.push(
            crate::models::DeploymentView {
                deploy_id: id,
                project_id: pid,
                env: text,
                version: crate::service::deployed_version(s.prd_versions, pid),
                result: "SIMULATED_SUCCESS"@,
                rollback_hint: "redeploy previous stable tag for project "@ + pid,
            },
        ),
        ..s
    };
    lemma_session_state_keeps_sound(e0, sid, Stage::Delivered, "deployed to "@ + text);
    lemma_touch_keeps_sound(
        e0.with_session_state(sid, Stage::Delivered, "deployed to "@ + text),
        pid,
        now,
    );
}

/// Starting a project leaves every session with its project.
pub proof fn lemma_start_keeps_sessions_resolved(
    s: StoreView,
    idea: Seq<char>,
    name: Option<Seq<char>>,
    reply: Seq<char>,
    k: StartTokens,
)
    requires
        s.wf(),
        s.sessions_resolve(),
    ensures
        started(s, idea, name, reply, k).sessions_resolve(),
{
    let project = ProjectView {
        id: k.project_id@,
        name: crate::service::project_name_for(idea, name),
        status: "ACTIVE"@,
        created_at: k.created_at@,
        updated_at: k.created_at@,
    };
    let session = SessionView {
        session_id: k.session_id@,
        project_id: k.project_id@,
        stage: Stage::Clarifying,
        context_snapshot: idea,
    };
    let base = StoreView {
        projects: upsert(s.projects, project),
        sessions: upsert(s.sessions, session),
        ..s
    };
    lemma_upsert_distinct(s.projects, project);
    lemma_upsert_distinct(s.sessions, session);
    lemma_upsert_has_key(s.projects, project);
    lemma_position_spec(s.sessions, k.session_id@);
    assert forall|i: int| 0 <= i < base.sessions.len() implies has_key(
        base.projects,
        (#[trigger] base.sessions[i]).project_id,
    ) by {
        let x = base.sessions[i];
        if x != session {
            assert(x == s.sessions[i]);
            assert(has_key(s.projects, s.sessions[i].project_id));
            if x.project_id != project.id {
                crate::relay::lemma_upsert_others(s.projects, project, x.project_id);
            }
        }
    }
    let filled = base.with_turn(k.session_id@, "user"@, idea, k.user_turn_at@).with_idea(
        k.session_id@,
        idea,
        k.event_id@,
        k.event_at@,
    ).with_turn(k.session_id@, "assistant"@, reply, k.reply_turn_at@);
    lemma_touch_keeps_sound(filled, k.project_id@, k.touched_at@);
}

/// Whether `later` holds everything that `earlier` holds: the same
/// identifiers of projects and sessions, or more, and every record of
/// `earlier` at its place.
pub open spec fn grows_from(later: StoreView, earlier: StoreView) -> bool {
    &&& forall|k: Seq<char>| has_key(earlier.projects, k) ==> #[trigger] has_key(later.projects, k)
    &&& forall|k: Seq<char>| has_key(earlier.sessions, k) ==> #[trigger] has_key(later.sessions, k)
    &&& earlier.idea_events.is_prefix_of(later.idea_events)
    &&& earlier.conversation_turns.is_prefix_of(later.conversation_turns)
    &&& earlier.prd_versions.is_prefix_of(later.prd_versions)
    &&& earlier.task_runs.is_prefix_of(later.task_runs)
    &&& earlier.deployment_runs.is_prefix_of(later.deployment_runs)
}

proof fn lemma_touch_grows(s: StoreView, pid: Seq<char>, now: Seq<char>)
    ensures
        grows_from(s.touch(pid, now), s),
        has_key(s.projects, pid) ==> 0 <= position(s.projects, pid) < s.projects.len()
            && s.touch(pid, now).projects[position(s.projects, pid)] == (ProjectView {
            updated_at: now,
            ..s.projects[position(s.projects, pid)]
        }),
{
    if has_key(s.projects, pid) {
        lemma_position_spec(s.projects, pid);
        let at = position(s.projects, pid);
        lemma_update_same_key(
            s.projects,
            at,
            ProjectView { updated_at: now, ..s.projects[at] },
        );
    }
}

proof fn lemma_session_state_grows(s: StoreView, sid: Seq<char>, stage: Stage, snapshot: Seq<char>)
    ensures
        grows_from(s.with_session_state(sid, stage, snapshot), s),
{
    if has_key(s.sessions, sid) {
        lemma_position_spec(s.sessions, sid);
        let at = position(s.sessions, sid);
        lemma_update_same_key(
            s.sessions,
            at,
            SessionView { stage, context_snapshot: snapshot, ..s.sessions[at] },
        );
    }
}

/// No operation takes anything away: the store after it holds every
/// project, session and record of the store before. And every operation
/// on a session sets the time of the last update of its project.
pub proof fn lemma_store_only_grows(
    s: StoreView,
    sid: Seq<char>,
    text: Seq<char>,
    name: Option<Seq<char>>,
    reply: Seq<char>,
    status: RunStatus,
    id: Seq<char>,
    now: Seq<char>,
    start: StartTokens,
    idea: IdeaTokens,
)
    ensures
        grows_from(started(s, text, name, reply, start), s),
        grows_from(idea_appended(s, sid, text, reply, idea), s),
        grows_from(prd_generated(s, sid, text, id, now), s),
        grows_from(dev_recorded(s, sid, text, status, reply, id, now), s),
        grows_from(deployed(s, sid, text, id, now), s),
        crate::service::lookup_refusal(s, sid) is None ==> {
            let pid = project_of(s, sid).id;
            let at = position(s.projects, pid);
            &&& idea_appended(s, sid, text, reply, idea).projects[at].updated_at
                == idea.touched_at@
            &&& prd_generated(s, sid, text, id, now).projects[at].updated_at == now
            &&& dev_recorded(s, sid, text, status, reply, id, now).projects[at].updated_at == now
            &&& deployed(s, sid, text, id, now).projects[at].updated_at == now
        },
{
    let pid = project_of(s, sid).id;
    if crate::service::lookup_refusal(s, sid) is None {
        lemma_position_spec(s.projects, session_of(s, sid).project_id);
        assert(pid == session_of(s, sid).project_id);
    }
    // Starting a project.
    let project = ProjectView {
        id: start.project_id@,
        name: crate::service::project_name_for(text, name),
        status: "ACTIVE"@,
        created_at: start.created_at@,
        updated_at: start.created_at@,
    };
    let session = SessionView {
        session_id: start.session_id@,
        project_id: start.project_id@,
        stage: Stage::Clarifying,
        context_snapshot: text,
    };
    let b0 = StoreView {
        projects: upsert(s.projects, project),
        sessions: upsert(s.sessions, session),
        ..s
    };
    lemma_upsert_has_key(s.projects, project);
    lemma_upsert_has_key(s.sessions, session);
    assert forall|k: Seq<char>| has_key(s.projects, k) implies #[trigger] has_key(b0.projects, k) by {
        if k != project.id {
            crate::relay::lemma_upsert_others(s.projects, project, k);
        }
    }
    assert forall|k: Seq<char>| has_key(s.sessions, k) implies #[trigger] has_key(b0.sessions, k) by {
        if k != session.session_id {
            crate::relay::lemma_upsert_others(s.sessions, session, k);
        }
    }
    let b1 = b0.with_turn(start.session_id@, "user"@, text, start.user_turn_at@).with_idea(
        start.session_id@,
        text,
        start.event_id@,
        start.event_at@,
    ).with_turn(start.session_id@, "assistant"@, reply, start.reply_turn_at@);
    lemma_touch_grows(b1, start.project_id@, start.touched_at@);
    // A further idea.
    let a0 = s.with_turn(sid, "user"@, text, idea.user_turn_at@).with_turn(
        sid,
        "assistant"@,
        reply,
        idea.reply_turn_at@,
    ).with_idea(sid, text, idea.event_id@, idea.event_at@);
    lemma_session_state_grows(a0, sid, Stage::Clarifying, text);
    lemma_touch_grows(
        a0.with_session_state(sid, Stage::Clarifying, text),
        session_of(s, sid).project_id,
        idea.touched_at@,
    );
    // A document.
    let prd = next_prd(s, sid, text, id);
    let p0 = StoreView { prd_versions: s.prd_versions.push(prd), ..s };
    let snapshot = "PRD v"@ + crate::text::decimal(prd.version) + " ready"@;
    lemma_session_state_grows(p0, sid, Stage::PrdConfirmed, snapshot);
    lemma_touch_grows(p0.with_session_state(sid, Stage::PrdConfirmed, snapshot), pid, now);
    // A development run.
    let d0 = StoreView {
        task_runs: s.task_runs.push(
            crate::models::TaskView {
                task_id: id,
                project_id: pid,
                plan_json: reply,
                run_status: status.spec_label(),
                logs: status.spec_logs(),
            },
        ),
        ..s
    };
    lemma_session_state_grows(d0, sid, status.stage(), text);
    lemma_touch_grows(d0.with_session_state(sid, status.stage(), text), pid, now);
    // A deployment.
    let e0 = StoreView {
        deployment_runs: s.deployment_runs.push(
            crate::models::DeploymentView {
                deploy_id: id,
                project_id: pid,
                env: text,
                version: crate::service::deployed_version(s.prd_versions, pid),
                result: "SIMULATED_SUCCESS"@,
                rollback_hint: "redeploy previous stable tag for project "@ + pid,
            },
        ),
        ..s
    };
    lemma_session_state_grows(e0, sid, Stage::Delivered, "deployed to "@ + text);
    lemma_touch_grows(
        e0.with_session_state(sid, Stage::Delivered, "deployed to "@ + text),
        pid,
        now,
    );
}

} // verus!
