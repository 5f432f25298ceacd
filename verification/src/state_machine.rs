//! The replicated workflow state machine: the log entries it applies, the
//! snapshots it builds and installs, and the state it keeps.
use std::collections::BTreeMap;

use vstd::prelude::*;

use crate::command::{Request, RequestModel, Response};
use crate::ids::NodeId;
use crate::text::{concat_chars, string_of, u64_to_decimal};
use crate::workflow::{entries_insert, WorkflowModel, WorkflowSnapshot};

verus! {

broadcast use vstd::laws_cmp::group_laws_cmp;

/// Position of an entry in the Raft log: the leader that proposed it (its
/// term and node) and the entry's index.
#[derive(Clone, Copy, Debug, PartialEq, Eq, Structural)]
pub struct LogId {
    pub term: u64,
    pub node_id: NodeId,
    pub index: u64,
}

/// A cluster membership: the voter configurations (more than one during a
/// joint change) and the address of every node.
#[derive(Clone, Debug)]
pub struct Membership {
    pub configs: Vec<Vec<NodeId>>,
    pub nodes: Vec<(NodeId, String)>,
}

/// The mathematical value of a membership.
pub struct MembershipModel {
    pub configs: Seq<Seq<NodeId>>,
    pub nodes: Seq<(NodeId, Seq<char>)>,
}

impl View for Membership {
    type V = MembershipModel;

    open spec fn view(&self) -> MembershipModel {
        MembershipModel {
            configs: self.configs@.map_values(|c: Vec<NodeId>| c@),
            nodes: self.nodes@.map_values(|p: (NodeId, String)| (p.0, p.1@)),
        }
    }
}

impl Membership {
    /// The membership with no voters and no nodes.
    pub fn empty() -> (m: Membership)
        ensures
            m@.configs.len() == 0,
            m@.nodes.len() == 0,
    {
        Membership { configs: Vec::new(), nodes: Vec::new() }
    }

    /// A copy of this membership.
    pub fn duplicate(&self) -> (m: Membership)
        ensures
            m@ == self@,
    {
        let mut configs: Vec<Vec<NodeId>> = Vec::new();
        for i in 0..self.configs.len()
            invariant
                configs@.len() == i,
                forall|j: int| #![trigger configs@[j]] 0 <= j < i ==> configs@[j]@ == self.configs@[j]@,
        {
            let mut c: Vec<NodeId> = Vec::new();
            let n = self.configs[i].len();
            for k in 0..n
                invariant
                    i < self.configs@.len(),
                    n == self.configs@[i as int]@.len(),
                    c@ == self.configs@[i as int]@.take(k as int),
            {
                c.push(self.configs[i][k]);
            }
            assert(c@ =~= self.configs@[i as int]@);
            configs.push(c);
        }
        let mut nodes: Vec<(NodeId, String)> = Vec::new();
        for i in 0..self.nodes.len()
            invariant
                nodes@.len() == i,
                forall|j: int|
                    #![trigger nodes@[j]]
                    0 <= j < i ==> nodes@[j].0 == self.nodes@[j].0 && nodes@[j].1@
                        == self.nodes@[j].1@,
        {
            nodes.push((self.nodes[i].0, self.nodes[i].1.clone()));
        }
        let m = Membership { configs, nodes };
        assert(m@.configs =~= self@.configs);
        assert(m@.nodes =~= self@.nodes);
        m
    }
}

/// A membership with the log position that introduced it.
#[derive(Clone, Debug)]
pub struct StoredMembership {
    pub log_id: Option<LogId>,
    pub membership: Membership,
}

/// The mathematical value of a stored membership.
pub struct StoredMembershipModel {
    pub log_id: Option<LogId>,
    pub membership: MembershipModel,
}

impl View for StoredMembership {
    type V = StoredMembershipModel;

    open spec fn view(&self) -> StoredMembershipModel {
        StoredMembershipModel { log_id: self.log_id, membership: self.membership@ }
    }
}

impl StoredMembership {
    /// No membership recorded yet.
    pub fn initial() -> (m: StoredMembership)
        ensures
            m@.log_id is None,
            m@.membership.configs.len() == 0,
            m@.membership.nodes.len() == 0,
    {
        StoredMembership { log_id: None, membership: Membership::empty() }
    }

    /// A copy of this stored membership.
    pub fn duplicate(&self) -> (m: StoredMembership)
        ensures
            m@ == self@,
    {
        StoredMembership { log_id: self.log_id, membership: self.membership.duplicate() }
    }
}

/// What a log entry carries.
#[derive(Clone, Debug)]
pub enum EntryPayload {
    /// Nothing (a new leader's first entry).
    Blank,
    /// A workflow command.
    Normal(Request),
    /// A new cluster membership.
    Membership(Membership),
}

/// The mathematical value of an entry's payload.
pub enum PayloadModel {
    Blank,
    Normal(RequestModel),
    Membership(MembershipModel),
}

/// A Raft log entry.
#[derive(Clone, Debug)]
pub struct Entry {
    pub log_id: LogId,
    pub payload: EntryPayload,
}

/// The mathematical value of a log entry.
pub struct EntryModel {
    pub log_id: LogId,
    pub payload: PayloadModel,
}

impl View for Entry {
    type V = EntryModel;

    open spec fn view(&self) -> EntryModel {
        EntryModel {
            log_id: self.log_id,
            payload: match self.payload {
                EntryPayload::Blank => PayloadModel::Blank,
                EntryPayload::Normal(r) => PayloadModel::Normal(r@),
                EntryPayload::Membership(m) => PayloadModel::Membership(m@),
            },
        }
    }
}

/// Describes a snapshot: the last entry and membership it covers, and its
/// name.
#[derive(Clone, Debug)]
pub struct SnapshotMeta {
    pub last_log_id: Option<LogId>,
    pub last_membership: StoredMembership,
    pub snapshot_id: String,
}

/// The mathematical value of a snapshot description.
pub struct SnapshotMetaModel {
    pub last_log_id: Option<LogId>,
    pub last_membership: StoredMembershipModel,
    pub snapshot_id: Seq<char>,
}

impl View for SnapshotMeta {
    type V = SnapshotMetaModel;

    open spec fn view(&self) -> SnapshotMetaModel {
        SnapshotMetaModel {
            last_log_id: self.last_log_id,
            last_membership: self.last_membership@,
            snapshot_id: self.snapshot_id@,
        }
    }
}

impl SnapshotMeta {
    /// A copy of this description.
    pub fn duplicate(&self) -> (m: SnapshotMeta)
        ensures
            m@ == self@,
    {
        SnapshotMeta {
            last_log_id: self.last_log_id,
            last_membership: self.last_membership.duplicate(),
            snapshot_id: self.snapshot_id.clone(),
        }
    }
}

/// A snapshot: its description and the workflows it holds.
#[derive(Clone, Debug)]
pub struct Snapshot {
    pub meta: SnapshotMeta,
    pub data: BTreeMap<u128, WorkflowSnapshot>,
}

/// The models of the workflows of a map keyed by workflow UUID.
pub open spec fn workflows_model(m: Map<u128, WorkflowSnapshot>) -> Map<u128, WorkflowModel> {
    m.map_values(|w: WorkflowSnapshot| w@)
}

/// The mathematical value of a snapshot.
pub struct SnapshotModel {
    pub meta: SnapshotMetaModel,
    pub data: Map<u128, WorkflowModel>,
}

impl View for Snapshot {
    type V = SnapshotModel;

    open spec fn view(&self) -> SnapshotModel {
        SnapshotModel { meta: self.meta@, data: workflows_model(self.data@) }
    }
}

/// The state machine that Raft replicates: the workflows keyed by UUID,
/// the position of the last applied entry, the last membership, and the
/// last snapshot built or installed.
#[derive(Debug)]
pub struct StateMachine {
    pub last_applied_log: Option<LogId>,
    pub last_membership: StoredMembership,
    pub workflows: BTreeMap<u128, WorkflowSnapshot>,
    /// How many snapshots have been built.
    pub snapshot_idx: u64,
    pub current_snapshot: Option<Snapshot>,
}

/// The mathematical value of the state machine.
pub struct StateMachineModel {
    pub last_applied_log: Option<LogId>,
    pub last_membership: StoredMembershipModel,
    pub workflows: Map<u128, WorkflowModel>,
    pub snapshot_idx: u64,
    pub current_snapshot: Option<SnapshotModel>,
}

impl View for StateMachine {
    type V = StateMachineModel;

    open spec fn view(&self) -> StateMachineModel {
        StateMachineModel {
            last_applied_log: self.last_applied_log,
            last_membership: self.last_membership@,
            workflows: workflows_model(self.workflows@),
            snapshot_idx: self.snapshot_idx,
            current_snapshot: match self.current_snapshot {
                Some(s) => Some(s@),
                None => None,
            },
        }
    }
}

/// The workflows after a command, and the response to it.
///
/// Creating, transitioning and cancelling store the given snapshot
/// (creation under the snapshot's own identifier, the others under the
/// identifier the command names). Recording a task execution changes only
/// that task's execution in a workflow that exists, and nothing when the
/// workflow does not exist.
pub open spec fn apply_request(wfs: Map<u128, WorkflowModel>, req: RequestModel) -> (
    Map<u128, WorkflowModel>,
    Response,
) {
    match req {
        RequestModel::CreateWorkflow { workflow } => (
            wfs.insert(workflow.workflow_id.uuid, workflow),
            Response::WorkflowCreated { workflow_id: workflow.workflow_id },
        ),
        RequestModel::TransitionWorkflow { workflow_id, workflow } => (
            wfs.insert(workflow_id.uuid, workflow),
            Response::WorkflowTransitioned { workflow_id },
        ),
        RequestModel::UpdateTaskExecution { workflow_id, task_id, execution } => (
            if wfs.contains_key(workflow_id.uuid) {
                let w = wfs[workflow_id.uuid];
                wfs.insert(
                    workflow_id.uuid,
                    WorkflowModel { executions: entries_insert(w.executions, task_id, execution), ..w },
                )
            } else {
                wfs
            },
            Response::TaskExecutionUpdated { workflow_id, task_id },
        ),
        RequestModel::CancelWorkflow { workflow_id, workflow } => (
            wfs.insert(workflow_id.uuid, workflow),
            Response::WorkflowCancelled { workflow_id },
        ),
    }
}

/// The state after applying one entry, and the response to it. Every entry
/// becomes the last applied one; a membership entry becomes the last
/// membership, recorded at the entry's position.
pub open spec fn apply_entry(s: StateMachineModel, e: EntryModel) -> (StateMachineModel, Response) {
    let s1 = StateMachineModel { last_applied_log: Some(e.log_id), ..s };
    match e.payload {
        PayloadModel::Blank => (s1, Response::Empty),
        PayloadModel::Normal(req) => {
            let (wfs, resp) = apply_request(s.workflows, req);
            (StateMachineModel { workflows: wfs, ..s1 }, resp)
        },
        PayloadModel::Membership(m) => (
            StateMachineModel {
                last_membership: StoredMembershipModel { log_id: Some(e.log_id), membership: m },
                ..s1
            },
            Response::Empty,
        ),
    }
}

/// The state after applying entries in order, and the responses, one per
/// entry.
pub open spec fn apply_entries(s: StateMachineModel, es: Seq<EntryModel>) -> (
    StateMachineModel,
    Seq<Response>,
)
    decreases es.len(),
{
    if es.len() == 0 {
        (s, Seq::empty())
    } else {
        let (s1, rs) = apply_entries(s, es.drop_last());
        let (s2, r) = apply_entry(s1, es.last());
        (s2, rs.push(r))
    }
}

/// The name of the `idx`-th snapshot covering up to `last`:
/// `T<term>-N<node>-<index>-<idx>`, or `--<idx>` when no entry was applied.
pub open spec fn snapshot_name(last: Option<LogId>, idx: u64) -> Seq<char> {
    match last {
        Some(l) => seq!['T'] + crate::text::decimal(l.term as nat) + seq!['-', 'N']
            + crate::text::decimal(l.node_id as nat) + seq!['-'] + crate::text::decimal(
            l.index as nat,
        ) + seq!['-'] + crate::text::decimal(idx as nat),
        None => seq!['-', '-'] + crate::text::decimal(idx as nat),
    }
}

/// The snapshot that the `idx`-th build takes of state `s`.
pub open spec fn snapshot_of(s: StateMachineModel, idx: u64) -> SnapshotModel {
    SnapshotModel {
        meta: SnapshotMetaModel {
            last_log_id: s.last_applied_log,
            last_membership: s.last_membership,
            snapshot_id: snapshot_name(s.last_applied_log, idx),
        },
        data: s.workflows,
    }
}

/// The state after installing snapshot `snap` over state `s`.
pub open spec fn installed(s: StateMachineModel, snap: SnapshotModel) -> StateMachineModel {
    StateMachineModel {
        last_applied_log: snap.meta.last_log_id,
        last_membership: snap.meta.last_membership,
        workflows: snap.data,
        snapshot_idx: s.snapshot_idx,
        current_snapshot: Some(snap),
    }
}

/// The entry models of a sequence of entries.
pub open spec fn entries_model(es: Seq<Entry>) -> Seq<EntryModel> {
    es.map_values(|e: Entry| e@)
}

proof fn lemma_workflows_insert(m: Map<u128, WorkflowSnapshot>, k: u128, w: WorkflowSnapshot)
    ensures
        workflows_model(m.insert(k, w)) == workflows_model(m).insert(k, w@),
{
    assert(workflows_model(m.insert(k, w)) =~= workflows_model(m).insert(k, w@));
}

impl StateMachine {
    /// A state machine with no workflows, nothing applied, no membership and
    /// no snapshot.
    pub fn new() -> (sm: StateMachine)
        ensures
            sm@.last_applied_log is None,
            sm@.last_membership.log_id is None,
            sm@.last_membership.membership.configs.len() == 0,
            sm@.last_membership.membership.nodes.len() == 0,
            sm@.workflows == Map::<u128, WorkflowModel>::empty(),
            sm@.snapshot_idx == 0,
            sm@.current_snapshot is None,
    {
        let sm = StateMachine {
            last_applied_log: None,
            last_membership: StoredMembership::initial(),
            workflows: BTreeMap::new(),
            snapshot_idx: 0,
            current_snapshot: None,
        };
        assert(sm@.workflows =~= Map::<u128, WorkflowModel>::empty());
        sm
    }

    /// The workflow with identifier `workflow_id`, if there is one.
    pub fn get_workflow(&self, workflow_id: &crate::ids::WorkflowId) -> (r: Option<&WorkflowSnapshot>)
        ensures
            match r {
                Some(w) => self@.workflows.contains_key(workflow_id.uuid)
                    && self@.workflows[workflow_id.uuid] == w@,
                None => !self@.workflows.contains_key(workflow_id.uuid),
            },
    {
        self.workflows.get(&workflow_id.uuid)
    }

    /// All workflows, keyed and ordered by UUID.
    pub fn get_all_workflows(&self) -> (r: &BTreeMap<u128, WorkflowSnapshot>)
        ensures
            workflows_model(r@) == self@.workflows,
    {
        &self.workflows
    }

    /// The last applied entry's position and the last membership.
    pub fn applied_state(&self) -> (r: (Option<LogId>, StoredMembership))
        ensures
            r.0 == self@.last_applied_log,
            r.1@ == self@.last_membership,
    {
        (self.last_applied_log, self.last_membership.duplicate())
    }

    /// Applies one entry and answers it.
    pub fn apply_one(&mut self, entry: Entry) -> (r: Response)
        ensures
            (final(self)@, r) == apply_entry(old(self)@, entry@),
    {
        let log_id = entry.log_id;
        self.last_applied_log = Some(log_id);
        match entry.payload {
            EntryPayload::Blank => Response::Empty,
            EntryPayload::Normal(req) => match req {
                Request::CreateWorkflow { workflow } => {
                    let id = workflow.workflow_id;
                    proof {
                        lemma_workflows_insert(self.workflows@, id.uuid, workflow);
                    }
                    self.workflows.insert(id.uuid, workflow);
                    Response::WorkflowCreated { workflow_id: id }
                },
                Request::TransitionWorkflow { workflow_id, workflow } => {
                    proof {
                        lemma_workflows_insert(self.workflows@, workflow_id.uuid, workflow);
                    }
                    self.workflows.insert(workflow_id.uuid, workflow);
                    Response::WorkflowTransitioned { workflow_id }
                },
                Request::UpdateTaskExecution { workflow_id, task_id, execution } => {
                    let ghost before = self.workflows@;
                    match self.workflows.remove(&workflow_id.uuid) {
                        Some(mut w) => {
                            assert(self.workflows@ == before.remove(workflow_id.uuid));
                            w.executions.insert(task_id, execution);
                            proof {
                                lemma_workflows_insert(self.workflows@, workflow_id.uuid, w);
                            }
                            self.workflows.insert(workflow_id.uuid, w);
                            assert(workflows_model(self.workflows@) =~= workflows_model(
                                before,
                            ).insert(workflow_id.uuid, w@));
                        },
                        None => {
                            assert(self.workflows@ =~= before);
                        },
                    }
                    Response::TaskExecutionUpdated { workflow_id, task_id }
                },
                Request::CancelWorkflow { workflow_id, workflow } => {
                    proof {
                        lemma_workflows_insert(self.workflows@, workflow_id.uuid, workflow);
                    }
                    self.workflows.insert(workflow_id.uuid, workflow);
                    Response::WorkflowCancelled { workflow_id }
                },
            },
            EntryPayload::Membership(m) => {
                self.last_membership = StoredMembership { log_id: Some(log_id), membership: m };
                Response::Empty
            },
        }
    }

    /// Applies entries in order and answers each.
    pub fn apply(&mut self, entries: Vec<Entry>) -> (r: Vec<Response>)
        ensures
            (final(self)@, r@) == apply_entries(old(self)@, entries_model(entries@)),
    {
        let mut responses: Vec<Response> = Vec::new();
        let ghost es = entries_model(entries@);
        let ghost start = self@;
        for e in it: entries
            invariant
                es == entries_model(it.seq()),
                start == old(self)@,
                (self@, responses@) == apply_entries(start, es.take(it.index() as int)),
        {
            proof {
                assert(es.take(it.index() + 1).drop_last() =~= es.take(it.index() as int));
                assert(es.take(it.index() + 1).last() == e@);
            }
            let r = self.apply_one(e);
            responses.push(r);
        }
        assert(es.take(es.len() as int) =~= es);
        responses
    }

    /// Builds a snapshot of the current workflows, keeps it as the current
    /// snapshot, and returns it.
    pub fn build_snapshot(&mut self) -> (snap: Snapshot)
        requires
            old(self).snapshot_idx < u64::MAX,
        ensures
            snap@ == snapshot_of(old(self)@, (old(self)@.snapshot_idx + 1) as u64),
            final(self)@ == (StateMachineModel {
                snapshot_idx: (old(self)@.snapshot_idx + 1) as u64,
                current_snapshot: Some(snap@),
                ..old(self)@
            }),
    {
        let data = self.workflows.clone();
        self.snapshot_idx = self.snapshot_idx + 1;
        let idx = self.snapshot_idx;
        let name = match self.last_applied_log {
            Some(l) => {
                let t = concat_chars(&vec!['T'], &u64_to_decimal(l.term));
                let t = concat_chars(&t, &vec!['-', 'N']);
                let t = concat_chars(&t, &u64_to_decimal(l.node_id));
                let t = concat_chars(&t, &vec!['-']);
                let t = concat_chars(&t, &u64_to_decimal(l.index));
                let t = concat_chars(&t, &vec!['-']);
                concat_chars(&t, &u64_to_decimal(idx))
            },
            None => concat_chars(&vec!['-', '-'], &u64_to_decimal(idx)),
        };
        let meta = SnapshotMeta {
            last_log_id: self.last_applied_log,
            last_membership: self.last_membership.duplicate(),
            snapshot_id: string_of(&name),
        };
        let snap = Snapshot { meta, data };
        assert(snap@.meta.snapshot_id =~= snapshot_name(old(self)@.last_applied_log, idx));
        assert(snap@.data =~= old(self)@.workflows);
        assert(snap@ == snapshot_of(old(self)@, idx));
        let kept = Snapshot { meta: snap.meta.duplicate(), data: snap.data.clone() };
        self.current_snapshot = Some(kept);
        snap
    }

    /// Replaces the state with a received snapshot: its workflows, its last
    /// entry and its membership; it becomes the current snapshot.
    pub fn install_snapshot(&mut self, meta: SnapshotMeta, data: BTreeMap<u128, WorkflowSnapshot>)
        ensures
            final(self)@ == installed(
                old(self)@,
                SnapshotModel { meta: meta@, data: workflows_model(data@) },
            ),
    {
        self.last_applied_log = meta.last_log_id;
        self.last_membership = meta.last_membership.duplicate();
        self.workflows = data.clone();
        self.current_snapshot = Some(Snapshot { meta, data });
    }

    /// The current snapshot, if one was built or installed.
    pub fn get_current_snapshot(&self) -> (r: Option<&Snapshot>)
        ensures
            match r {
                Some(s) => self@.current_snapshot == Some(s@),
                None => self@.current_snapshot is None,
            },
    {
        match &self.current_snapshot {
            Some(s) => Some(s),
            None => None,
        }
    }
}

/// Applying entries in one batch or in two consecutive batches gives the
/// same state and the same responses.
pub proof fn lemma_apply_entries_split(s: StateMachineModel, a: Seq<EntryModel>, b: Seq<EntryModel>)
    ensures
        ({
            let (s1, r1) = apply_entries(s, a);
            let (s2, r2) = apply_entries(s1, b);
            apply_entries(s, a + b) == (s2, r1 + r2)
        }),
    decreases b.len(),
{
    if b.len() == 0 {
        assert(a + b =~= a);
        let (s1, r1) = apply_entries(s, a);
        assert(r1 + Seq::<Response>::empty() =~= r1);
    } else {
        lemma_apply_entries_split(s, a, b.drop_last());
        assert((a + b).drop_last() =~= a + b.drop_last());
        assert((a + b).last() == b.last());
        let (s1, r1) = apply_entries(s, a);
        let (s2, r2) = apply_entries(s1, b.drop_last());
        let (s3, r) = apply_entry(s2, b.last());
        assert(r1 + r2.push(r) =~= (r1 + r2).push(r));
    }
}

/// Every applied entry is answered, and after a non-empty batch the last
/// applied position is that of the batch's last entry.
pub proof fn lemma_apply_entries_answers_each(s: StateMachineModel, es: Seq<EntryModel>)
    ensures
        apply_entries(s, es).1.len() == es.len(),
        es.len() > 0 ==> apply_entries(s, es).0.last_applied_log == Some(es.last().log_id),
        es.len() == 0 ==> apply_entries(s, es).0 == s,
    decreases es.len(),
{
    if es.len() > 0 {
        lemma_apply_entries_answers_each(s, es.drop_last());
    }
}

/// Two replicas that agree on their workflows, last applied position and
/// membership (whatever their snapshots) still agree on them, and answer
/// alike, after applying the same entries.
pub proof fn lemma_replicas_agree(s: StateMachineModel, t: StateMachineModel, es: Seq<EntryModel>)
    requires
        s.workflows == t.workflows,
        s.last_applied_log == t.last_applied_log,
        s.last_membership == t.last_membership,
    ensures
        apply_entries(s, es).0.workflows == apply_entries(t, es).0.workflows,
        apply_entries(s, es).0.last_applied_log == apply_entries(t, es).0.last_applied_log,
        apply_entries(s, es).0.last_membership == apply_entries(t, es).0.last_membership,
        apply_entries(s, es).1 == apply_entries(t, es).1,
    decreases es.len(),
{
    if es.len() > 0 {
        lemma_apply_entries_replicas_step(s, t, es);
    }
}

proof fn lemma_apply_entries_replicas_step(s: StateMachineModel, t: StateMachineModel, es: Seq<EntryModel>)
    requires
        s.workflows == t.workflows,
        s.last_applied_log == t.last_applied_log,
        s.last_membership == t.last_membership,
        es.len() > 0,
    ensures
        apply_entries(s, es).0.workflows == apply_entries(t, es).0.workflows,
        apply_entries(s, es).0.last_applied_log == apply_entries(t, es).0.last_applied_log,
        apply_entries(s, es).0.last_membership == apply_entries(t, es).0.last_membership,
        apply_entries(s, es).1 == apply_entries(t, es).1,
    decreases es.len(), 0int,
{
    lemma_replicas_agree(s, t, es.drop_last());
}

/// A membership entry makes its membership, as given and stamped with the
/// entry's log id, the state's last membership; it answers with nothing
/// and leaves the workflows as they were.
pub proof fn lemma_membership_entry_sets_membership(s: StateMachineModel, log_id: LogId, m: MembershipModel)
    ensures
        ({
            let (s1, r) = apply_entry(s, EntryModel { log_id, payload: PayloadModel::Membership(m) });
            &&& s1.last_membership.log_id == Some(log_id)
            &&& s1.last_membership.membership == m
            &&& s1.last_membership.membership.configs == m.configs
            &&& s1.last_membership.membership.nodes == m.nodes
            &&& s1.last_applied_log == Some(log_id)
            &&& s1.workflows == s.workflows
            &&& r == Response::Empty
        }),
{
}

/// After a batch of entries the last membership is that of the batch's
/// last membership entry, exactly as that entry gave it; the entries after
/// it change no membership.
pub proof fn lemma_last_membership_entry_wins(s: StateMachineModel, es: Seq<EntryModel>, i: int, m: MembershipModel)
    requires
        0 <= i < es.len(),
        es[i].payload == PayloadModel::Membership(m),
        forall|j: int| i < j < es.len() ==> !(#[trigger] es[j].payload is Membership),
    ensures
        apply_entries(s, es).0.last_membership == (StoredMembershipModel {
            log_id: Some(es[i].log_id),
            membership: m,
        }),
    decreases es.len(),
{
    if i == es.len() - 1 {
        assert(es.last() == es[i]);
    } else {
        let d = es.drop_last();
        assert forall|j: int| i < j < d.len() implies !(#[trigger] d[j].payload is Membership) by {
            assert(d[j] == es[j]);
        }
        assert(d[i] == es[i]);
        lemma_last_membership_entry_wins(s, d, i, m);
        assert(!(es[es.len() - 1].payload is Membership));
    }
}

/// A created workflow is read back as created, whatever was stored under
/// its identifier before.
pub proof fn lemma_create_then_read(s: StateMachineModel, log_id: LogId, w: WorkflowModel)
    ensures
        ({
            let e = EntryModel {
                log_id,
                payload: PayloadModel::Normal(RequestModel::CreateWorkflow { workflow: w }),
            };
            let (s1, r) = apply_entry(s, e);
            &&& s1.workflows.contains_key(w.workflow_id.uuid)
            &&& s1.workflows[w.workflow_id.uuid] == w
            &&& forall|k: u128| k != w.workflow_id.uuid ==> #[trigger] s1.workflows.contains_key(k)
                == s.workflows.contains_key(k) && (s.workflows.contains_key(k)
                ==> s1.workflows[k] == s.workflows[k])
            &&& r == Response::WorkflowCreated { workflow_id: w.workflow_id }
        }),
{
}

/// Recording an execution for a workflow that does not exist changes no
/// workflow; for one that exists it changes only that task's execution.
pub proof fn lemma_update_execution(
    s: StateMachineModel,
    log_id: LogId,
    workflow_id: crate::ids::WorkflowId,
    task_id: crate::ids::TaskId,
    execution: crate::workflow::TaskExecution,
)
    ensures
        ({
            let e = EntryModel {
                log_id,
                payload: PayloadModel::Normal(
                    RequestModel::UpdateTaskExecution { workflow_id, task_id, execution },
                ),
            };
            let s1 = apply_entry(s, e).0;
            &&& !s.workflows.contains_key(workflow_id.uuid) ==> s1.workflows == s.workflows
            &&& s.workflows.contains_key(workflow_id.uuid) ==> {
                let w0 = s.workflows[workflow_id.uuid];
                let w1 = s1.workflows[workflow_id.uuid];
                &&& s1.workflows.dom() == s.workflows.dom()
                &&& w1.executions == entries_insert(w0.executions, task_id, execution)
                &&& w1 == WorkflowModel { executions: w1.executions, ..w0 }
                &&& forall|k: u128| k != workflow_id.uuid && #[trigger] s.workflows.contains_key(k)
                    ==> s1.workflows[k] == s.workflows[k]
            }
        }),
{
    let e = EntryModel {
        log_id,
        payload: PayloadModel::Normal(
            RequestModel::UpdateTaskExecution { workflow_id, task_id, execution },
        ),
    };
    let s1 = apply_entry(s, e).0;
    if s.workflows.contains_key(workflow_id.uuid) {
        assert(s1.workflows.dom() =~= s.workflows.dom());
    }
}

/// Installing a snapshot that was built from a state restores that state's
/// workflows, last applied position and membership, over any state.
pub proof fn lemma_install_built_snapshot(s: StateMachineModel, t: StateMachineModel, idx: u64)
    ensures
        installed(t, snapshot_of(s, idx)).workflows == s.workflows,
        installed(t, snapshot_of(s, idx)).last_applied_log == s.last_applied_log,
        installed(t, snapshot_of(s, idx)).last_membership == s.last_membership,
        installed(t, snapshot_of(s, idx)).current_snapshot == Some(snapshot_of(s, idx)),
{
}

/// Two texts that each end in a dash followed by digits only end in the
/// same digits when they are equal.
proof fn lemma_dash_suffix(p1: Seq<char>, d1: Seq<char>, p2: Seq<char>, d2: Seq<char>)
    requires
        p1 + seq!['-'] + d1 == p2 + seq!['-'] + d2,
        forall|i: int| 0 <= i < d1.len() ==> crate::text::is_dec_digit(#[trigger] d1[i]),
        forall|i: int| 0 <= i < d2.len() ==> crate::text::is_dec_digit(#[trigger] d2[i]),
    ensures
        d1 == d2,
{
    let s = p1 + seq!['-'] + d1;
    let t = p2 + seq!['-'] + d2;
    let n = s.len();
    if d1.len() < d2.len() {
        let i = n - d1.len() - 1;
        assert(s[i] == '-');
        assert(t[i] == d2[i - (n - d2.len())]);
        assert(crate::text::is_dec_digit(d2[i - (n - d2.len())]));
    } else if d2.len() < d1.len() {
        let i = n - d2.len() - 1;
        assert(t[i] == '-');
        assert(s[i] == d1[i - (n - d1.len())]);
        assert(crate::text::is_dec_digit(d1[i - (n - d1.len())]));
    }
    assert(s.subrange(n - d1.len(), n as int) =~= d1);
    assert(t.subrange(n - d2.len(), n as int) =~= d2);
}

/// Snapshots built with different build counts get different ids,
/// whatever entries they were taken at: successive builds never reuse an
/// id.
pub proof fn lemma_snapshot_ids_distinct(l1: Option<LogId>, k1: u64, l2: Option<LogId>, k2: u64)
    requires
        k1 != k2,
    ensures
        snapshot_name(l1, k1) != snapshot_name(l2, k2),
{
    let d1 = crate::text::decimal(k1 as nat);
    let d2 = crate::text::decimal(k2 as nat);
    crate::text::lemma_decimal_digits(k1 as nat);
    crate::text::lemma_decimal_digits(k2 as nat);
    let p1 = match l1 {
        Some(l) => seq!['T'] + crate::text::decimal(l.term as nat) + seq!['-', 'N']
            + crate::text::decimal(l.node_id as nat) + seq!['-'] + crate::text::decimal(l.index as nat),
        None => seq!['-'],
    };
    let p2 = match l2 {
        Some(l) => seq!['T'] + crate::text::decimal(l.term as nat) + seq!['-', 'N']
            + crate::text::decimal(l.node_id as nat) + seq!['-'] + crate::text::decimal(l.index as nat),
        None => seq!['-'],
    };
    assert(snapshot_name(l1, k1) =~= p1 + seq!['-'] + d1);
    assert(snapshot_name(l2, k2) =~= p2 + seq!['-'] + d2);
    if snapshot_name(l1, k1) == snapshot_name(l2, k2) {
        lemma_dash_suffix(p1, d1, p2, d2);
        crate::text::lemma_decimal_injective(k1 as nat, k2 as nat);
    }
}

} // verus!
