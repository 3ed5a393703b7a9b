//! The lifecycle controller: the registry of live processes, the store of task
//! descriptors, and the decisions of pause, resume, delete, the completion
//! wait and shutdown. The caller performs the process work each decision names.
use vstd::prelude::*;
use vstd::string::*;

use crate::table::{entries_map, ids_unique, TaskTable};
use crate::text::{join_text, joined, texts};
use crate::types::{CompressionResult, CompressionSettings, VideoMetadata};

verus! {

/// What the store keeps of a task until it is deleted.
pub struct TaskInfo {
    pub input_path: String,
    pub output_path: String,
    /// The duration progress is measured against, in microseconds.
    pub total_duration: u64,
    pub settings: CompressionSettings,
}

/// The failures that reach the caller of an operation.
pub enum TaskError {
    /// None of the candidate executables exists; all of them are listed.
    BinaryNotFound { tool: String, tried: Vec<String> },
    /// The metadata probe failed or printed what cannot be read.
    ProbeFailure(String),
    /// The operating system could not start the process.
    SpawnFailure(String),
    /// The task left the registry while its completion was awaited.
    ProcessInterrupted,
    /// This platform has no way to suspend a process.
    PlatformUnsupported,
    /// Neither the registry nor the store knows the id.
    TaskNotFound(String),
    /// The suspend or continue request failed.
    SignalFailure(String),
    /// The process's state could not be read.
    StatusFailure(String),
}

/// How this platform suspends and continues a process.
#[derive(Clone, Copy, Debug, PartialEq, Eq, Structural)]
pub enum SuspendPrimitive {
    /// Stop and continue signals to the process.
    Signal,
    /// Suspend and resume each of the process's threads.
    ThreadSuspend,
    Unsupported,
}

/// What one look at a registered process found.
pub enum ExitCheck {
    Running,
    Exited { success: bool, description: String },
    Failed(String),
}

/// What the completion wait does next.
pub enum WaitStep {
    /// Still running: sleep, then look again.
    Pending,
    /// The process exited and has left the registry.
    Finished { success: bool, description: String },
    /// Its state could not be read; it has left the registry.
    CheckFailed(String),
    /// The task is no longer registered: it was deleted or cancelled.
    Interrupted,
}

/// What resuming a task amounts to.
pub enum ResumePlan<'a, H> {
    /// Continue this live process, then await its completion.
    Continue(&'a H),
    /// The process is gone but the task is known: report it finished.
    Finished(&'a TaskInfo),
}

/// The outcome of force-killing one task at shutdown.
pub struct KillOutcome {
    pub task_id: String,
    pub error: Option<String>,
}

/// How a batch of kills went: the count that succeeded, and each failure.
pub struct KillSummary {
    pub killed: usize,
    pub failed: Vec<(String, String)>,
}

/// Everything shutdown takes out of the orchestrator.
pub struct Shutdown<H> {
    /// Every live process, to be killed.
    pub processes: Vec<(String, H)>,
    /// Every task the store knew, to be told it was cancelled.
    pub cancelled: Vec<String>,
}

/// The registry of live processes (`H` is the caller's process handle) and the
/// store of task descriptors. A task may be in the store with no live process:
/// it finished, was cancelled, or is not yet reconciled.
pub struct Orchestrator<H> {
    registry: TaskTable<H>,
    store: TaskTable<TaskInfo>,
}

/// The failures of a batch of kills, in order.
pub open spec fn kill_failures(s: Seq<KillOutcome>) -> Seq<(Seq<char>, Seq<char>)>
    decreases s.len(),
{
    if s.len() == 0 {
        Seq::empty()
    } else {
        match s.last().error {
            Some(e) => kill_failures(s.drop_last()).push((s.last().task_id@, e@)),
            None => kill_failures(s.drop_last()),
        }
    }
}

/// The texts of a list of (task id, message) pairs.
pub open spec fn pair_texts(v: Seq<(String, String)>) -> Seq<(Seq<char>, Seq<char>)> {
    v.map_values(|f: (String, String)| (f.0@, f.1@))
}

/// How many kills of a batch succeeded.
pub open spec fn kill_successes(s: Seq<KillOutcome>) -> nat
    decreases s.len(),
{
    if s.len() == 0 {
        0
    } else {
        kill_successes(s.drop_last()) + if s.last().error is None {
            1nat
        } else {
            0nat
        }
    }
}

pub open spec fn failure_text(prefix: Seq<char>, detail: Seq<char>) -> Seq<char> {
    prefix + detail
}

pub open spec fn exit_failure_prefix() -> Seq<char> {
    "FFmpeg process failed with exit code: "@
}

impl<H> Orchestrator<H> {
    /// The live processes by task id.
    pub closed spec fn processes(&self) -> Map<Seq<char>, H> {
        self.registry.view()
    }

    /// The task descriptors by task id.
    pub closed spec fn tasks(&self) -> Map<Seq<char>, TaskInfo> {
        self.store.view()
    }

    pub closed spec fn wf(&self) -> bool {
        self.registry.wf() && self.store.wf()
    }

    pub fn new() -> (r: Self)
        ensures
            r.wf(),
            r.processes() == Map::<Seq<char>, H>::empty(),
            r.tasks() == Map::<Seq<char>, TaskInfo>::empty(),
    {
        Orchestrator { registry: TaskTable::new(), store: TaskTable::new() }
    }

    /// Records a freshly spawned task in both the registry and the store. A
    /// process already registered under the id is handed back.
    pub fn register(&mut self, id: String, handle: H, info: TaskInfo) -> (r: Option<H>)
        requires
            old(self).wf(),
        ensures
            final(self).wf(),
            final(self).processes() == old(self).processes().insert(id@, handle),
            final(self).tasks() == old(self).tasks().insert(id@, info),
            match r {
                Some(h) => old(self).processes().contains_key(id@) && h == old(self).processes()[id@],
                None => !old(self).processes().contains_key(id@),
            },
    {
        let key = id.clone();
        let displaced = self.registry.insert(id, handle);
        self.store.insert(key, info);
        displaced
    }

    /// Whether a live process is registered for `id`.
    pub fn is_running(&self, id: &String) -> (r: bool)
        requires
            self.wf(),
        ensures
            r == self.processes().contains_key(id@),
    {
        self.registry.contains(id)
    }

    /// The live process registered for `id`.
    pub fn process(&self, id: &String) -> (r: Option<&H>)
        requires
            self.wf(),
        ensures
            match r {
                Some(h) => self.processes().contains_key(id@) && *h == self.processes()[id@],
                None => !self.processes().contains_key(id@),
            },
    {
        self.registry.get(id)
    }

    /// The descriptor the store keeps for `id`.
    pub fn task_info(&self, id: &String) -> (r: Option<&TaskInfo>)
        requires
            self.wf(),
        ensures
            match r {
                Some(t) => self.tasks().contains_key(id@) && *t == self.tasks()[id@],
                None => !self.tasks().contains_key(id@),
            },
    {
        self.store.get(id)
    }

    /// The process to suspend for `id`: `TaskNotFound` where none is
    /// registered, else `PlatformUnsupported` where the platform cannot suspend.
    pub fn plan_pause(&self, id: &String, primitive: SuspendPrimitive) -> (r: Result<&H, TaskError>)
        requires
            self.wf(),
        ensures
            !self.processes().contains_key(id@) ==> (r matches Err(TaskError::TaskNotFound(s)) && s@ == id@),
            self.processes().contains_key(id@) && primitive == SuspendPrimitive::Unsupported ==> (r matches Err(TaskError::PlatformUnsupported)),
            self.processes().contains_key(id@) && primitive != SuspendPrimitive::Unsupported ==> (r matches Ok(h) && *h == self.processes()[id@]),
    {
        match self.registry.get(id) {
            None => Err(TaskError::TaskNotFound(id.clone())),
            Some(h) => {
                if primitive == SuspendPrimitive::Unsupported {
                    Err(TaskError::PlatformUnsupported)
                } else {
                    Ok(h)
                }
            },
        }
    }

    /// What resuming `id` amounts to: continue its live process; or, where the
    /// process is gone but the store knows the task, report it finished; or
    /// `TaskNotFound` where neither knows it.
    pub fn plan_resume(&self, id: &String, primitive: SuspendPrimitive) -> (r: Result<ResumePlan<'_, H>, TaskError>)
        requires
            self.wf(),
        ensures
            self.processes().contains_key(id@) && primitive == SuspendPrimitive::Unsupported ==> (r matches Err(TaskError::PlatformUnsupported)),
            self.processes().contains_key(id@) && primitive != SuspendPrimitive::Unsupported ==> (r matches Ok(ResumePlan::Continue(h)) && *h == self.processes()[id@]),
            !self.processes().contains_key(id@) && self.tasks().contains_key(id@) ==> (r matches Ok(ResumePlan::Finished(t)) && *t == self.tasks()[id@]),
            !self.processes().contains_key(id@) && !self.tasks().contains_key(id@) ==> (r matches Err(TaskError::TaskNotFound(s)) && s@ == id@),
    {
        match self.registry.get(id) {
            Some(h) => {
                if primitive == SuspendPrimitive::Unsupported {
                    Err(TaskError::PlatformUnsupported)
                } else {
                    Ok(ResumePlan::Continue(h))
                }
            },
            None => match self.store.get(id) {
                Some(t) => Ok(ResumePlan::Finished(t)),
                None => Err(TaskError::TaskNotFound(id.clone())),
            },
        }
    }

    /// One step of the completion wait for `id`, given what a look at its
    /// process found (`None` where no handle could be had). A task that is no
    /// longer registered was interrupted; an exited or unreadable process leaves
    /// the registry; the store is never touched.
    pub fn observe(&mut self, id: &String, check: Option<ExitCheck>) -> (r: WaitStep)
        requires
            old(self).wf(),
        ensures
            final(self).wf(),
            final(self).tasks() == old(self).tasks(),
            !old(self).processes().contains_key(id@) || check is None ==> (r is Interrupted && final(self).processes() == old(self).processes()),
            old(self).processes().contains_key(id@) && check is Some ==> match check->0 {
                ExitCheck::Running => r is Pending && final(self).processes() == old(self).processes(),
                ExitCheck::Exited { success, description } => r == (WaitStep::Finished { success, description })
                    && final(self).processes() == old(self).processes().remove(id@),
                ExitCheck::Failed(m) => r == WaitStep::CheckFailed(m)
                    && final(self).processes() == old(self).processes().remove(id@),
            },
    {
        if !self.registry.contains(id) {
            return WaitStep::Interrupted;
        }
        match check {
            None => WaitStep::Interrupted,
            Some(ExitCheck::Running) => WaitStep::Pending,
            Some(ExitCheck::Exited { success, description }) => {
                self.registry.remove(id);
                WaitStep::Finished { success, description }
            },
            Some(ExitCheck::Failed(m)) => {
                self.registry.remove(id);
                WaitStep::CheckFailed(m)
            },
        }
    }

    /// Forgets `id`: its live process, if any, leaves the registry and is
    /// handed back to be killed; its descriptor leaves the store. An unknown id
    /// changes nothing.
    pub fn delete(&mut self, id: &String) -> (r: Option<H>)
        requires
            old(self).wf(),
        ensures
            final(self).wf(),
            final(self).processes() == old(self).processes().remove(id@),
            final(self).tasks() == old(self).tasks().remove(id@),
            match r {
                Some(h) => old(self).processes().contains_key(id@) && h == old(self).processes()[id@],
                None => !old(self).processes().contains_key(id@),
            },
    {
        let h = self.registry.remove(id);
        self.store.remove(id);
        h
    }

    /// Empties the registry and the store: every live process is handed back
    /// to be killed, and every id the store knew to be told it was cancelled.
    pub fn terminate_all(&mut self) -> (r: Shutdown<H>)
        requires
            old(self).wf(),
        ensures
            final(self).wf(),
            final(self).processes() == Map::<Seq<char>, H>::empty(),
            final(self).tasks() == Map::<Seq<char>, TaskInfo>::empty(),
            ids_unique(r.processes@),
            entries_map(r.processes@) == old(self).processes(),
            forall|i: int| 0 <= i < r.cancelled@.len() ==> old(self).tasks().contains_key(#[trigger] r.cancelled@[i]@),
            forall|k: Seq<char>| old(self).tasks().contains_key(k) ==> exists|i: int| 0 <= i < r.cancelled@.len() && #[trigger] r.cancelled@[i]@ == k,
            forall|i: int, j: int| 0 <= i < r.cancelled@.len() && 0 <= j < r.cancelled@.len() && i != j ==> #[trigger] r.cancelled@[i]@ != #[trigger] r.cancelled@[j]@,
    {
        let processes = self.registry.drain();
        let cancelled = self.store.ids();
        self.store.clear();
        let r = Shutdown { processes, cancelled };
        assert forall|k: Seq<char>| old(self).tasks().contains_key(k) implies exists|i: int|
            0 <= i < r.cancelled@.len() && #[trigger] r.cancelled@[i]@ == k by {
            let i = choose|i: int| 0 <= i < cancelled@.len() && #[trigger] cancelled@[i]@ == k;
            assert(r.cancelled@[i]@ == k);
        }
        r
    }
}

/// Deleting a task twice leaves what the first delete left, and the second
/// finds no process to kill.
pub proof fn lemma_delete_idempotent<H>(processes: Map<Seq<char>, H>, tasks: Map<Seq<char>, TaskInfo>, id: Seq<char>)
    ensures
        processes.remove(id).remove(id) == processes.remove(id),
        tasks.remove(id).remove(id) == tasks.remove(id),
        !processes.remove(id).contains_key(id),
{
    assert(processes.remove(id).remove(id) =~= processes.remove(id));
    assert(tasks.remove(id).remove(id) =~= tasks.remove(id));
}

/// Counts the successful kills of a batch and collects every failure; one
/// failure never hides the others.
pub fn summarize_kills(outcomes: &Vec<KillOutcome>) -> (r: KillSummary)
    ensures
        r.killed == kill_successes(outcomes@),
        pair_texts(r.failed@) == kill_failures(outcomes@),
{
    let mut killed: usize = 0;
    let mut failed: Vec<(String, String)> = Vec::new();
    let mut i: usize = 0;
    while i < outcomes.len()
        invariant
            0 <= i <= outcomes@.len(),
            killed == kill_successes(outcomes@.take(i as int)),
            killed <= i,
            pair_texts(failed@) == kill_failures(outcomes@.take(i as int)),
        decreases outcomes@.len() - i,
    {
        assert(outcomes@.take(i + 1).drop_last() =~= outcomes@.take(i as int));
        let o = &outcomes[i];
        match &o.error {
            Some(e) => {
                let ghost before = failed@;
                failed.push((o.task_id.clone(), e.clone()));
                assert(pair_texts(failed@) =~= pair_texts(before).push((o.task_id@, e@)));
            },
            None => {
                killed = killed + 1;
            },
        }
        i = i + 1;
    }
    assert(outcomes@.take(outcomes@.len() as int) =~= outcomes@);
    KillSummary { killed, failed }
}

proof fn lemma_kill_counts(s: Seq<KillOutcome>)
    ensures
        kill_successes(s) + kill_failures(s).len() == s.len(),
    decreases s.len(),
{
    if s.len() > 0 {
        lemma_kill_counts(s.drop_last());
    }
}

proof fn lemma_all_killed(s: Seq<KillOutcome>)
    requires
        forall|i: int| 0 <= i < s.len() ==> (#[trigger] s[i]).error is None,
    ensures
        kill_failures(s).len() == 0,
    decreases s.len(),
{
    if s.len() > 0 {
        let s0 = s.drop_last();
        assert forall|i: int| 0 <= i < s0.len() implies (#[trigger] s0[i]).error is None by {
            assert(s0[i] == s[i]);
        }
        lemma_all_killed(s0);
        assert(s.last() == s[s.len() - 1]);
    }
}

/// A batch of `n` kills where exactly one fails reports `n − 1` successes and
/// that one failure.
pub proof fn lemma_one_failed_kill(outcomes: Seq<KillOutcome>, j: int)
    requires
        0 <= j < outcomes.len(),
        outcomes[j].error is Some,
        forall|i: int| 0 <= i < outcomes.len() && i != j ==> (#[trigger] outcomes[i]).error is None,
    ensures
        kill_successes(outcomes) == outcomes.len() - 1,
        kill_failures(outcomes) == seq![(outcomes[j].task_id@, outcomes[j].error->0@)],
    decreases outcomes.len(),
{
    let s0 = outcomes.drop_last();
    if j == outcomes.len() - 1 {
        assert forall|i: int| 0 <= i < s0.len() implies (#[trigger] s0[i]).error is None by {
            assert(s0[i] == outcomes[i]);
        }
        lemma_all_killed(s0);
        lemma_kill_counts(s0);
        assert(kill_failures(s0) =~= Seq::<(Seq<char>, Seq<char>)>::empty());
        assert(outcomes.last() == outcomes[j]);
    } else {
        assert forall|i: int| 0 <= i < s0.len() && i != j implies (#[trigger] s0[i]).error is None by {
            assert(s0[i] == outcomes[i]);
        }
        assert(s0[j] == outcomes[j]);
        lemma_one_failed_kill(s0, j);
        assert(outcomes.last() == outcomes[outcomes.len() - 1]);
    }
}

/// The result reported for a task whose process exited: on success the output
/// path and sizes; on failure the exit description, and no output.
pub fn completion_result(
    output_path: String,
    original_size: u64,
    success: bool,
    exit_description: &String,
    compressed_size: Option<u64>,
    compressed_metadata: Option<VideoMetadata>,
) -> (r: CompressionResult)
    ensures
        r.success == success,
        r.original_size == original_size,
        success ==> r.output_path == Some(output_path) && r.error is None
            && r.compressed_size == compressed_size && r.compressed_metadata == compressed_metadata,
        !success ==> r.output_path is None && r.compressed_size is None && r.compressed_metadata is None
            && (r.error matches Some(e) && e@ == failure_text(exit_failure_prefix(), exit_description@)),
{
    if success {
        CompressionResult {
            success: true,
            output_path: Some(output_path),
            error: None,
            original_size,
            compressed_size,
            compressed_metadata,
        }
    } else {
        let mut msg = String::from_str("FFmpeg process failed with exit code: ");
        msg.append(exit_description.as_str());
        CompressionResult {
            success: false,
            output_path: None,
            error: Some(msg),
            original_size,
            compressed_size: None,
            compressed_metadata: None,
        }
    }
}

/// The result reported when resuming a task whose process already finished:
/// a success for its declared output, with the sizes read from disk.
pub fn finished_task_result(
    info: &TaskInfo,
    original_size: u64,
    compressed_size: Option<u64>,
    compressed_metadata: Option<VideoMetadata>,
) -> (r: CompressionResult)
    ensures
        r.success,
        (r.output_path matches Some(p) && p@ == info.output_path@),
        r.error is None,
        r.original_size == original_size,
        r.compressed_size == compressed_size,
        r.compressed_metadata == compressed_metadata,
{
    CompressionResult {
        success: true,
        output_path: Some(info.output_path.clone()),
        error: None,
        original_size,
        compressed_size,
        compressed_metadata,
    }
}

/// Picks the first candidate executable that exists; where none does, the
/// error lists every candidate tried, in order.
pub fn resolve_binary(tool: &String, candidates: Vec<String>, present: &Vec<bool>) -> (r: Result<String, TaskError>)
    requires
        candidates@.len() == present@.len(),
    ensures
        match r {
            Ok(p) => exists|i: int|
                0 <= i < present@.len() && present@[i] && p == candidates@[i]
                    && (forall|j: int| 0 <= j < i ==> !#[trigger] present@[j]),
            Err(e) => (forall|j: int| 0 <= j < present@.len() ==> !#[trigger] present@[j])
                && (e matches TaskError::BinaryNotFound { tool: t, tried } && t@ == tool@ && tried@ == candidates@),
        },
{
    let mut i: usize = 0;
    while i < present.len()
        invariant
            candidates@.len() == present@.len(),
            0 <= i <= present@.len(),
            forall|j: int| 0 <= j < i ==> !#[trigger] present@[j],
        decreases present@.len() - i,
    {
        if present[i] {
            let p = candidates[i].clone();
            assert(0 <= i < present@.len() && present@[i as int] && p == candidates@[i as int]);
            return Ok(p);
        }
        i = i + 1;
    }
    Err(TaskError::BinaryNotFound { tool: tool.clone(), tried: candidates })
}

impl TaskError {
    /// The message shown to the user.
    pub fn message(&self) -> (r: String)
        ensures
            self matches TaskError::BinaryNotFound { tool, tried } ==> r@ == tool@ + " binary not found. Tried: "@ + joined(texts(tried@), " | "@),
            self matches TaskError::TaskNotFound(id) ==> r@ == "Task "@ + id@ + " not found"@,
            self is ProcessInterrupted ==> r@ == "Process was interrupted"@,
            self is PlatformUnsupported ==> r@ == "Process pausing is not supported on this platform"@,
            self matches TaskError::ProbeFailure(d) ==> r@ == "ffprobe failed: "@ + d@,
            self matches TaskError::SpawnFailure(d) ==> r@ == "Failed to spawn FFmpeg process: "@ + d@,
            self matches TaskError::SignalFailure(d) ==> r@ == d@,
            self matches TaskError::StatusFailure(d) ==> r@ == "Failed to check FFmpeg process status: "@ + d@,
    {
        match self {
            TaskError::BinaryNotFound { tool, tried } => {
                let mut m = tool.clone();
                m.append(" binary not found. Tried: ");
                let list = join_text(tried, " | ");
                m.append(list.as_str());
                m
            },
            TaskError::ProbeFailure(d) => {
                let mut m = String::from_str("ffprobe failed: ");
                m.append(d.as_str());
                m
            },
            TaskError::SpawnFailure(d) => {
                let mut m = String::from_str("Failed to spawn FFmpeg process: ");
                m.append(d.as_str());
                m
            },
            TaskError::ProcessInterrupted => String::from_str("Process was interrupted"),
            TaskError::PlatformUnsupported => String::from_str("Process pausing is not supported on this platform"),
            TaskError::TaskNotFound(id) => {
                let mut m = String::from_str("Task ");
                m.append(id.as_str());
                m.append(" not found");
                m
            },
            TaskError::SignalFailure(d) => d.clone(),
            TaskError::StatusFailure(d) => {
                let mut m = String::from_str("Failed to check FFmpeg process status: ");
                m.append(d.as_str());
                m
            },
        }
    }
}

} // verus!
