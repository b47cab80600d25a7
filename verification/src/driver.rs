//! Per-file and directory-level orchestration.
//!
//! For each discovered file the driver fixes the input path, the mapped
//! output path, the staleness decision and whether a rebuild-watch
//! directive is owed; a whole directory's files are planned in discovery
//! order. The run itself is a small state machine: the host performs one
//! planned step at a time — invoking the generator where the plan says
//! regenerate — and records the result; after a recorded failure the
//! machine is finished and accepts no further step, so a failure on one
//! file keeps every later file from being processed while earlier results
//! stand.

use vstd::prelude::*;

use crate::paths::file_path;
use crate::paths::generated_name;
use crate::paths::has_grammar_ext;
use crate::paths::join_file_path;
use crate::paths::map_output_path;
use crate::paths::DiscoveredFile;
use crate::session::Session;
use crate::staleness::needs_rebuild;
use crate::staleness::spec_needs_rebuild;
use crate::staleness::ArtifactStatus;

verus! {

/// The terminal result for one file.
#[derive(Clone, Copy, PartialEq, Eq, Structural, Debug)]
pub enum BuildOutcome {
    /// The artifact was already up to date; nothing was done.
    Skipped,
    /// The generator ran and wrote the artifact.
    Regenerated,
    /// The generator ran and failed; the run stops here.
    Failed,
}

/// Everything the host needs to act on one discovered file.
pub struct FilePlan {
    /// The source file's full path below the searched root.
    pub input_path: Vec<u8>,
    /// The mapped artifact path below the output root.
    pub output_path: Vec<u8>,
    /// Whether the generator must run for this file.
    pub regenerate: bool,
    /// Whether a rebuild-watch directive is owed for this file — owed on
    /// every run when enabled, skipped files included, since a skip can
    /// flip once the source changes.
    pub emit_rerun: bool,
}

/// Plans one discovered file: paths mapped, staleness decided, directive
/// emission fixed by the session.
pub fn plan_file(
    s: &Session,
    in_root: &Vec<u8>,
    out_root: &Vec<u8>,
    file: &DiscoveredFile,
    st: &ArtifactStatus,
) -> (r: FilePlan)
    requires
        has_grammar_ext(file.name@),
    ensures
        r.input_path@ == file_path(in_root@, file.rel_dir.deep_view(), file.name@),
        r.output_path@ == file_path(
            out_root@,
            file.rel_dir.deep_view(),
            generated_name(file.name@),
        ),
        r.regenerate == spec_needs_rebuild(s.force_build, *st),
        r.emit_rerun == s.emit_rerun_directives,
{
    FilePlan {
        input_path: join_file_path(in_root, &file.rel_dir, &file.name),
        output_path: map_output_path(out_root, file),
        regenerate: needs_rebuild(s.force_build, st),
        emit_rerun: s.emit_rerun_directives,
    }
}

/// Plans a directory's files, one plan per discovered file, in discovery
/// order.
pub fn plan_dir(
    s: &Session,
    in_root: &Vec<u8>,
    out_root: &Vec<u8>,
    files: &Vec<DiscoveredFile>,
    statuses: &Vec<ArtifactStatus>,
) -> (r: Vec<FilePlan>)
    requires
        statuses@.len() == files@.len(),
        forall|i: int| 0 <= i < files@.len() ==> has_grammar_ext(#[trigger] files@[i].name@),
    ensures
        r@.len() == files@.len(),
        forall|i: int|
            0 <= i < r@.len() ==> {
                &&& (#[trigger] r@[i]).input_path@ == file_path(
                    in_root@,
                    files@[i].rel_dir.deep_view(),
                    files@[i].name@,
                )
                &&& r@[i].output_path@ == file_path(
                    out_root@,
                    files@[i].rel_dir.deep_view(),
                    generated_name(files@[i].name@),
                )
                &&& r@[i].regenerate == spec_needs_rebuild(s.force_build, statuses@[i])
                &&& r@[i].emit_rerun == s.emit_rerun_directives
            },
{
    let mut r: Vec<FilePlan> = Vec::new();
    let mut i: usize = 0;
    while i < files.len()
        invariant
            0 <= i <= files@.len(),
            statuses@.len() == files@.len(),
            forall|k: int| 0 <= k < files@.len() ==> has_grammar_ext(#[trigger] files@[k].name@),
            r@.len() == i,
            forall|k: int|
                0 <= k < i ==> {
                    &&& (#[trigger] r@[k]).input_path@ == file_path(
                        in_root@,
                        files@[k].rel_dir.deep_view(),
                        files@[k].name@,
                    )
                    &&& r@[k].output_path@ == file_path(
                        out_root@,
                        files@[k].rel_dir.deep_view(),
                        generated_name(files@[k].name@),
                    )
                    &&& r@[k].regenerate == spec_needs_rebuild(s.force_build, statuses@[k])
                    &&& r@[k].emit_rerun == s.emit_rerun_directives
                },
        decreases files@.len() - i,
    {
        let p = plan_file(s, in_root, out_root, &files[i], &statuses[i]);
        r.push(p);
        i += 1;
    }
    r
}

/// The fixed prefix of a rebuild-watch directive, `cargo:rerun-if-changed=`.
pub open spec fn rerun_directive_prefix() -> Seq<u8> {
    seq![
        99u8, 97u8, 114u8, 103u8, 111u8, 58u8, 114u8, 101u8, 114u8, 117u8, 110u8, 45u8, 105u8,
        102u8, 45u8, 99u8, 104u8, 97u8, 110u8, 103u8, 101u8, 100u8, 61u8,
    ]
}

/// The rebuild-watch directive line for one input path, without the
/// trailing newline: the fixed prefix followed by the path.
pub fn rerun_directive_line(input_path: &Vec<u8>) -> (r: Vec<u8>)
    ensures
        r@ == rerun_directive_prefix() + input_path@,
{
    let mut r: Vec<u8> = Vec::new();
    r.push(99u8);
    r.push(97u8);
    r.push(114u8);
    r.push(103u8);
    r.push(111u8);
    r.push(58u8);
    r.push(114u8);
    r.push(101u8);
    r.push(114u8);
    r.push(117u8);
    r.push(110u8);
    r.push(45u8);
    r.push(105u8);
    r.push(102u8);
    r.push(45u8);
    r.push(99u8);
    r.push(104u8);
    r.push(97u8);
    r.push(110u8);
    r.push(103u8);
    r.push(101u8);
    r.push(100u8);
    r.push(61u8);
    proof {
        assert(r@ =~= rerun_directive_prefix());
    }
    let ghost prefix = r@;
    let mut k: usize = 0;
    while k < input_path.len()
        invariant
            0 <= k <= input_path.len(),
            r@ == prefix + input_path@.subrange(0, k as int),
        decreases input_path.len() - k,
    {
        r.push(input_path[k]);
        proof {
            assert(prefix + input_path@.subrange(0, k + 1 as int) =~= (prefix + input_path@
                .subrange(0, k as int)).push(input_path@[k as int]));
        }
        k += 1;
    }
    proof {
        assert(input_path@.subrange(0, input_path@.len() as int) =~= input_path@);
        assert(r@ == rerun_directive_prefix() + input_path@);
    }
    r
}

/// A directory-level run in progress: the plans in discovery order, how
/// many have been resolved, their outcomes, and whether one has failed.
pub struct DirRun {
    /// The planned files, in discovery order.
    pub plans: Vec<FilePlan>,
    /// How many plans have been resolved so far.
    pub pos: usize,
    /// One outcome per resolved plan, in order.
    pub outcomes: Vec<BuildOutcome>,
    /// Whether a resolved plan failed; a failed run is finished.
    pub failed: bool,
}

impl DirRun {
    /// The state machine's integrity: outcomes track resolved plans one to
    /// one, and a failure is always the last recorded outcome.
    pub open spec fn wf(self) -> bool {
        &&& self.pos <= self.plans@.len()
        &&& self.outcomes@.len() == self.pos
        &&& (forall|i: int|
            0 <= i < self.pos ==> ((#[trigger] self.outcomes@[i]) == BuildOutcome::Failed <==> (
            self.failed && i == self.pos - 1)))
    }

    /// Whether the run accepts no further step: every plan is resolved, or
    /// one has failed — fail-fast, the files after a failure are never
    /// processed.
    pub open spec fn spec_finished(self) -> bool {
        self.pos == self.plans@.len() || self.failed
    }

    /// Starts a run over the given plans.
    pub fn new(plans: Vec<FilePlan>) -> (r: DirRun)
        ensures
            r.wf(),
            r.plans == plans,
            r.pos == 0,
            r.outcomes@.len() == 0,
            !r.failed,
    {
        DirRun { plans, pos: 0, outcomes: Vec::new(), failed: false }
    }

    /// Whether the run accepts no further step.
    pub fn finished(&self) -> (r: bool)
        ensures
            r == self.spec_finished(),
    {
        self.pos == self.plans.len() || self.failed
    }

    /// Records that the current file was skipped: its plan asked for no
    /// regeneration.
    pub fn record_skip(&mut self)
        requires
            old(self).wf(),
            !old(self).spec_finished(),
            !old(self).plans@[old(self).pos as int].regenerate,
        ensures
            final(self).wf(),
            final(self).plans == old(self).plans,
            final(self).pos == old(self).pos + 1,
            final(self).outcomes@ == old(self).outcomes@.push(BuildOutcome::Skipped),
            !final(self).failed,
    {
        let n = self.plans.len();
        assert(self.pos < n);
        self.outcomes.push(BuildOutcome::Skipped);
        self.pos = self.pos + 1;
    }

    /// Records the generator's verdict on the current file: regenerated on
    /// success, failed — and the run finished — otherwise.
    pub fn record_compiled(&mut self, ok: bool)
        requires
            old(self).wf(),
            !old(self).spec_finished(),
            old(self).plans@[old(self).pos as int].regenerate,
        ensures
            final(self).wf(),
            final(self).plans == old(self).plans,
            final(self).pos == old(self).pos + 1,
            final(self).outcomes@ == old(self).outcomes@.push(
                if ok {
                    BuildOutcome::Regenerated
                } else {
                    BuildOutcome::Failed
                },
            ),
            final(self).failed == !ok,
            !ok ==> final(self).spec_finished(),
    {
        let n = self.plans.len();
        assert(self.pos < n);
        if ok {
            self.outcomes.push(BuildOutcome::Regenerated);
        } else {
            self.outcomes.push(BuildOutcome::Failed);
            self.failed = true;
        }
        self.pos = self.pos + 1;
    }

}

} // verus!
