//! The recursive fork engine: what a process does when it reaches a fork
//! point, and how a child is to be started.

use std::path::PathBuf;

use vstd::prelude::*;

use crate::identity::identity_text;
use crate::text::texts;
use crate::trail::depth_of;
use crate::trail::lemma_entered_occurs;
use crate::trail::lemma_occurrence_stays;
use crate::trail::lemma_trail_of_depth;
use crate::trail::lemma_trail_of_membership;
use crate::trail::occurs_in;
use crate::trail::trail_of;
use crate::trail::OccurrenceTrail;
use crate::trail::MAX_FORK_DEPTH;
use crate::trail::OCCURS_ENV;

verus! {

/// Exit code of a child whose body succeeded.
pub const EXIT_SUCCESS: i32 = 0;

/// Exit code of a child whose body failed or panicked: the conventional
/// code for an internal software error.
pub const EXIT_SOFTWARE: i32 = 70;

/// What a process is asked to do at a fork point.
#[derive(Debug, PartialEq, Eq)]
pub enum ForkPlan {
    /// The process is the child of this fork point: it runs the body itself
    /// and leaves with the body's exit code.
    RunBody,
    /// The process would be the parent, but its lineage is already too
    /// deep: nothing may be spawned.
    Refuse,
    /// The process is the parent: it spawns a child that inherits the given
    /// trail, and supervises it.
    Spawn(OccurrenceTrail),
}

/// Whether `plan` is the plan for a process with the trail `trail` at the
/// fork point `fork_id`, where a lineage may be `limit` fork points deep.
///
/// A process whose trail holds the identity of the fork point is its child
/// and runs the body. Any other process is its parent: it spawns a child
/// whose trail is its own with that identity at the end, unless its own
/// trail already holds `limit` entries or more, in which case it refuses.
pub open spec fn planned_within(
    trail: Seq<char>,
    fork_id: Seq<char>,
    limit: nat,
    plan: ForkPlan,
) -> bool {
    if occurs_in(trail, fork_id) {
        plan is RunBody
    } else if depth_of(trail) >= limit {
        plan is Refuse
    } else {
        plan matches ForkPlan::Spawn(child) && child@ == trail + fork_id
    }
}

/// Whether `plan` is the plan for a process with the trail `trail` at the
/// fork point `fork_id`, with the usual limit of [`MAX_FORK_DEPTH`].
pub open spec fn planned(trail: Seq<char>, fork_id: Seq<char>, plan: ForkPlan) -> bool {
    planned_within(trail, fork_id, MAX_FORK_DEPTH as nat, plan)
}

/// Decide what the current process does at the fork point `fork_id`, where
/// a lineage may be `limit` fork points deep.
pub fn plan_fork_within(trail: &OccurrenceTrail, fork_id: &str, limit: usize) -> (plan: ForkPlan)
    ensures
        planned_within(trail@, fork_id@, limit as nat, plan),
{
    if trail.contains(fork_id) {
        ForkPlan::RunBody
    } else if trail.depth() >= limit {
        ForkPlan::Refuse
    } else {
        ForkPlan::Spawn(trail.entered(fork_id))
    }
}

/// Decide what the current process does at the fork point `fork_id`.
///
/// A process whose trail holds the identity of the fork point is its child.
/// Any other process is its parent, and spawns a child whose trail is its
/// own with that identity at the end, unless its own trail already holds
/// [`MAX_FORK_DEPTH`] entries.
pub fn plan_fork(trail: &OccurrenceTrail, fork_id: &str) -> (plan: ForkPlan)
    ensures
        planned(trail@, fork_id@, plan),
{
    plan_fork_within(trail, fork_id, MAX_FORK_DEPTH)
}

/// A process whose lineage entered a fork point is the child of that fork
/// point, whatever its lineage entered before or since. So a grandchild,
/// which is no direct child of the outermost process, runs the body at the
/// outer fork point, reaches the nested one, and runs the body there too.
pub proof fn lemma_lineage_runs_body(
    before: Seq<char>,
    fork_id: Seq<char>,
    since: Seq<char>,
    plan: ForkPlan,
)
    requires
        planned(before + fork_id + since, fork_id, plan),
    ensures
        plan is RunBody,
{
    lemma_entered_occurs(before, fork_id);
    lemma_occurrence_stays(before + fork_id, fork_id, since);
}

/// At a fork point with digest `digest`, a process whose lineage entered
/// the fork points with the digests `digests` runs the body where `digest`
/// is among them. Where it is not, the process spawns a child whose lineage
/// is its own and then `digest`, unless its lineage is sixteen or more fork
/// points deep: then it refuses. So no lineage grows deeper than sixteen.
pub proof fn lemma_plan_of_lineage(digests: Seq<u64>, digest: u64, plan: ForkPlan)
    requires
        planned(trail_of(digests), identity_text(digest), plan),
    ensures
        digests.contains(digest) ==> plan is RunBody,
        !digests.contains(digest) && digests.len() >= MAX_FORK_DEPTH ==> plan is Refuse,
        !digests.contains(digest) && digests.len() < MAX_FORK_DEPTH ==> ({
            &&& plan matches ForkPlan::Spawn(child)
            &&& child@ == trail_of(digests.push(digest))
            &&& depth_of(child@) <= MAX_FORK_DEPTH
        }),
{
    lemma_trail_of_membership(digests, digest);
    lemma_trail_of_depth(digests);
    lemma_trail_of_depth(digests.push(digest));
    assert(digests.push(digest).drop_last() =~= digests);
}

/// How the body of a test ended in the child.
#[derive(Clone, Copy, Debug, PartialEq, Eq, Structural)]
pub enum BodyOutcome {
    /// The body returned; `success` is what its result reports.
    Completed { success: bool },
    /// The body panicked, and the panic was caught at the fork point.
    Panicked,
}

/// The exit code that stands for `outcome`.
pub open spec fn exit_code_of(outcome: BodyOutcome) -> i32 {
    match outcome {
        BodyOutcome::Completed { success: true } => EXIT_SUCCESS,
        _ => EXIT_SOFTWARE,
    }
}

/// The code with which the child leaves after its body ended in `outcome`.
pub fn child_exit_code(outcome: BodyOutcome) -> (code: i32)
    ensures
        code == exit_code_of(outcome),
{
    match outcome {
        BodyOutcome::Completed { success } => if success {
            EXIT_SUCCESS
        } else {
            EXIT_SOFTWARE
        },
        BodyOutcome::Panicked => EXIT_SOFTWARE,
    }
}

/// What becomes of one of the standard streams of a child.
#[derive(Clone, Copy, Debug, PartialEq, Eq, Structural)]
pub enum StreamDisposition {
    /// The stream is closed to the child.
    Suppressed,
    /// The stream is a pipe whose other end the parent holds.
    Captured,
    /// The stream is the parent's own.
    Inherited,
}

/// `std::path::PathBuf`, as a value that is carried along and never looked
/// into.
#[verifier::external_type_specification]
#[verifier::external_body]
pub struct ExPathBuf(std::path::PathBuf);

/// All that is needed to start a child, as plain values.
#[derive(Debug, PartialEq, Eq)]
pub struct SpawnDescriptor {
    /// The program to run: the executable that is running.
    pub program: PathBuf,
    /// The arguments of the child, in order.
    pub args: Vec<String>,
    /// The environment variables to set for the child, name and value, in
    /// the order in which they are to be set.
    pub env: Vec<(String, String)>,
    /// The child's standard input.
    pub stdin: StreamDisposition,
    /// The child's standard output.
    pub stdout: StreamDisposition,
    /// The child's standard error.
    pub stderr: StreamDisposition,
}

/// The names and values of a sequence of environment variables.
pub open spec fn bindings(env: Seq<(String, String)>) -> Seq<(Seq<char>, Seq<char>)> {
    env.map_values(|binding: (String, String)| (binding.0@, binding.1@))
}

impl SpawnDescriptor {
    /// The descriptor of the child that inherits `trail`.
    ///
    /// It runs `program`. Its arguments are those that the argument filter
    /// let through, then the flags that make the harness run a single test,
    /// then the name of that test. Its environment sets the trail. Its
    /// standard input is suppressed, its standard output and standard error
    /// are captured.
    pub fn new(
        program: PathBuf,
        trail: &OccurrenceTrail,
        forwarded: Vec<String>,
        run_test_args: &Vec<String>,
        test_name: &str,
    ) -> (descriptor: Self)
        ensures
            descriptor.program == program,
            texts(descriptor.args@) == (texts(forwarded@) + texts(run_test_args@)).push(
                test_name@,
            ),
            bindings(descriptor.env@) == seq![(OCCURS_ENV@, trail@)],
            descriptor.stdin == StreamDisposition::Suppressed,
            descriptor.stdout == StreamDisposition::Captured,
            descriptor.stderr == StreamDisposition::Captured,
    {
        let mut args = forwarded;
        let mut next: usize = 0;
        while next < run_test_args.len()
            invariant
                next <= run_test_args.len(),
                texts(args@) == texts(forwarded@) + texts(run_test_args@).take(next as int),
            decreases run_test_args.len() - next,
        {
            let ghost before = args@;
            args.push(run_test_args[next].clone());
            assert(texts(args@) =~= texts(before).push(run_test_args@[next as int]@));
            next = next + 1;
        }
        let ghost before = args@;
        args.push(test_name.to_owned());
        assert(texts(args@) =~= texts(before).push(test_name@));
        let mut env: Vec<(String, String)> = Vec::new();
        env.push((OCCURS_ENV.to_owned(), trail.as_str().to_owned()));
        SpawnDescriptor {
            program,
            args,
            env,
            stdin: StreamDisposition::Suppressed,
            stdout: StreamDisposition::Captured,
            stderr: StreamDisposition::Captured,
        }
    }
}

/// The configuration step of a caller that has nothing to configure: the
/// descriptor stays as it is.
pub fn no_configure_child(_child: &mut SpawnDescriptor)
    ensures
        *final(_child) == *old(_child),
{
}

} // verus!
