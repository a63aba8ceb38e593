//! Stages that transform a graph, and their composition. A stage is a
//! function of a graph and the parameters of a request that gives both back,
//! the graph transformed, or fails. A pipeline runs its stages in the order
//! given, each on what the one before it gave, and stops at the first stage
//! that fails.

use crate::errors::{GraphError, GraphErrorView};
use crate::versioned_graph::{content_type_of, shaped, InternalIO, VersionedGraph};
use crate::versions::{resolved_version, VersionTable};
use vstd::prelude::*;

verus! {

/// The stage that gives a graph the shape of the schema version that the
/// request negotiated.
#[derive(Debug)]
pub struct ShapeForVersion {
    pub table: VersionTable,
}

impl ShapeForVersion {
    /// Runs the stage. The parameters are handed on as they came. The stage
    /// fails only for a table that lacks its own default media type.
    pub fn run(&self, io: InternalIO) -> (r: Result<InternalIO, GraphError>)
        ensures
            match resolved_version(self.table@, content_type_of(io.parameters@)) {
                Some(version) => r matches Ok(out) && out.graph@ == shaped(io.graph@, version)
                    && out.parameters == io.parameters,
                None => r matches Err(e) && e@ == GraphErrorView::MissingMinimumVersion,
            },
    {
        match VersionedGraph::versioned_graph_by(&self.table, &io) {
            Ok(versioned) => Ok(InternalIO { graph: versioned.graph, parameters: io.parameters }),
            Err(e) => Err(e),
        }
    }
}

/// Whether `r` can come of running `stages` in order on `io`: `r` is what the
/// last stage gives for what the stages before it gave, or the failure of the
/// first stage that fails.
pub open spec fn runs_to<F: Fn(InternalIO) -> Result<InternalIO, GraphError>>(
    stages: Seq<F>,
    io: InternalIO,
    r: Result<InternalIO, GraphError>,
) -> bool
    decreases stages.len(),
{
    if stages.len() == 0 {
        r == Ok::<InternalIO, GraphError>(io)
    } else {
        exists|step: Result<InternalIO, GraphError>| #[trigger]
            call_ensures(stages[0], (io,), step) && match step {
                Ok(next) => runs_to(stages.drop_first(), next, r),
                Err(e) => r == Err::<InternalIO, GraphError>(e),
            }
    }
}

/// Runs the stages in order. The failure of a stage is handed back as the
/// stage gave it, and with it nothing of what the stages before it made.
pub fn run_pipeline<F: Fn(InternalIO) -> Result<InternalIO, GraphError>>(
    stages: &Vec<F>,
    io: InternalIO,
) -> (r: Result<InternalIO, GraphError>)
    requires
        forall|i: int, given: InternalIO|
            0 <= i < stages@.len() ==> #[trigger] call_requires(stages@[i], (given,)),
    ensures
        runs_to(stages@, io, r),
{
    let ghost first = io;
    let mut current = io;
    let mut i: usize = 0;
    assert(stages@.skip(0) =~= stages@);
    while i < stages.len()
        invariant
            i <= stages.len(),
            first == io,
            forall|k: int, given: InternalIO|
                0 <= k < stages@.len() ==> #[trigger] call_requires(stages@[k], (given,)),
            forall|r: Result<InternalIO, GraphError>| #[trigger]
                runs_to(stages@.skip(i as int), current, r) ==> runs_to(stages@, first, r),
        decreases stages.len() - i,
    {
        let ghost rest = stages@.skip(i as int);
        let ghost before = current;
        assert(rest[0] == stages@[i as int]);
        assert(rest.drop_first() =~= stages@.skip(i + 1));
        let step = (stages[i])(current);
        match step {
            Ok(next) => {
                assert forall|r: Result<InternalIO, GraphError>| #[trigger]
                    runs_to(stages@.skip(i + 1), next, r) implies runs_to(stages@, first, r) by {
                    assert(call_ensures(rest[0], (before,), step));
                    assert(runs_to(rest, before, r));
                }
                current = next;
            },
            Err(e) => {
                assert(call_ensures(rest[0], (before,), step));
                assert(runs_to(rest, before, Err::<InternalIO, GraphError>(e)));
                return Err(e);
            },
        }
        i = i + 1;
    }
    assert(runs_to(stages@.skip(i as int), current, Ok::<InternalIO, GraphError>(current)));
    Ok(current)
}

/// A pipeline without stages gives back what it was given.
pub proof fn lemma_empty_pipeline<F: Fn(InternalIO) -> Result<InternalIO, GraphError>>(
    stages: Seq<F>,
    io: InternalIO,
    r: Result<InternalIO, GraphError>,
)
    requires
        stages.len() == 0,
    ensures
        runs_to(stages, io, r) <==> r == Ok::<InternalIO, GraphError>(io),
{
}

/// A pipeline gives what its later stages give for what its first stage
/// gave, or the failure of its first stage.
pub proof fn lemma_pipeline_unfolds<F: Fn(InternalIO) -> Result<InternalIO, GraphError>>(
    stages: Seq<F>,
    io: InternalIO,
    r: Result<InternalIO, GraphError>,
)
    requires
        stages.len() > 0,
    ensures
        runs_to(stages, io, r) <==> exists|step: Result<InternalIO, GraphError>| #[trigger]
            call_ensures(stages[0], (io,), step) && match step {
                Ok(next) => runs_to(stages.drop_first(), next, r),
                Err(e) => r == Err::<InternalIO, GraphError>(e),
            },
{
}

/// Running one pipeline and then another on what the first gave is running
/// the two as one. Where the first fails, the two as one fail in the same way.
pub proof fn lemma_pipeline_composes<F: Fn(InternalIO) -> Result<InternalIO, GraphError>>(
    front: Seq<F>,
    back: Seq<F>,
    io: InternalIO,
    between: Result<InternalIO, GraphError>,
    r: Result<InternalIO, GraphError>,
)
    requires
        runs_to(front, io, between),
        match between {
            Ok(next) => runs_to(back, next, r),
            Err(e) => r == Err::<InternalIO, GraphError>(e),
        },
    ensures
        runs_to(front + back, io, r),
    decreases front.len(),
{
    if front.len() == 0 {
        assert(front + back =~= back);
    } else {
        let all = front + back;
        assert(all[0] == front[0]);
        assert(all.drop_first() =~= front.drop_first() + back);
        let step = choose|step: Result<InternalIO, GraphError>| #[trigger]
            call_ensures(front[0], (io,), step) && match step {
                Ok(next) => runs_to(front.drop_first(), next, between),
                Err(e) => between == Err::<InternalIO, GraphError>(e),
            };
        match step {
            Ok(next) => {
                lemma_pipeline_composes(front.drop_first(), back, next, between, r);
            },
            Err(_) => {},
        }
        assert(call_ensures(all[0], (io,), step));
    }
}

/// The failure of a stage, on what the stages before it gave, is the failure
/// of the pipeline, whatever stages follow.
pub proof fn lemma_pipeline_stops_at_failure<F: Fn(InternalIO) -> Result<InternalIO, GraphError>>(
    stages: Seq<F>,
    failing: int,
    io: InternalIO,
    reached: InternalIO,
    failure: GraphError,
)
    requires
        0 <= failing < stages.len(),
        runs_to(stages.take(failing), io, Ok::<InternalIO, GraphError>(reached)),
        call_ensures(stages[failing], (reached,), Err::<InternalIO, GraphError>(failure)),
    ensures
        runs_to(stages, io, Err::<InternalIO, GraphError>(failure)),
{
    let front = stages.take(failing);
    let back = stages.skip(failing);
    assert(front + back =~= stages);
    assert(back[0] == stages[failing]);
    assert(runs_to(back, reached, Err::<InternalIO, GraphError>(failure)));
    lemma_pipeline_composes(
        front,
        back,
        io,
        Ok::<InternalIO, GraphError>(reached),
        Err::<InternalIO, GraphError>(failure),
    );
}

} // verus!
