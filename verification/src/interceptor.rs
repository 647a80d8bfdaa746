//! Statement routing: decides, per host statement, whether the embedded
//! engines serve it or the host's own executor does.
//!
//! The decisions are pure functions of the statement and of the outcomes of
//! the outside steps (the write flush and the plan translation), so the whole
//! routing table is checked here; the surrounding process performs the
//! effects in the order the contracts fix.

use vstd::prelude::*;
use crate::statement::{CmdKind, Relation, Statement, spec_has_embedded, spec_is_bulk_load,
    has_embedded_relation, is_bulk_load};

verus! {

/// Where a statement goes before any translation is attempted.
#[derive(Clone, Copy, PartialEq, Eq, Structural, Debug)]
pub enum Route {
    /// An insert into an embedded-engine relation: the insert handler runs
    /// and the statement is fully serviced.
    RunInsert,
    /// The host's default executor serves the statement unchanged.
    Delegate,
    /// The source text is handed to the plan translator.
    Translate,
}

/// The routing rule. An insert targeting an embedded-engine relation takes
/// precedence over everything else; a statement is delegated when its range
/// table is empty, when it is any other insert, when no referenced relation
/// is embedded-engine-owned, or when the source text carries the bulk-load
/// prefix; everything else is translated.
pub open spec fn spec_route(op: CmdKind, rt: Seq<Relation>, src: Seq<u8>) -> Route {
    if op == CmdKind::Insert && spec_has_embedded(rt) {
        Route::RunInsert
    } else if rt.len() == 0 || op == CmdKind::Insert || !spec_has_embedded(rt)
        || spec_is_bulk_load(src) {
        Route::Delegate
    } else {
        Route::Translate
    }
}

/// Classifies one statement.
pub fn classify(stmt: &Statement) -> (r: Route)
    ensures
        r == spec_route(stmt.op, stmt.rtable@, stmt.source@),
{
    let embedded = has_embedded_relation(&stmt.rtable);
    if stmt.op == CmdKind::Insert && embedded {
        Route::RunInsert
    } else if stmt.rtable.len() == 0 || stmt.op == CmdKind::Insert || !embedded || is_bulk_load(
        &stmt.source,
    ) {
        Route::Delegate
    } else {
        Route::Translate
    }
}

/// What runs once translation has succeeded.
#[derive(Clone, Copy, PartialEq, Eq, Structural, Debug)]
pub enum PlanAction {
    /// The search execution path materializes the plan.
    RunSearch,
    /// The delete handler runs over the range table and the plan.
    RunDelete,
    /// Updates on embedded-engine relations are refused outright.
    RejectUpdate,
    /// Any other operation kind falls through to the host.
    Delegate,
}

/// The post-translation dispatch table, keyed by operation kind alone.
pub open spec fn spec_dispatch(op: CmdKind) -> PlanAction {
    match op {
        CmdKind::Select => PlanAction::RunSearch,
        CmdKind::Delete => PlanAction::RunDelete,
        CmdKind::Update => PlanAction::RejectUpdate,
        _ => PlanAction::Delegate,
    }
}

/// Dispatches a translated statement by its operation kind.
pub fn dispatch(op: CmdKind) -> (r: PlanAction)
    ensures
        r == spec_dispatch(op),
{
    match op {
        CmdKind::Select => PlanAction::RunSearch,
        CmdKind::Delete => PlanAction::RunDelete,
        CmdKind::Update => PlanAction::RejectUpdate,
        _ => PlanAction::Delegate,
    }
}

/// How one statement ends: which single handler ran, or which failure
/// stopped it.
#[derive(Clone, Copy, PartialEq, Eq, Structural, Debug)]
pub enum InterceptOutcome {
    /// The pending-write flush failed; nothing else ran.
    CommitFailure,
    /// The insert handler serviced the statement.
    Inserted,
    /// The continuation (the host's default executor) ran, exactly once.
    Delegated,
    /// The search execution path serviced the statement.
    Searched,
    /// The delete handler serviced the statement.
    Deleted,
    /// An update on an embedded-engine relation was refused.
    UnsupportedUpdate,
}

/// How often the continuation runs under an outcome: exactly once when the
/// statement is delegated, never otherwise.
pub open spec fn continuation_calls(o: InterceptOutcome) -> nat {
    if o == InterceptOutcome::Delegated {
        1
    } else {
        0
    }
}

/// How often the write coordinator's flush runs: exactly once when writes
/// are pending, never otherwise.
pub open spec fn flush_calls(writes_pending: bool) -> nat {
    if writes_pending {
        1
    } else {
        0
    }
}

/// The whole interception flow as a function of the statement and of the
/// outside outcomes: whether writes were pending, whether the flush
/// completed, and whether the translator accepted the source text.
pub open spec fn spec_intercept(
    op: CmdKind,
    rt: Seq<Relation>,
    src: Seq<u8>,
    writes_pending: bool,
    flush_ok: bool,
    translate_ok: bool,
) -> InterceptOutcome {
    if writes_pending && !flush_ok {
        InterceptOutcome::CommitFailure
    } else {
        match spec_route(op, rt, src) {
            Route::RunInsert => InterceptOutcome::Inserted,
            Route::Delegate => InterceptOutcome::Delegated,
            Route::Translate => {
                if !translate_ok {
                    InterceptOutcome::Delegated
                } else {
                    match spec_dispatch(op) {
                        PlanAction::RunSearch => InterceptOutcome::Searched,
                        PlanAction::RunDelete => InterceptOutcome::Deleted,
                        PlanAction::RejectUpdate => InterceptOutcome::UnsupportedUpdate,
                        PlanAction::Delegate => InterceptOutcome::Delegated,
                    }
                }
            },
        }
    }
}

/// Runs the interception flow over the given outside outcomes and returns
/// how the statement ends.
pub fn intercept(stmt: &Statement, writes_pending: bool, flush_ok: bool, translate_ok: bool) -> (r:
    InterceptOutcome)
    ensures
        r == spec_intercept(stmt.op, stmt.rtable@, stmt.source@, writes_pending, flush_ok,
            translate_ok),
{
    if writes_pending && !flush_ok {
        return InterceptOutcome::CommitFailure;
    }
    match classify(stmt) {
        Route::RunInsert => InterceptOutcome::Inserted,
        Route::Delegate => InterceptOutcome::Delegated,
        Route::Translate => {
            if !translate_ok {
                InterceptOutcome::Delegated
            } else {
                match dispatch(stmt.op) {
                    PlanAction::RunSearch => InterceptOutcome::Searched,
                    PlanAction::RunDelete => InterceptOutcome::Deleted,
                    PlanAction::RejectUpdate => InterceptOutcome::UnsupportedUpdate,
                    PlanAction::Delegate => InterceptOutcome::Delegated,
                }
            }
        },
    }
}

/// A failure surfaced by the interceptor.
#[derive(Clone, Copy, PartialEq, Eq, Structural, Debug)]
pub enum EngineError {
    /// The pending-write flush failed before any read executed.
    Commit,
    /// An update on an embedded-engine relation is not supported.
    UnsupportedOperation,
    /// A handler failed after translation succeeded.
    Execution,
}

/// The result a statement ends with, given how it was routed and whether the
/// handler that ran succeeded. Delegation always reports success: once the
/// continuation has run, the statement is the host's business.
pub open spec fn spec_executor_result(o: InterceptOutcome, handler_ok: bool) -> Result<
    InterceptOutcome,
    EngineError,
> {
    match o {
        InterceptOutcome::CommitFailure => Err(EngineError::Commit),
        InterceptOutcome::Delegated => Ok(InterceptOutcome::Delegated),
        InterceptOutcome::UnsupportedUpdate => Err(EngineError::UnsupportedOperation),
        _ => if handler_ok {
            Ok(o)
        } else {
            Err(EngineError::Execution)
        },
    }
}

/// The executor hook: flush pending writes, classify, translate, dispatch.
/// `writes_pending`, `flush_ok`, `translate_ok` and `handler_ok` are the
/// outcomes of the outside steps, in the order the flow consults them; the
/// returned value fixes which single handler ran and what the caller is
/// told. Failures after a successful translation are surfaced, never
/// swallowed; translation failure is not an error but a fallback to the
/// host.
pub fn executor_run(
    stmt: &Statement,
    writes_pending: bool,
    flush_ok: bool,
    translate_ok: bool,
    handler_ok: bool,
) -> (r: Result<InterceptOutcome, EngineError>)
    ensures
        r == spec_executor_result(
            spec_intercept(stmt.op, stmt.rtable@, stmt.source@, writes_pending, flush_ok,
                translate_ok),
            handler_ok,
        ),
        r matches Err(e) && e == EngineError::Commit <==> writes_pending && !flush_ok,
{
    let outcome = intercept(stmt, writes_pending, flush_ok, translate_ok);
    match outcome {
        InterceptOutcome::CommitFailure => Err(EngineError::Commit),
        InterceptOutcome::Delegated => Ok(InterceptOutcome::Delegated),
        InterceptOutcome::UnsupportedUpdate => Err(EngineError::UnsupportedOperation),
        _ => if handler_ok {
            Ok(outcome)
        } else {
            Err(EngineError::Execution)
        },
    }
}

/// Source text the dialect rejects is delegated: on any statement that is
/// not an embedded-engine insert, a failed translation means the
/// continuation runs exactly once and the statement ends successfully.
pub proof fn lemma_parse_failure_falls_open(
    op: CmdKind,
    rt: Seq<Relation>,
    src: Seq<u8>,
    writes_pending: bool,
    flush_ok: bool,
)
    requires
        writes_pending ==> flush_ok,
        spec_route(op, rt, src) != Route::RunInsert,
    ensures
        spec_intercept(op, rt, src, writes_pending, flush_ok, false)
            == InterceptOutcome::Delegated,
        continuation_calls(spec_intercept(op, rt, src, writes_pending, flush_ok, false)) == 1,
        spec_executor_result(
            spec_intercept(op, rt, src, writes_pending, flush_ok, false),
            false,
        ) is Ok,
{
}

/// A statement whose range table holds no embedded-engine relation is always
/// delegated, whatever its operation kind and source text.
pub proof fn lemma_no_embedded_relation_delegates(
    op: CmdKind,
    rt: Seq<Relation>,
    src: Seq<u8>,
    writes_pending: bool,
    flush_ok: bool,
    translate_ok: bool,
)
    requires
        writes_pending ==> flush_ok,
        !spec_has_embedded(rt),
    ensures
        spec_intercept(op, rt, src, writes_pending, flush_ok, translate_ok)
            == InterceptOutcome::Delegated,
{
}

/// An insert into an embedded-engine relation always runs the insert handler
/// and never the continuation, even when other relations in the range table
/// are host-owned.
pub proof fn lemma_insert_embedded_runs_handler(
    rt: Seq<Relation>,
    src: Seq<u8>,
    writes_pending: bool,
    flush_ok: bool,
    translate_ok: bool,
)
    requires
        writes_pending ==> flush_ok,
        spec_has_embedded(rt),
    ensures
        spec_intercept(CmdKind::Insert, rt, src, writes_pending, flush_ok, translate_ok)
            == InterceptOutcome::Inserted,
        continuation_calls(
            spec_intercept(CmdKind::Insert, rt, src, writes_pending, flush_ok, translate_ok),
        ) == 0,
{
}

/// An update on an embedded-engine relation whose text the translator
/// accepts (and which does not carry the bulk-load prefix) is refused as
/// unsupported; the continuation never runs.
pub proof fn lemma_update_embedded_unsupported(
    rt: Seq<Relation>,
    src: Seq<u8>,
    writes_pending: bool,
    flush_ok: bool,
    handler_ok: bool,
)
    requires
        writes_pending ==> flush_ok,
        spec_has_embedded(rt),
        !spec_is_bulk_load(src),
    ensures
        spec_intercept(CmdKind::Update, rt, src, writes_pending, flush_ok, true)
            == InterceptOutcome::UnsupportedUpdate,
        continuation_calls(
            spec_intercept(CmdKind::Update, rt, src, writes_pending, flush_ok, true),
        ) == 0,
        spec_executor_result(
            spec_intercept(CmdKind::Update, rt, src, writes_pending, flush_ok, true),
            handler_ok,
        ) == Err::<InterceptOutcome, EngineError>(EngineError::UnsupportedOperation),
{
    let i = choose|i: int| 0 <= i < rt.len() && rt[i].embedded;
    assert(rt.len() > 0);
}

/// Pending writes are flushed exactly once, before anything else: a failed
/// flush stops the statement with a commit failure, and neither a handler
/// nor the continuation runs.
pub proof fn lemma_flush_gates_read_path(
    op: CmdKind,
    rt: Seq<Relation>,
    src: Seq<u8>,
    translate_ok: bool,
)
    ensures
        flush_calls(true) == 1,
        flush_calls(false) == 0,
        spec_intercept(op, rt, src, true, false, translate_ok) == InterceptOutcome::CommitFailure,
        continuation_calls(spec_intercept(op, rt, src, true, false, translate_ok)) == 0,
{
}

/// Source text with the bulk-load prefix is always delegated, whatever the
/// range table holds — except that an insert into an embedded-engine
/// relation still takes precedence.
pub proof fn lemma_bulk_load_delegates(
    op: CmdKind,
    rt: Seq<Relation>,
    src: Seq<u8>,
    writes_pending: bool,
    flush_ok: bool,
    translate_ok: bool,
)
    requires
        writes_pending ==> flush_ok,
        spec_is_bulk_load(src),
        !(op == CmdKind::Insert && spec_has_embedded(rt)),
    ensures
        spec_intercept(op, rt, src, writes_pending, flush_ok, translate_ok)
            == InterceptOutcome::Delegated,
{
}

} // verus!
