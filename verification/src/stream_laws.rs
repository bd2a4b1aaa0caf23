//! What a frontend takes over, and in which order.

use vstd::prelude::*;

use crate::frontend;
use crate::frontend::{OutputAction, RunView};
use crate::renderer::PresentationStreamState;
use crate::session::{
    FrontendServiceRequest, PresentationDelta, PresentationUpdate, SessionOutput,
};

verus! {

/// A delta is taken over exactly where it leads from what is shown to what comes
/// right behind it. A full snapshot always is.
pub proof fn taken_deltas_lead_on(state: PresentationStreamState, delta: PresentationDelta)
    requires
        delta.base_revision.0 < u64::MAX,
    ensures
        state.refusal(PresentationUpdate::Delta(delta)) is None <==> {
            &&& state.current matches Some(shown)
            &&& shown.epoch == delta.epoch
            &&& shown.revision == delta.base_revision
            &&& delta.revision.0 == shown.revision.0 + 1
            &&& delta.snapshot.epoch == delta.epoch
            &&& delta.snapshot.revision == delta.revision
        },
        state.refusal(PresentationUpdate::Full(delta.snapshot)) is None,
{
}

/// Whether an output brings nothing: it has no request, and no update but one
/// that a full snapshot already holds.
pub open spec fn brings_nothing(run: RunView, output: SessionOutput) -> bool {
    &&& output.frontend_requests@.len() == 0
    &&& output.presentation matches Some(update) ==> frontend::is_stale(update, run.recovered)
}

/// Updates are shown in the order in which they came, and none is passed over
/// but those that a full snapshot already holds. The requests that came with an
/// update are answered next.
pub proof fn updates_are_shown_in_order(run: RunView, update: PresentationUpdate) -> (k: int)
    requires
        frontend::advanced(run).1 == OutputAction::Accept(update),
    ensures
        run.requests.len() == 0,
        0 <= k < run.pending.len(),
        run.pending[k].presentation == Some(update),
        forall|j: int| 0 <= j < k ==> brings_nothing(run, #[trigger] run.pending[j]),
        frontend::advanced(run).0.pending == run.pending.skip(k + 1),
        frontend::advanced(run).0.requests == run.pending[k].frontend_requests@,
    decreases run.pending.len(),
{
    let output = run.pending[0];
    let opened = opened_by(run);
    if output.presentation matches Some(u) && !frontend::is_stale(u, run.recovered) {
        0
    } else {
        let k = updates_are_shown_in_order(opened, update);
        assert(run.pending.skip(1).skip(k + 1) =~= run.pending.skip(k + 2));
        assert forall|j: int| 0 <= j < k + 1 implies brings_nothing(
            run,
            #[trigger] run.pending[j],
        ) by {
            if j > 0 {
                assert(opened.pending[j - 1] == run.pending[j]);
                assert(brings_nothing(opened, opened.pending[j - 1]));
            }
        }
        k + 1
    }
}

spec fn opened_by(run: RunView) -> RunView {
    let output = run.pending[0];
    RunView {
        pending: run.pending.skip(1),
        applied: run.applied + 1,
        requests: output.frontend_requests@,
        quit: run.quit || frontend::holds_end(output.lifecycle@),
        ..run
    }
}

/// The requests of an output are answered in order, before the next output is
/// taken.
pub proof fn requests_are_answered_in_order(run: RunView, request: FrontendServiceRequest)
    requires
        run.requests.len() > 0,
        frontend::advanced(run).1 == OutputAction::Handle(request),
    ensures
        run.requests == seq![request] + frontend::advanced(run).0.requests,
        frontend::advanced(run).0.pending == run.pending,
{
    assert(run.requests =~= seq![request] + run.requests.skip(1));
}

/// A run is done when nothing is left of it. It then says that the session ends
/// exactly where that was told, before or in one of its outputs.
pub proof fn done_runs_tell_of_the_end(run: RunView, quit: bool)
    requires
        frontend::advanced(run).1 == OutputAction::Finish(quit),
    ensures
        run.requests.len() == 0,
        forall|j: int| 0 <= j < run.pending.len() ==> brings_nothing(run, #[trigger] run.pending[j]),
        quit <==> run.quit || exists|j: int|
            0 <= j < run.pending.len() && frontend::holds_end(
                (#[trigger] run.pending[j]).lifecycle@,
            ),
    decreases run.pending.len(),
{
    if run.pending.len() > 0 {
        let opened = opened_by(run);
        done_runs_tell_of_the_end(opened, quit);
        assert forall|j: int| 0 <= j < run.pending.len() implies brings_nothing(
            run,
            #[trigger] run.pending[j],
        ) by {
            if j > 0 {
                assert(opened.pending[j - 1] == run.pending[j]);
                assert(brings_nothing(opened, opened.pending[j - 1]));
            }
        }
        if quit && !run.quit && !frontend::holds_end(run.pending[0].lifecycle@) {
            let j = choose|j: int|
                0 <= j < opened.pending.len() && frontend::holds_end(
                    (#[trigger] opened.pending[j]).lifecycle@,
                );
            assert(run.pending[j + 1] == opened.pending[j]);
        }
        if exists|j: int|
            0 <= j < run.pending.len() && frontend::holds_end(
                (#[trigger] run.pending[j]).lifecycle@,
            ) {
            let j = choose|j: int|
                0 <= j < run.pending.len() && frontend::holds_end(
                    (#[trigger] run.pending[j]).lifecycle@,
                );
            if j > 0 {
                assert(opened.pending[j - 1] == run.pending[j]);
            }
        }
    }
}

} // verus!
