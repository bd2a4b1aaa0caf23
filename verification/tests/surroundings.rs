use roe_core::buffer::Buffer;
use roe_core::buffer_host::{ActionRun, BufferHost, BufferResponse, EditorAction, ModeChain, NextStep, Progress};
use roe_core::frontend::{
    report_lifecycle, FrontendOutputError, LocalFrontendServices, OutputAction, OutputEvent,
    OutputRun, ServiceStep,
};
use roe_core::ids::BufferId;
use roe_core::mode::{ActionPosition, ModeAction, ModeResult};
use roe_core::renderer::{DirtyRegion, PresentationStreamError, PresentationStreamState};
use roe_core::session::{
    FrontendServiceRequest, FrontendServiceResponse, LifecycleEvent, PresentationDelta,
    PresentationSnapshot, PresentationUpdate, Revision, SessionEpoch, SessionOutput,
};

fn snapshot(epoch: u64, revision: u64) -> PresentationSnapshot {
    PresentationSnapshot {
        epoch: SessionEpoch(epoch),
        revision: Revision(revision),
        rows: vec![format!("row {revision}")],
    }
}

fn delta(epoch: u64, base: u64, revision: u64) -> PresentationUpdate {
    PresentationUpdate::Delta(PresentationDelta {
        epoch: SessionEpoch(epoch),
        base_revision: Revision(base),
        revision: Revision(revision),
        snapshot: snapshot(epoch, revision),
    })
}

fn host(content: &str) -> BufferHost {
    let mut b = Buffer::new(&[]);
    b.set_object("notes.txt".to_string());
    b.load_str(content);
    BufferHost::new(b, BufferId::from_bits(0x1_0000_0001).unwrap())
}

#[test]
fn a_full_snapshot_starts_the_stream_and_deltas_follow() {
    let mut stream = PresentationStreamState::new();
    assert!(matches!(
        stream.apply(&delta(1, 0, 1)),
        Err(PresentationStreamError::EpochGap { .. }) | Err(PresentationStreamError::RevisionGap { .. })
    ));
    assert!(stream.apply(&PresentationUpdate::Full(snapshot(1, 4))).is_ok());
    assert!(stream.apply(&delta(1, 4, 5)).is_ok());
    assert_eq!(stream.current().unwrap().revision, Revision(5));
    // The same delta does not apply twice.
    assert!(matches!(
        stream.apply(&delta(1, 4, 5)),
        Err(PresentationStreamError::RevisionGap { .. })
    ));
    assert!(matches!(
        stream.apply(&delta(2, 5, 6)),
        Err(PresentationStreamError::EpochGap { .. })
    ));
    assert!(matches!(
        stream.apply(&delta(1, 5, 5)),
        Err(PresentationStreamError::NonMonotonic { .. })
    ));
    // A full snapshot gets the stream in step again.
    assert!(stream.apply(&PresentationUpdate::Full(snapshot(9, 1))).is_ok());
    assert!(stream.apply(&delta(9, 1, 2)).is_ok());
}

#[test]
fn a_delta_must_carry_its_own_snapshot() {
    let mut stream = PresentationStreamState::new();
    assert!(stream.apply(&PresentationUpdate::Full(snapshot(1, 1))).is_ok());
    let PresentationUpdate::Delta(mut d) = delta(1, 1, 2) else {
        unreachable!();
    };
    d.snapshot.revision = Revision(7);
    assert!(matches!(
        stream.apply(&PresentationUpdate::Delta(d)),
        Err(PresentationStreamError::SnapshotMismatch)
    ));
    assert_eq!(stream.current().unwrap().revision, Revision(1));
}

#[test]
fn a_request_to_quit_is_reported() {
    assert!(report_lifecycle(&vec![LifecycleEvent::Attached, LifecycleEvent::QuitRequested]));
    assert!(!report_lifecycle(&vec![LifecycleEvent::Warning("x".to_string())]));
}

#[test]
fn an_output_is_shown_then_its_requests_are_handled() {
    let output = SessionOutput {
        lifecycle: vec![],
        presentation: Some(PresentationUpdate::Full(snapshot(1, 1))),
        frontend_requests: vec![FrontendServiceRequest::ReadClipboard { request_id: 3 }],
    };
    let mut run = OutputRun::new(output);
    assert!(matches!(run.step(OutputEvent::Start), OutputAction::Accept(_)));
    assert!(matches!(
        run.step(OutputEvent::Accepted),
        OutputAction::Handle(FrontendServiceRequest::ReadClipboard { request_id: 3 })
    ));
    let last = SessionOutput {
        lifecycle: vec![LifecycleEvent::QuitRequested],
        presentation: None,
        frontend_requests: vec![],
    };
    assert!(matches!(run.step(OutputEvent::Completed(last)), OutputAction::Finish(true)));
}

#[test]
fn a_refused_delta_is_recovered_from() {
    let output = SessionOutput {
        lifecycle: vec![],
        presentation: Some(delta(1, 3, 4)),
        frontend_requests: vec![],
    };
    let mut run = OutputRun::new(output);
    assert!(matches!(run.step(OutputEvent::Start), OutputAction::Accept(_)));
    let gap = PresentationStreamError::RevisionGap {
        received: Revision(3),
        expected: Revision(1),
    };
    assert!(matches!(run.step(OutputEvent::Refused(gap)), OutputAction::Recover));
    let bare = SessionOutput { lifecycle: vec![], presentation: None, frontend_requests: vec![] };
    assert!(matches!(
        run.step(OutputEvent::Recovered(bare)),
        OutputAction::Fail(FrontendOutputError::MissingSnapshot)
    ));
}

#[test]
fn the_clipboard_is_read_and_written() {
    let services = LocalFrontendServices::new(Ok(()));
    assert!(matches!(
        services.handle(FrontendServiceRequest::ReadClipboard { request_id: 1 }),
        ServiceStep::ReadClipboard
    ));
    let write = FrontendServiceRequest::WriteClipboard { request_id: 2, contents: "x".to_string() };
    assert!(matches!(services.handle(write), ServiceStep::WriteClipboard(s) if s == "x"));
    let read = services.read_done(1, Ok("y".to_string()));
    assert_eq!(read.request_id, 1);
    assert!(matches!(
        read.result,
        Ok(FrontendServiceResponse::ClipboardContents(Some(s))) if s == "y"
    ));
    assert!(services.write_done(2, Err("no".to_string())).result.is_err());
    let without = LocalFrontendServices::new(Err("no display".to_string()));
    let ServiceStep::Answer(answer) =
        without.handle(FrontendServiceRequest::ReadClipboard { request_id: 5 })
    else {
        panic!("answered at once");
    };
    assert_eq!(answer.request_id, 5);
    assert!(answer.result.is_err());
}

#[test]
fn modes_are_asked_until_one_takes_the_key() {
    let mut chain = ModeChain::new();
    assert!(chain.take(Ok(ModeResult::Ignored)));
    assert!(chain.take(Ok(ModeResult::Annotated(vec![ModeAction::SetMark]))));
    assert!(chain.take(Err("gone".to_string())));
    assert!(!chain.take(Ok(ModeResult::Consumed(vec![ModeAction::Save]))));
    assert_eq!(chain.actions.len(), 2);
}

#[test]
fn actions_change_the_buffer_and_move_the_cursor() {
    let mut h = host("ab");
    let mut run = ActionRun::new(
        vec![
            ModeAction::InsertText(ActionPosition::Cursor, "xy".to_string()),
            ModeAction::DeleteText(ActionPosition::Cursor, -1),
        ],
        1,
    );
    assert!(matches!(h.execute_actions(&mut run), NextStep::Finished));
    assert_eq!(h.buffer.content(), "axb");
    let BufferResponse::ActionsCompleted { new_cursor_pos, editor_action, .. } = h.finish(run) else {
        panic!("the actions are done");
    };
    assert_eq!(new_cursor_pos, Some(2));
    assert!(editor_action.is_none());
}

#[test]
fn actions_stop_for_a_save_and_for_an_evaluation() {
    let mut h = host("1 + 1");
    let mut run = ActionRun::new(
        vec![
            ModeAction::EvalJulia("1 + 1".to_string()),
            ModeAction::Save,
            ModeAction::ExecuteCommand("quit".to_string()),
        ],
        0,
    );
    assert!(matches!(h.execute_actions(&mut run), NextStep::Evaluate(s) if s == "1 + 1"));
    h.evaluated(&mut run, Some(Ok("2".to_string())));
    assert!(matches!(h.execute_actions(&mut run), NextStep::Save));
    assert!(matches!(h.execute_actions(&mut run), NextStep::Finished));
    assert!(h.buffer.content().contains('2'));
    let BufferResponse::ActionsCompleted { editor_action, .. } = h.finish(run) else {
        panic!("the actions are done");
    };
    assert!(matches!(editor_action, Some(EditorAction::ExecuteCommand(c)) if c == "quit"));
}

#[test]
fn a_buffer_is_saved_and_loaded() {
    let mut h = host("text");
    assert_eq!(h.save_request(), ("notes.txt".to_string(), "text".to_string()));
    assert!(matches!(h.saved(Ok(())), BufferResponse::Saved(p) if p == "notes.txt"));
    assert!(matches!(
        h.saved(Err("full".to_string())),
        BufferResponse::Error(m) if m == "Save failed: full"
    ));
    assert!(matches!(
        h.loaded("other.txt".to_string(), Ok("new".to_string())),
        BufferResponse::Loaded(p) if p == "other.txt"
    ));
    assert_eq!(h.buffer.content(), "new");
    assert!(matches!(
        h.loaded("gone.txt".to_string(), Err("missing".to_string())),
        BufferResponse::Error(m) if m == "Load failed: missing"
    ));
    assert_eq!(h.buffer.content(), "new");
}

#[test]
fn actions_at_absolute_positions_take_a_row_and_a_column() {
    let mut h = host("Hello\nWorld\nTest");
    let id = h.buffer_id;
    let mut p = Progress {
        cursor: 0,
        dirty_regions: vec![],
        new_cursor_pos: None,
        editor_action: None,
        buffer_changed: false,
    };
    h.act(&mut p, ModeAction::InsertText(ActionPosition::Absolute(1, 0), "X".to_string()));
    assert_eq!(h.buffer.content(), "Hello\nXWorld\nTest");
    let at = |row, col| ModeAction::InsertText(ActionPosition::Absolute(row, col), "Y".to_string());
    assert!(h.admits(&p, &at(2, 4)));
    assert!(!h.admits(&p, &at(2, 5)));
    assert!(!h.admits(&p, &at(9, 0)));
    h.act(&mut p, ModeAction::DeleteText(ActionPosition::Absolute(2, 1), 2));
    assert_eq!(h.buffer.content(), "Hello\nXWorld\nTt");
    assert_eq!(
        p.dirty_regions,
        vec![
            DirtyRegion::Line { buffer_id: id, line: 1 },
            DirtyRegion::Line { buffer_id: id, line: 2 },
        ]
    );
}
