use roe_core::native_io::{
    cancelled, check_write, finish_read, next_chunk_len, settle_process, take_chunk, take_output,
    DirectoryScan, IoOwner, CHUNK_BYTES, MAX_IO_BYTES, MAX_IO_NAME_BYTES, MAX_IO_REQUESTS,
};
use roe_core::native_kernel::{
    validate_layout, Capability, CapabilityGrants, IoErrorKind, KernelError, LayoutNode,
    LogicalLayout, NativeAnswers, NativeKernel, NativeOperation, NativeResult, NativeWatchNotification,
    ResourceId, SplitAxis, TextSelection, ViewId, MAX_DIRECTORY_ENTRIES,
};

fn kernel() -> NativeKernel {
    NativeKernel::new(CapabilityGrants::editor_default())
}

fn create(kernel: &mut NativeKernel, text: &str) -> ResourceId {
    let made = kernel.execute(
        NativeOperation::CreateText { name: "t".to_string(), initial: text.to_string() },
        NativeAnswers::none(),
    );
    match made {
        Ok(NativeResult::ResourceCreated(id)) => id,
        other => panic!("no resource: {other:?}"),
    }
}

#[test]
fn grants_are_held_once_and_in_order() {
    let grants = CapabilityGrants::new(vec![
        Capability::Layout,
        Capability::TextRead,
        Capability::Layout,
    ]);
    assert_eq!(grants.grants, vec![Capability::TextRead, Capability::Layout]);
    assert!(!grants.contains(Capability::Watch));
}

#[test]
fn a_closed_resource_stays_closed() {
    let mut k = kernel();
    let id = create(&mut k, "abc");
    let other = create(&mut k, "def");
    let close = NativeOperation::CloseResource { resource: id };
    assert!(matches!(k.execute(close, NativeAnswers::none()), Ok(NativeResult::ResourceClosed)));
    for _ in 0..3 {
        create(&mut k, "new");
    }
    assert!(matches!(k.snapshot(id), Err(KernelError::StaleResource(x)) if x == id));
    assert_eq!(k.snapshot(other).unwrap().text, "def");
}

#[test]
fn a_failed_cleanup_is_told_and_the_resource_is_gone() {
    let mut k = kernel();
    let id = create(&mut k, "abc");
    let watch = NativeOperation::RegisterWatch { resource: id, path: "a.txt".to_string() };
    let watched = NativeAnswers { clock_millis: 0, watched: Ok("/w/a.txt".to_string()), unwatched: None };
    assert!(matches!(k.execute(watch, watched), Ok(NativeResult::WatchRegistered)));
    let hints = vec![NativeWatchNotification { resource: id, path: "/w/a.txt".to_string() }];
    assert_eq!(k.poll_watch_notifications(hints).len(), 1);
    assert_eq!(
        k.invalidate_resource(id, Some("busy".to_string())),
        Ok(Some("native file-watch operation failed: busy".to_string()))
    );
    assert!(matches!(k.snapshot(id), Err(KernelError::StaleResource(_))));
    let hints = vec![NativeWatchNotification { resource: id, path: "/w/a.txt".to_string() }];
    assert_eq!(k.poll_watch_notifications(hints).len(), 0);
}

#[test]
fn selections_stay_inside_the_text() {
    let mut k = kernel();
    let id = create(&mut k, "abc");
    let inside = Some(TextSelection { anchor: 0, active: 3 });
    let set = NativeOperation::SetSelection { resource: id, selection: inside };
    assert!(k.execute(set, NativeAnswers::none()).is_ok());
    assert_eq!(k.snapshot(id).unwrap().selection, inside);
    let outside = Some(TextSelection { anchor: 0, active: 4 });
    let set = NativeOperation::SetSelection { resource: id, selection: outside };
    assert!(matches!(
        k.execute(set, NativeAnswers::none()),
        Err(KernelError::InvalidRange { .. })
    ));
    assert_eq!(k.snapshot(id).unwrap().selection, inside);
}

#[test]
fn the_clock_is_read_and_files_need_a_request() {
    let mut k = kernel();
    let answers = NativeAnswers { clock_millis: 42, watched: Err("x".to_string()), unwatched: None };
    assert!(matches!(
        k.execute(NativeOperation::ReadClockMillis, answers),
        Ok(NativeResult::ClockMillis(42))
    ));
    let read = NativeOperation::ReadFile { path: "a".to_string() };
    assert!(matches!(k.execute(read, NativeAnswers::none()), Err(KernelError::IoRequired)));
    let long = NativeOperation::ReadFile { path: "p".repeat(MAX_IO_NAME_BYTES + 1) };
    assert!(matches!(k.prepare_io(long), Err(KernelError::IoLimit(_))));
}

#[test]
fn a_sound_layout_shows_each_view_once() {
    let layout = |active: u64, ratio: f32| LogicalLayout {
        columns: 80,
        rows: 24,
        active: ViewId(active),
        root: LayoutNode::Split {
            axis: SplitAxis::Vertical,
            ratio: f32::to_bits(ratio),
            first: Box::new(LayoutNode::View(ViewId(1))),
            second: Box::new(LayoutNode::View(ViewId(2))),
        },
    };
    assert!(validate_layout(&layout(2, 0.25)).is_ok());
    for ratio in [0.0, 1.0, -0.5, f32::NAN, f32::INFINITY] {
        assert!(matches!(validate_layout(&layout(2, ratio)), Err(KernelError::InvalidLayout(_))));
    }
}

#[test]
fn errors_are_told_in_words() {
    let id = ResourceId { slot: 1, generation: 2 };
    let told = [
        (KernelError::CapabilityDenied(Capability::Watch), "native capability Watch was not granted"),
        (
            KernelError::StaleResource(id),
            "native resource ResourceId { slot: 1, generation: 2 } is stale or unknown",
        ),
        (
            KernelError::InvalidRange { start: 1, end: 5, len: 3 },
            "text range 1..5 is outside resource length 3",
        ),
        (
            KernelError::Io { kind: IoErrorKind::Other, message: "x".to_string() },
            "native I/O operation failed: x",
        ),
    ];
    for (error, text) in told {
        assert_eq!(error.message(), text);
    }
}

#[test]
fn released_work_makes_room_and_closing_ends_all() {
    let mut owner = IoOwner::new();
    let mut leases = Vec::new();
    for _ in 0..MAX_IO_REQUESTS {
        leases.push(owner.accept().unwrap());
    }
    assert!(matches!(owner.accept(), Err(KernelError::IoLimit(_))));
    assert!(!owner.release(leases[0]));
    assert!(owner.accept().is_ok());
    assert!(!owner.is_stopped(leases[1]));
    owner.cancel_all();
    assert!(owner.is_stopped(leases[1]));
    assert!(owner.accept().is_err());
}

#[test]
fn reading_stops_at_its_bound() {
    assert_eq!(next_chunk_len(0, MAX_IO_BYTES), CHUNK_BYTES);
    assert_eq!(next_chunk_len(MAX_IO_BYTES, MAX_IO_BYTES), 1);
    let mut contents = Vec::new();
    assert!(take_chunk(&mut contents, &vec![b'a'; 8], 5, 10).is_ok());
    assert_eq!(contents.len(), 5);
    assert!(matches!(
        take_chunk(&mut contents, &vec![b'a'; 8], 8, 10),
        Err(KernelError::IoLimit(_))
    ));
}

#[test]
fn bytes_that_are_no_text_are_refused() {
    assert_eq!(finish_read(vec![0xc3, 0xa9]).unwrap(), "é");
    assert!(matches!(
        finish_read(vec![0xff]),
        Err(KernelError::Io { kind: IoErrorKind::InvalidData, .. })
    ));
    assert!(check_write("abc", 3).is_ok());
    assert!(matches!(check_write("é", 1), Err(KernelError::IoLimit(_))));
}

#[test]
fn a_scan_keeps_the_first_names_in_order() {
    let mut scan = DirectoryScan::new("/d".to_string());
    for index in (0..MAX_DIRECTORY_ENTRIES + 4).rev() {
        scan.offer(format!("/d/{index:04}"), false).unwrap();
    }
    let names: Vec<String> = (0..MAX_DIRECTORY_ENTRIES).map(|i| format!("{i:04}")).collect();
    let result = scan.finish(names, vec![false; MAX_DIRECTORY_ENTRIES]).unwrap();
    let NativeResult::DirectoryEntries { directory, entries } = result else {
        panic!("entries");
    };
    assert_eq!(directory, "/d");
    assert_eq!(entries.len(), MAX_DIRECTORY_ENTRIES);
    assert_eq!(entries[0].path, "/d/0000");
    assert!(entries.windows(2).all(|pair| pair[0].path < pair[1].path));
    let mut stopped = DirectoryScan::new("/d".to_string());
    assert_eq!(stopped.offer("/d/a".to_string(), true).unwrap_err(), cancelled());
}

#[test]
fn the_streams_of_a_process_share_a_bound() {
    let mut out = Vec::new();
    let total = take_output(&mut out, &vec![1, 2, 3], 3, 0).unwrap();
    assert_eq!(total, 3);
    assert_eq!(out, vec![1, 2, 3]);
    assert!(take_output(&mut out, &vec![1, 2, 3], 3, MAX_IO_BYTES).is_err());
}

#[test]
fn a_process_is_settled_with_its_own_error_first() {
    let limit = || KernelError::IoLimit("out".to_string());
    let cleanup = || KernelError::Cleanup("gone".to_string());
    assert_eq!(settle_process(Err(limit()), vec![], vec![], Err(cleanup())), Err(limit()));
    assert_eq!(settle_process(Ok(Some(0)), vec![], vec![], Err(cleanup())), Err(cleanup()));
    assert_eq!(
        settle_process(Ok(Some(7)), b"out".to_vec(), b"err".to_vec(), Ok(())),
        Ok(NativeResult::ProcessOutput {
            status: Some(7),
            stdout: b"out".to_vec(),
            stderr: b"err".to_vec(),
        })
    );
}
