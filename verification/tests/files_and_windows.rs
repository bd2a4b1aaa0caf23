use roe_core::buffer::Buffer;
use roe_core::editor::{
    ActionPosition, ChromeAction, CommandType, Editor, Frame, OpenType,
};
use roe_core::file_watcher::{
    compute_line_diff, merge_changes, FileChangeEvent, FileWatcher, MergeResult, WatchOutcome,
    SAVE_GRACE_MILLIS,
};
use roe_core::ids::{BufferId, WindowId};
use roe_core::kill_ring::KillRing;
use roe_core::native_services::ClockReading;
use roe_core::opening::OpenPlan;
use roe_core::slots::{BufferSlots, WindowSlots};
use roe_core::visiting::SeenChange;
use roe_core::window::{SplitDirection, SplitRatio, Window, WindowNode, WindowType};

const AT: ClockReading = ClockReading { millis: 1_000, unix_secs: 7 };

fn window(buffer: BufferId) -> Window {
    Window {
        x: 0,
        y: 0,
        width_chars: 80,
        height_chars: 24,
        active_buffer: buffer,
        cursor: 0,
        window_type: WindowType::Normal,
    }
}

fn editor(text: &str) -> (Editor, BufferId, WindowId) {
    let mut buffers = BufferSlots::new();
    let mut scratch = Buffer::new(&[]);
    scratch.load_str(text);
    let b = buffers.insert(scratch);
    let mut windows = WindowSlots::new();
    let w = windows.insert(window(b));
    let made = Editor {
        frame: Frame::new(80, 24),
        buffers,
        windows,
        active_window: w,
        previous_active_window: None,
        window_tree: WindowNode::new_leaf(w),
        kill_ring: KillRing::with_capacity(60),
        buffer_history: vec![],
        echo_message: "".to_string(),
        echo_message_time: None,
        mouse_drag_state: None,
        messages_buffer_id: None,
        file_watcher: FileWatcher::new(),
    };
    (made, b, w)
}

fn echoes(actions: &[ChromeAction]) -> Vec<String> {
    actions
        .iter()
        .filter_map(|action| match action {
            ChromeAction::Echo(message) => Some(message.clone()),
            _ => None,
        })
        .collect()
}

fn change(id: BufferId, content: Result<&str, &str>) -> SeenChange {
    SeenChange {
        event: FileChangeEvent { buffer_id: id, file_path: "/f".to_string() },
        content: content.map(str::to_string).map_err(str::to_string),
    }
}

#[test]
fn slots_forget_what_was_removed() {
    let (mut e, b, _) = editor("x");
    let other = e.create_buffer("two".to_string(), "2".to_string());
    assert_eq!(e.buffers.len(), 2);
    assert_eq!(e.buffers.keys(), vec![b, other]);
    assert!(e.buffers.remove(other).is_some());
    assert!(e.buffers.get(other).is_none());
    assert!(e.buffers.remove(other).is_none());
    let third = e.create_buffer("three".to_string(), "3".to_string());
    assert_ne!(third, other);
    assert!(!e.buffers.contains_key(other));
    assert_eq!(e.windows.len(), 1);
}

#[test]
fn a_ratio_takes_its_share() {
    assert_eq!(SplitRatio::half().share_of(25), 12);
    assert_eq!(SplitRatio::from_float_bits(f32::to_bits(0.3)).share_of(10), 3);
    assert_eq!(SplitRatio::from_float_bits(f32::to_bits(1.0)).share_of(10), 10);
    for total in [0u16, 1, 7, 80, 1_000, u16::MAX] {
        for ratio in [0.0f32, 0.1, 0.25, 0.333_333_34, 0.5, 0.7, 0.999_999_9, 1.0] {
            let bits = f32::to_bits(ratio);
            let float = (f32::from(total) * ratio) as u16;
            assert_eq!(SplitRatio::from_float_bits(bits).share_of(total), float);
        }
    }
}

#[test]
fn a_split_is_undone_by_deleting_the_new_window() {
    let (mut e, _, w) = editor("x");
    let new = e.split_vertical();
    e.switch_window();
    assert_eq!(e.active_window, new);
    assert!(e.delete_window());
    assert_eq!(e.active_window, w);
    assert!(matches!(e.window_tree, WindowNode::Leaf { window_id } if window_id == w));
}

#[test]
fn the_history_holds_each_buffer_once() {
    let (mut e, b, _) = editor("x");
    let other = e.create_buffer("two".to_string(), String::new());
    e.record_buffer_access(b);
    e.record_buffer_access(other);
    e.record_buffer_access(b);
    assert_eq!(e.buffer_history, vec![b, other]);
    assert_eq!(e.get_previous_buffer(b), Some(other));
}

#[test]
fn a_prompt_opens_at_the_bottom_and_closes() {
    let (mut e, _, w) = editor("x");
    let prompt = e.create_mica_prompt_window(CommandType::Execute, 3, "M-x ".to_string(), 4);
    assert_eq!(e.active_window, prompt);
    assert_eq!(e.find_command_window(), Some(prompt));
    let shown = e.windows.get(prompt).unwrap();
    assert_eq!((shown.y, shown.height_chars), (21, 3));
    assert!(e.update_mica_prompt_window("M-x q", 5).is_some());
    assert!(e.close_command_window(prompt));
    assert_eq!(e.active_window, w);
    assert_eq!(e.find_command_window(), None);
}

#[test]
fn a_file_is_opened_and_replaces_the_buffer_it_visits() {
    let (mut e, b, w) = editor("x");
    let actions = e.open_mica_file(
        "f".to_string(),
        "/f",
        OpenType::Visit,
        Some("text".to_string()),
        WatchOutcome::Started,
        None,
        5,
    );
    assert_eq!(echoes(&actions), vec!["Opened: f"]);
    let opened = e.windows.get(w).unwrap().active_buffer;
    assert_ne!(opened, b);
    assert!(!e.buffers.contains_key(b));
    assert_eq!(e.buffers.get(opened).unwrap().content(), "text");
    assert_eq!(e.buffers.get(opened).unwrap().object(), "f");
    assert_eq!(e.file_watcher.get_sync_state(opened).unwrap().base_content, "text");
    assert_eq!(e.file_watcher.get_sync_state(opened).unwrap().file_path, "/f");
    let actions = e.open_mica_file(
        "/new".to_string(),
        "/new",
        OpenType::New,
        None,
        WatchOutcome::NoBackend("none".to_string()),
        None,
        6,
    );
    assert_eq!(echoes(&actions), vec!["Opened: /new"]);
    assert!(e.buffers.contains_key(opened));
}

#[test]
fn trouble_with_a_watch_is_told() {
    let (mut e, b, _) = editor("x");
    let actions = e.open_mica_file(
        "/f".to_string(),
        "/f",
        OpenType::New,
        Some("t".to_string()),
        WatchOutcome::Failed("full".to_string()),
        None,
        5,
    );
    assert_eq!(echoes(&actions), vec!["Opened: /f", "Opened /f, but failed to watch it: full"]);
    e.watch_buffer(b, "/g", WatchOutcome::Failed("gone".to_string()), AT);
    assert_eq!(e.echo_message, "Warning: Failed to watch file: gone");
}

#[test]
fn killing_a_buffer_shows_another() {
    let (mut e, b, w) = editor("x");
    let other = e.create_buffer("two".to_string(), "2".to_string());
    e.select_mica_buffer(other, false, None, AT);
    assert_eq!(e.windows.get(w).unwrap().active_buffer, other);
    e.select_mica_buffer(other, true, None, AT);
    assert!(!e.buffers.contains_key(other));
    assert_eq!(e.windows.get(w).unwrap().active_buffer, b);
}

#[test]
fn a_change_on_disk_is_loaded_and_one_undo_brings_the_text_back() {
    let (mut e, b, _) = editor("one\ntwo\n");
    e.watch_buffer(b, "/f", WatchOutcome::Started, AT);
    let actions = e.poll_file_changes(None, vec![change(b, Ok("one\nTWO\n"))], 2_000);
    assert!(!echoes(&actions).is_empty());
    assert_eq!(e.buffers.get(b).unwrap().content(), "one\nTWO\n");
    assert_eq!(e.file_watcher.get_sync_state(b).unwrap().base_content, "one\nTWO\n");
    e.buffers.get_mut(b).unwrap().undo();
    assert_eq!(e.buffers.get(b).unwrap().content(), "one\ntwo\n");
}

#[test]
fn changes_of_both_sides_are_merged() {
    let (mut e, b, _) = editor("a\nb\nc\nd\ne\n");
    e.watch_buffer(b, "/f", WatchOutcome::Started, AT);
    e.buffers.get_mut(b).unwrap().delete_region_range(0, 1);
    e.buffers.get_mut(b).unwrap().insert_pos("A".to_string(), 0);
    e.poll_file_changes(None, vec![change(b, Ok("a\nb\nc\nd\nE\n"))], 2_000);
    assert_eq!(e.buffers.get(b).unwrap().content(), "A\nb\nc\nd\nE\n");
}

#[test]
fn unreadable_files_and_a_failed_backend_are_told() {
    let (mut e, b, _) = editor("x");
    e.watch_buffer(b, "/f", WatchOutcome::Started, AT);
    let actions = e.poll_file_changes(
        Some("inotify".to_string()),
        vec![change(b, Err("denied"))],
        2_000,
    );
    assert_eq!(
        echoes(&actions),
        vec![
            "File watcher backend failed: inotify",
            "External file change unavailable for /f: denied",
        ]
    );
    assert_eq!(e.buffers.get(b).unwrap().content(), "x");
}

#[test]
fn a_save_of_our_own_is_no_change() {
    let (mut e, b, _) = editor("x");
    e.watch_buffer(b, "/f", WatchOutcome::Started, AT);
    e.mark_buffer_saving(b, 2_000);
    let event = || vec![FileChangeEvent { buffer_id: b, file_path: "/f".to_string() }];
    assert_eq!(e.file_watcher.poll_events(event(), 2_000 + SAVE_GRACE_MILLIS / 2).len(), 0);
    assert_eq!(e.file_watcher.poll_events(event(), 2_001 + SAVE_GRACE_MILLIS).len(), 1);
    e.unwatch_buffer(b, None, AT);
    assert_eq!(e.file_watcher.buffer_for("/f"), None);
}

#[test]
fn conflicts_are_marked() {
    let MergeResult::MergedWithConflicts { content, conflict_count } =
        merge_changes("a\nb\n", "a\nL\n", "a\nE\n")
    else {
        panic!("a conflict");
    };
    assert_eq!(conflict_count, 1);
    assert_eq!(content, "a\n<<<<<<< LOCAL\nL\n=======\nE\n>>>>>>> EXTERNAL");
}

#[test]
fn equal_texts_have_no_changes() {
    assert!(compute_line_diff("a\nb\n", "a\nb\n").is_empty());
    assert_eq!(compute_line_diff("a\nb\n", "a\nc\n").len(), 1);
}

#[test]
fn a_yank_gives_back_what_was_killed() {
    let (mut e, b, _) = editor("Hello world");
    e.kill_text(&ActionPosition::cursor(), 5);
    assert_eq!(e.buffers.get(b).unwrap().content(), " world");
    e.yank(&ActionPosition::cursor());
    assert_eq!(e.buffers.get(b).unwrap().content(), "Hello world");
}

#[test]
fn a_deletion_takes_back_what_was_inserted() {
    let (mut e, b, w) = editor("ab");
    e.windows.get_mut(w).unwrap().cursor = 1;
    e.insert_text("xyz".to_string(), &ActionPosition::cursor());
    assert_eq!(e.buffers.get(b).unwrap().content(), "axyzb");
    e.delete_text(&ActionPosition::cursor(), -3);
    assert_eq!(e.buffers.get(b).unwrap().content(), "ab");
    assert_eq!(e.windows.get(w).unwrap().cursor, 1);
}

#[test]
fn a_resize_lays_the_windows_out_again() {
    let (mut e, _, w) = editor("x");
    e.handle_resize(100, 40);
    let shown = e.windows.get(w).unwrap();
    assert_eq!((shown.width_chars, shown.height_chars), (100, 40));
}

#[test]
fn a_merge_does_not_depend_on_which_side_is_local() {
    let base = "a\nb\nc\nd\ne\n";
    let merged = |local: &str, external: &str| match merge_changes(base, local, external) {
        MergeResult::Merged { content, .. } => content,
        other => panic!("no plain merge: {other:?}"),
    };
    let one = merged("A\nb\nc\nd\ne\n", "a\nb\nc\nd\nE\n");
    assert_eq!(one, merged("a\nb\nc\nd\nE\n", "A\nb\nc\nd\ne\n"));
    assert_eq!(one, "A\nb\nc\nd\nE\n");
}

#[test]
fn switching_goes_round_all_windows() {
    let (mut e, _, w) = editor("x");
    e.split_horizontal();
    e.split_vertical();
    let mut seen = Vec::new();
    for _ in 0..3 {
        seen.push(e.switch_window());
    }
    assert_eq!(seen[2], w);
    seen.sort_by_key(|id| id.bits());
    seen.dedup();
    assert_eq!(seen.len(), 3);
}

#[test]
fn a_file_is_not_opened_where_no_window_is_left() {
    let (mut e, b, w) = editor("x");
    e.windows.remove(w);
    assert_eq!(e.plan_open(OpenType::New), OpenPlan { window: None, leaving: None });
    let actions = e.open_mica_file(
        "f".to_string(),
        "/f",
        OpenType::New,
        Some("t".to_string()),
        WatchOutcome::Started,
        None,
        5,
    );
    assert_eq!(echoes(&actions), vec!["Error opening file: Window no longer exists"]);
    let gone = e.create_buffer("gone".to_string(), "".to_string());
    e.buffers.remove(gone);
    let actions = e.select_mica_buffer(gone, false, None, AT);
    assert_eq!(echoes(&actions), vec!["Buffer no longer exists"]);
    let actions = e.select_mica_buffer(b, true, None, AT);
    assert_eq!(echoes(&actions), vec!["Cannot kill the only buffer"]);
}

#[test]
fn an_opened_file_is_planned_first() {
    let (mut e, b, w) = editor("x");
    assert_eq!(e.plan_open(OpenType::Visit), OpenPlan { window: Some(w), leaving: Some(b) });
    assert_eq!(e.plan_open(OpenType::New), OpenPlan { window: Some(w), leaving: None });
    e.create_mica_prompt_window(CommandType::Execute, 3, "M-x ".to_string(), 4);
    assert_eq!(e.plan_open(OpenType::Visit), OpenPlan { window: Some(w), leaving: Some(b) });
    let other = e.windows.insert(window(b));
    assert_ne!(other, w);
    assert_eq!(e.plan_open(OpenType::Visit), OpenPlan { window: Some(w), leaving: None });
}

#[test]
fn a_window_can_be_deleted_beside_one_that_stands_twice() {
    let (mut e, b, w) = editor("x");
    e.split_horizontal();
    let other = e.windows.keys().into_iter().find(|id| *id != w).unwrap();
    let odd = WindowNode::new_split(
        SplitDirection::Horizontal,
        SplitRatio::half(),
        WindowNode::new_leaf(w),
        WindowNode::new_leaf(w),
    );
    e.window_tree = WindowNode::new_split(
        SplitDirection::Horizontal,
        SplitRatio::half(),
        odd,
        WindowNode::new_leaf(other),
    );
    e.active_window = other;
    assert!(e.delete_window());
    assert_eq!(e.active_window, w);
    assert!(!e.windows.contains_key(other));
    assert_eq!(e.windows.get(w).unwrap().active_buffer, b);
}
