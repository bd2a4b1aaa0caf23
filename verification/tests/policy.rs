use roe_core::buffer::Buffer;
use roe_core::editor::{CommandType, Editor, Frame};
use roe_core::file_watcher::FileWatcher;
use roe_core::ids::{BufferId, WindowId};
use roe_core::kill_ring::KillRing;
use roe_core::mica_host::bridge::{native_error, release, reply, route, search_text, Route};
use roe_core::mica_host::context::{DescribedBuffer, HostNames, MicaHost, MicaHostError};
use roe_core::mica_host::dispatch::{
    evaluation_result, key_result, verb_result, DriverEvent, InvocationOutcome, MicaKeyResult,
    TaskName,
};
use roe_core::mica_host::events::{MicaEvent, MicaEventBatch, MicaHostAction, MicaNativeAction, MicaPolicyFact};
use roe_core::mica_host::facts::{file_extension, FactValue, MicaBufferMetadata};
use roe_core::mica_host::layout::{find_node_name, IdentitySupply};
use roe_core::mica_host::source_provider::{
    source_path, source_relative_path, ListOutcome, ReadOutcome, RoeBufferSourceProvider, SourceBuffer,
};
use roe_core::mica_host::names::count_names;
use roe_core::mica_host::syntax_policy::{asked_plans, decode_plan, decode_plans, plan_list, settle_plans};
use roe_core::mica_host::units::{
    is_written_out_loaded, restored_units, UnitEvent, UnitReplacement, UnitStep,
};
use roe_core::mica_host::value::{measure, Identity, SizeFault, Value, ValueEntry};
use roe_core::native_kernel::{
    KernelError, NativeOperation, NativeResult, ResourceId, TextSelection, TextSnapshot,
};
use roe_core::slots::{BufferSlots, WindowSlots};
use roe_core::window::{SplitRatio, Window, WindowNode, WindowType};

fn symbol(name: &str) -> Value {
    Value::Symbol(name.to_string())
}

fn text(s: &str) -> Value {
    Value::Text(s.to_string())
}

fn table(entries: Vec<(&str, Value)>) -> Value {
    Value::Table(
        entries
            .into_iter()
            .map(|(key, value)| ValueEntry { key: symbol(key), value })
            .collect(),
    )
}

fn names() -> HostNames {
    HostNames {
        endpoint: Identity(1),
        actor: Identity(2),
        session: Identity(3),
        frame: Identity(4),
        editor_role: Identity(5),
        global_map: Identity(6),
        source_repository: Identity(7),
        source_revision: Identity(8),
    }
}

fn editor() -> (Editor, BufferId, WindowId) {
    let mut buffers = BufferSlots::new();
    let mut scratch = Buffer::new(&[]);
    scratch.set_object("scratch".to_string());
    scratch.load_str("one two one");
    let buffer = buffers.insert(scratch);
    let mut windows = WindowSlots::new();
    let window = windows.insert(Window {
        x: 0,
        y: 0,
        width_chars: 80,
        height_chars: 22,
        active_buffer: buffer,
        cursor: 0,
        window_type: WindowType::Normal,
    });
    let made = Editor {
        frame: Frame::new(80, 24),
        buffers,
        windows,
        active_window: window,
        previous_active_window: None,
        window_tree: WindowNode::new_leaf(window),
        kill_ring: KillRing::with_capacity(60),
        buffer_history: vec![],
        echo_message: "".to_string(),
        echo_message_time: None,
        mouse_drag_state: None,
        messages_buffer_id: None,
        file_watcher: FileWatcher::new(),
    };
    (made, buffer, window)
}

fn described(id: BufferId) -> Vec<DescribedBuffer> {
    vec![DescribedBuffer {
        id,
        resource: ResourceId { slot: 0, generation: 1 },
        metadata: MicaBufferMetadata::new(
            "scratch".to_string(),
            "scratch".to_string(),
            None,
            0,
            0,
            false,
            false,
        ),
        source_path: None,
    }]
}

fn supply() -> IdentitySupply {
    IdentitySupply::new((100..200).map(Identity).collect())
}

fn host() -> (MicaHost, Editor, BufferId, WindowId) {
    let (e, b, w) = editor();
    let made = MicaHost::open(&e, names(), "/workspace".to_string(), &described(b), &mut supply());
    (made.unwrap(), e, b, w)
}

#[test]
fn an_open_host_names_buffers_views_and_layout() {
    let (h, _, b, w) = host();
    assert_eq!(h.buffers.len(), 1);
    assert_eq!(h.buffers[0].id, b);
    assert_eq!(h.views[0].id, w);
    assert!(h.knows_its_buffers());
    let facts = h.opening_context_facts();
    assert!(facts.iter().any(|fact| fact.relation == "roe/EditorSession"
        && matches!(fact.values.as_slice(), [FactValue::Identity(Identity(3))])));
}

#[test]
fn names_stay_when_windows_are_split() {
    let (mut h, mut e, b, _) = host();
    let buffer_name = h.buffers[0].logical;
    let view_name = h.views[0].logical;
    e.split_horizontal();
    let mut more = IdentitySupply::new((300..400).map(Identity).collect());
    assert!(h.synchronize_context(&e, &described(b), &mut more).is_ok());
    assert_eq!(h.buffers[0].logical, buffer_name);
    assert!(h.views.iter().any(|view| view.logical == view_name));
    assert_eq!(h.views.len(), 2);
    let root = find_node_name(&h.layout_nodes, &vec![]).unwrap();
    e.split_vertical();
    assert!(h.synchronize_context(&e, &described(b), &mut more).is_ok());
    assert_eq!(find_node_name(&h.layout_nodes, &vec![]), Some(root));
}

#[test]
fn a_host_without_names_to_give_is_not_opened() {
    let (e, b, _) = editor();
    let mut none = IdentitySupply::new(vec![]);
    let opened = MicaHost::open(&e, names(), "/w".to_string(), &described(b), &mut none);
    assert!(opened.is_err());
}

#[test]
fn a_prefix_waits_for_the_next_key() {
    let (mut h, _, _, _) = host();
    let first = h.key_call("C-x").unwrap();
    assert_eq!(first.selector, "roe/dispatch_key");
    assert_eq!(h.key_settled("C-x", MicaKeyResult::Prefix), MicaKeyResult::Prefix);
    let second = h.key_call("C-q").unwrap();
    assert!(second.arguments.iter().any(|argument| argument.name == "sequence"
        && matches!(&argument.value, FactValue::Text(s) if s == "C-x C-q")));
    assert_eq!(
        h.key_settled("C-q", MicaKeyResult::Unbound),
        MicaKeyResult::Failed("C-x C-q is undefined".to_string())
    );
    assert_eq!(h.pending_key_prefix, None);
}

#[test]
fn a_closed_host_calls_no_verb() {
    let (mut h, _, b, w) = host();
    assert_eq!(h.plain_call("roe/publish_policy").unwrap().selector, "roe/publish_policy");
    assert!(h.pointer_call(w, 0, "down", "left").is_ok());
    assert!(h.scroll_call(w, 1, 2).is_ok());
    assert!(h.startup_call(&vec![b]).is_ok());
    assert!(h.present_evaluation_call(w, b, "2", false).is_ok());
    assert!(h.close().is_some());
    assert!(h.close().is_none());
    assert!(matches!(h.key_call("x"), Err(MicaHostError::Closed)));
    assert!(matches!(h.plain_call("roe/agent_start"), Err(MicaHostError::Closed)));
}

#[test]
fn an_unknown_view_has_no_identity() {
    let (h, _, _, _) = host();
    let stranger = WindowId::from_bits(0x1_0000_0099).unwrap();
    assert!(matches!(h.pointer_call(stranger, 0, "down", "left"), Err(MicaHostError::MissingIdentity)));
    assert!(h.ratio_call(&vec![], SplitRatio::half()).is_err());
}

#[test]
fn units_are_loaded_one_after_another() {
    let (mut h, _, _, _) = host();
    let mut loaded = Vec::new();
    while let Some(unit) = h.next_unit() {
        assert!(!h.replaces(unit));
        h.unit_loaded(unit, true);
        assert!(h.replaces(unit));
        loaded.push(unit);
    }
    assert_eq!(loaded, vec!["roe/first-wave", "roe/rust", "roe/agent"]);
}

#[test]
fn outcomes_of_tasks_are_told() {
    let task = TaskName {
        task_id: 9,
        selector: "roe/dispatch_key".to_string(),
        endpoint: "#1".to_string(),
        session: "#3".to_string(),
    };
    assert_eq!(
        key_result(&task, InvocationOutcome::Completed(symbol("prefix"))),
        MicaKeyResult::Prefix
    );
    assert_eq!(
        key_result(&task, InvocationOutcome::Completed(symbol("unbound"))),
        MicaKeyResult::Unbound
    );
    assert_eq!(
        key_result(&task, InvocationOutcome::Completed(Value::Nothing)),
        MicaKeyResult::Handled
    );
    assert!(matches!(
        key_result(&task, InvocationOutcome::Aborted("why".to_string())),
        MicaKeyResult::Failed(m) if m.contains("aborted") && m.contains("why")
    ));
    assert!(verb_result(MicaKeyResult::Failed("no".to_string())).is_err());
    assert!(verb_result(MicaKeyResult::Unbound).is_ok());
    assert!(matches!(
        evaluation_result(InvocationOutcome::Aborted("x".to_string()), String::new()),
        Err(MicaHostError::Policy(m)) if m == "evaluation aborted: x"
    ));
    assert!(matches!(
        evaluation_result(InvocationOutcome::Completed(Value::Int(2)), "2".to_string()),
        Ok(s) if s == "2"
    ));
}

#[test]
fn effects_of_another_session_change_nothing() {
    let (mut h, _, _, _) = host();
    let effect = table(vec![("kind", symbol("prompt_close"))]);
    assert_eq!(
        h.decode_effect(Identity(77), &effect, &vec![]).unwrap_err(),
        "Mica effect targeted another session"
    );
    assert!(matches!(
        h.decode_effect(Identity(3), &effect, &vec![]),
        Ok(MicaEvent::PromptClosed)
    ));
    let unknown = table(vec![("kind", symbol("dance"))]);
    assert_eq!(
        h.decode_effect(Identity(3), &unknown, &vec![]).unwrap_err(),
        "unknown Mica effect kind: dance"
    );
}

#[test]
fn actions_of_the_host_are_decoded() {
    let (h, _, b, _) = host();
    let echo = table(vec![("action", symbol("echo")), ("text", text("hi"))]);
    assert!(matches!(h.decode_host_action(&echo), Ok(MicaHostAction::Echo(m)) if m == "hi"));
    let save = table(vec![
        ("action", symbol("save_buffer")),
        ("buffer", Value::Identity(h.buffers[0].logical)),
    ]);
    assert!(matches!(
        h.decode_host_action(&save),
        Ok(MicaHostAction::Save { buffer }) if buffer == b
    ));
    let stranger = table(vec![
        ("action", symbol("save_buffer")),
        ("buffer", Value::Identity(Identity(4711))),
    ]);
    assert!(h.decode_host_action(&stranger).is_err());
    let nameless = table(vec![]);
    assert_eq!(h.decode_host_action(&nameless).unwrap_err(), "Mica effect requires action");
}

#[test]
fn published_settings_are_decoded() {
    let (h, _, _, _) = host();
    let fact = table(vec![
        ("kind", symbol("configuration_policy")),
        ("key", symbol("tab_width")),
        ("value", Value::Int(4)),
    ]);
    match h.decode_policy_fact(&fact, "4") {
        Ok(MicaPolicyFact::Configuration { key, value }) => {
            assert_eq!(key, "tab_width");
            assert_eq!(value, "4");
        }
        other => panic!("{other:?}"),
    }
    assert!(h.decode_policy_fact(&Value::Nothing, "").is_err());
}

#[test]
fn deep_and_large_values_are_refused() {
    let mut deep = Value::Int(1);
    for _ in 0..40 {
        deep = Value::List(vec![deep]);
    }
    assert!(matches!(measure(&deep, 1_000_000, 0), Err(SizeFault::TooDeep)));
    assert!(matches!(measure(&text("0123456789"), 4, 0), Err(SizeFault::TooLarge)));
    assert!(measure(&text("abc"), 100, 0).is_ok());
}

#[test]
fn background_events_reach_the_batch() {
    let (mut h, _, _, _) = host();
    let mut batch = MicaEventBatch::new();
    h.record_background_event(DriverEvent::TaskCancelled { task_id: 4 }, &mut batch);
    h.record_background_event(DriverEvent::TaskCompleted { task_id: 5 }, &mut batch);
    h.record_background_event(
        DriverEvent::TaskFailed { task_id: 6, error: "bad".to_string() },
        &mut batch,
    );
    h.record_background_event(
        DriverEvent::Effect {
            target: Identity(3),
            value: table(vec![("kind", symbol("prompt_close"))]),
            formatted: vec![],
        },
        &mut batch,
    );
    assert!(!h.prompt_active);
    let events = batch.into_events();
    assert_eq!(events.len(), 3);
    assert!(matches!(events[0], MicaEvent::TaskCancelled(4)));
    assert!(matches!(events[1], MicaEvent::Error(_)));
    assert!(matches!(events[2], MicaEvent::PromptClosed));
}

#[test]
fn requests_are_granted_to_the_owner_only() {
    let (mut h, _, _, _) = host();
    let buffer = h.buffers[0].logical;
    let insert = table(vec![
        ("buffer", Value::Identity(buffer)),
        ("at", Value::Int(2)),
        ("text", text("x")),
    ]);
    assert!(matches!(
        h.plan_request(Some(Identity(2)), "text_insert", &insert, false),
        Ok(NativeOperation::Insert { at: 2, text, .. }) if text == "x"
    ));
    assert_eq!(
        h.plan_request(Some(Identity(9)), "text_insert", &insert, false).unwrap_err(),
        "request actor does not own this Roe endpoint"
    );
    assert_eq!(
        h.plan_request(Some(Identity(2)), "text_insert", &insert, true).unwrap_err(),
        "request cancelled before native admission"
    );
    assert_eq!(
        h.plan_request(Some(Identity(2)), "dance", &insert, false).unwrap_err(),
        "unknown Roe native service"
    );
    let planned = h.plan_request(Some(Identity(2)), "text_insert", &insert, false);
    assert!(matches!(
        release(planned, false),
        Ok(NativeOperation::Insert { at: 2, text, .. }) if text == "x"
    ));
    let planned = h.plan_request(Some(Identity(2)), "text_insert", &insert, false);
    assert_eq!(
        release(planned, true).unwrap_err(),
        "request cancelled before native execution"
    );
    let planned = h.plan_request(Some(Identity(2)), "dance", &insert, false);
    assert_eq!(release(planned, true).unwrap_err(), "unknown Roe native service");
    h.revoke_service("text_write");
    assert_eq!(
        h.plan_request(Some(Identity(2)), "text_insert", &insert, false).unwrap_err(),
        "request actor lacks the required native service grant"
    );
    assert_eq!(route("openai"), Route::Http);
    assert_eq!(route("clock_millis"), Route::Kernel);
}

#[test]
fn results_of_the_kernel_are_replied() {
    let at = reply("clock_millis", &Value::Nothing, Ok(NativeResult::ClockMillis(5)));
    assert_eq!(at.get("value").unwrap().as_int(), Some(5));
    let failed = reply("clock_millis", &Value::Nothing, Err(KernelError::IoRequired));
    let why = "external I/O requires an owned asynchronous native request";
    assert_eq!(format!("{failed:?}"), format!("{:?}", native_error(why)));
    assert!(format!("{failed:?}").contains(why));
    let odd = reply("clock_millis", &Value::Nothing, Ok(NativeResult::FileWritten));
    assert!(format!("{odd:?}").contains("unexpected native result: FileWritten"));
    let output = NativeResult::ProcessOutput {
        status: Some(-1),
        stdout: vec![1, 20],
        stderr: vec![],
    };
    let told = format!("unexpected native result: {output:?}");
    let odd = reply("clock_millis", &Value::Nothing, Ok(output));
    assert_eq!(odd.get("error").unwrap().as_text(), Some(&told));
    let created = NativeResult::ResourceCreated(ResourceId { slot: 3, generation: 4 });
    let told = format!("unexpected native result: {created:?}");
    let odd = reply("clock_millis", &Value::Nothing, Ok(created));
    assert_eq!(odd.get("error").unwrap().as_text(), Some(&told));
    let snapshot = NativeResult::Snapshot(TextSnapshot {
        resource: ResourceId { slot: 1, generation: 2 },
        name: "a \"b\"".to_string(),
        visited_file: Some("/f".to_string()),
        text_revision: 5,
        last_saved_revision: 4,
        modified: true,
        read_only: false,
        text: "x\n\u{7}".to_string(),
        character_len: 3,
        line_count: 2,
        selection: Some(TextSelection { anchor: 1, active: 0 }),
    });
    let told = format!("unexpected native result: {snapshot:?}");
    let odd = reply("clock_millis", &Value::Nothing, Ok(snapshot));
    assert_eq!(odd.get("error").unwrap().as_text(), Some(&told));
    assert_eq!(search_text("one two one", "one").len(), 2);
    assert_eq!(search_text("one", "x").len(), 0);
}

#[test]
fn sources_stay_in_the_workspace_and_lead_back() {
    assert_eq!(source_path("/w", "a/../b.rs"), None);
    let path = source_path("/w", "a/b.rs").unwrap();
    assert_eq!(source_relative_path("/w", &path), Some("a/b.rs".to_string()));
    assert_eq!(source_relative_path("/w", "/etc/x"), None);
}

#[test]
fn live_buffers_are_sources() {
    let provider = RoeBufferSourceProvider {
        root: "/w".to_string(),
        buffers: vec![
            SourceBuffer { path: "/w/src/a.rs".to_string(), text: "fn a".to_string(), revision: 3 },
            SourceBuffer { path: "/w/b.rs".to_string(), text: "fn b".to_string(), revision: 1 },
        ],
    };
    assert!(matches!(
        provider.read("worktree", "/w", "src/a.rs", 100),
        ReadOutcome::Found { text, version } if text == "fn a" && version == "roe-buffer:3"
    ));
    assert!(matches!(
        provider.read("worktree", "/w", "src/a.rs", 2),
        ReadOutcome::Failed(m) if m == "live Roe buffer exceeds the 2 byte source bound"
    ));
    assert!(matches!(provider.read("commit", "/w", "src/a.rs", 100), ReadOutcome::Absent));
    let ListOutcome::Found(entries) = provider.list("worktree", "/w", "", 10) else {
        panic!("entries");
    };
    let paths: Vec<&str> = entries.iter().map(|entry| entry.relative_path.as_str()).collect();
    assert_eq!(paths, vec!["b.rs", "src"]);
    assert!(entries[1].is_directory);
}

#[test]
fn names_of_files_have_an_extension() {
    assert_eq!(file_extension("/a/b.rs"), Some("rs".to_string()));
    assert_eq!(file_extension("/a.d/b"), None);
    assert_eq!(file_extension("/a/.profile"), None);
}

#[test]
fn grammars_are_decoded() {
    let rule = table(vec![
        ("query", text("(block)")),
        ("anchor", symbol("parent")),
        ("offset", Value::Int(1)),
        ("precedence", Value::Int(0)),
    ]);
    let plan = table(vec![
        ("grammar", symbol("rust")),
        ("query", text("(item)")),
        ("rules", Value::List(vec![rule])),
    ]);
    let decoded = decode_plan(&plan).unwrap();
    assert_eq!(decoded.grammar, "rust");
    assert_eq!(decoded.rules[0].anchor, "parent");
    let bare = table(vec![("grammar", symbol("rust")), ("query", text(""))]);
    assert_eq!(decode_plan(&bare).unwrap_err(), "missing indentation rules");
    assert!(plan_list(&Value::Nothing).is_err());
}

#[test]
fn labels_lead_back_to_their_edits() {
    for label in ["tab", "undo", "redo", "kill_line", "yank", "enter", "backspace"] {
        assert_eq!(MicaNativeAction::decode(label, None).unwrap().label(), label);
    }
}

#[test]
fn a_host_without_an_active_window_is_not_opened() {
    let (mut e, b, w) = editor();
    e.windows.remove(w);
    let opened = MicaHost::open(&e, names(), "/w".to_string(), &described(b), &mut supply());
    assert!(matches!(opened, Err(MicaHostError::MissingIdentity)));
}

#[test]
fn a_command_window_over_a_buffer_that_is_gone_does_no_harm() {
    let (mut h, mut e, b, w) = host();
    let prompt = e.create_mica_prompt_window(CommandType::Execute, 3, "M-x ".to_string(), 4);
    let shown = e.windows.get(prompt).unwrap().active_buffer;
    e.buffers.remove(shown);
    let mut more = IdentitySupply::new((300..400).map(Identity).collect());
    assert!(h.synchronize_context(&e, &described(b), &mut more).is_ok());
    assert_eq!(h.active_view, w);
    assert_eq!(h.views.len(), 1);
}

#[test]
fn a_window_over_a_buffer_that_is_gone_has_no_name() {
    let (mut h, mut e, b, w) = host();
    let tuples = format!("{:?}", h.layout_tuples);
    e.split_horizontal();
    let other = e.windows.keys().into_iter().find(|id| *id != w).unwrap();
    let gone = e.create_buffer("gone".to_string(), "".to_string());
    e.windows.get_mut(other).unwrap().active_buffer = gone;
    e.buffers.remove(gone);
    e.active_window = w;
    let mut more = IdentitySupply::new((300..400).map(Identity).collect());
    let synchronized = h.synchronize_context(&e, &described(b), &mut more);
    assert!(matches!(synchronized, Err(MicaHostError::MissingIdentity)));
    assert_eq!(h.views.len(), 1);
    // The split got its name before the window was come to.
    assert_eq!(find_node_name(&h.layout_nodes, &vec![]), Some(Identity(300)));
    assert_eq!(format!("{:?}", h.layout_tuples), tuples);
}

#[test]
fn a_unit_with_a_syntax_policy_that_is_not_valid_is_taken_back() {
    let (mut h, _, _, _) = host();
    assert!(h.replaces("roe/core"));
    let (mut unit, step) = UnitReplacement::start(&h, "roe/core", "new".to_string());
    assert!(matches!(step, UnitStep::Save));
    let step = unit.step(&mut h, UnitEvent::Saved(Ok("old".to_string())));
    assert!(matches!(step, UnitStep::FileIn { source, replace: true } if source == "new"));
    let step = unit.step(&mut h, UnitEvent::Done(Ok(())));
    assert!(matches!(step, UnitStep::CheckSyntax));
    let bad = MicaHostError::Policy("bad".to_string());
    let step = unit.step(&mut h, UnitEvent::SyntaxChecked(Err(bad)));
    assert!(matches!(step, UnitStep::FileIn { source, replace: true } if source == "old"));
    let step = unit.step(&mut h, UnitEvent::Done(Ok(())));
    assert!(matches!(step, UnitStep::Finish(Err(MicaHostError::Policy(why))) if why == "bad"));
}

#[test]
fn a_unit_that_is_new_is_checked_and_added() {
    let (mut h, _, _, _) = host();
    let (mut unit, step) = UnitReplacement::start(&h, "roe/first-wave", "source".to_string());
    assert!(matches!(step, UnitStep::Check(source) if source == "source"));
    let step = unit.step(&mut h, UnitEvent::Done(Ok(())));
    assert!(matches!(step, UnitStep::FileIn { source, replace: false } if source == "source"));
    unit.step(&mut h, UnitEvent::Done(Ok(())));
    assert!(!h.replaces("roe/first-wave"));
    let step = unit.step(&mut h, UnitEvent::SyntaxChecked(Ok(())));
    assert!(matches!(step, UnitStep::Finish(Ok(()))));
    assert!(h.replaces("roe/first-wave"));
    assert!(h.first_wave_loaded);
    let (mut unit, _) = UnitReplacement::start(&h, "other", "x".to_string());
    let step = unit.step(&mut h, UnitEvent::Done(Err("no".to_string())));
    assert!(matches!(step, UnitStep::Finish(Err(MicaHostError::Driver(why))) if why == "no"));
    assert!(!h.replaces("other"));
}

#[test]
fn grammars_are_compiled_up_to_the_first_fault() {
    let good = || {
        table(vec![
            ("grammar", symbol("rust")),
            ("query", text("(item)")),
            ("rules", Value::List(vec![])),
        ])
    };
    let bare = table(vec![("grammar", symbol("rust")), ("query", text(""))]);
    let declared = Value::List(vec![good(), bare, good()]);
    let (plans, fault) = decode_plans(&declared);
    assert_eq!(plans.len(), 1);
    assert_eq!(fault.as_deref(), Some("missing indentation rules"));
    assert!(matches!(
        settle_plans(Some("no such grammar".to_string()), fault.clone()),
        Err(MicaHostError::Policy(why)) if why == "no such grammar"
    ));
    assert!(matches!(
        settle_plans(None, fault),
        Err(MicaHostError::Policy(why)) if why == "missing indentation rules"
    ));
    let many = Value::List((0..65).map(|_| good()).collect());
    let (plans, fault) = decode_plans(&many);
    assert!(plans.is_empty());
    assert_eq!(fault.as_deref(), Some("syntax parser limit exceeded"));
    let (plans, fault) =
        asked_plans(InvocationOutcome::Completed(Value::List(vec![good()])), "").unwrap();
    assert_eq!(plans[0].grammar, "rust");
    assert!(settle_plans(None, fault).is_ok());
    assert!(matches!(
        asked_plans(InvocationOutcome::Failed("x".to_string()), "Failed(x)"),
        Err(MicaHostError::Policy(why)) if why == "syntax validation did not complete: Failed(x)"
    ));
}

#[test]
fn as_many_names_as_are_counted_suffice() {
    let (mut e, b, _) = editor();
    assert_eq!(count_names(&e), 4);
    e.split_horizontal();
    assert_eq!(count_names(&e), 6);
    let mut enough = IdentitySupply::new((100..106).map(Identity).collect());
    let mut h =
        MicaHost::open(&e, names(), "/w".to_string(), &described(b), &mut enough).unwrap();
    e.split_vertical();
    let count = count_names(&e) as u64;
    let mut more = IdentitySupply::new((300..300 + count).map(Identity).collect());
    assert!(h.synchronize_context(&e, &described(b), &mut more).is_ok());
    let mut few = IdentitySupply::new(vec![Identity(1)]);
    assert!(matches!(
        MicaHost::open(&e, names(), "/w".to_string(), &described(b), &mut few),
        Err(MicaHostError::Driver(why)) if why == "no ephemeral identity is left"
    ));
}

#[test]
fn the_units_of_the_editor_are_put_back_in_order() {
    assert_eq!(restored_units(), vec!["roe/first-wave", "roe/agent", "roe/rust"]);
    assert!(is_written_out_loaded("roe/rust"));
    assert!(!is_written_out_loaded("roe/agent"));
}
