use roe_core::buffer::Buffer;
use roe_core::julia_calls::{
    call_expression, dictionary_expression, end_loading, text_literal, CallStage, CallStep,
    CommandCall,
};
use roe_core::julia_runtime::{
    add_span, add_spans, buffer_char_count, buffer_content, buffer_delete, buffer_insert,
    buffer_line, buffer_line_count, buffer_substring, clear_spans_in_range, config_bool, config_int,
    config_lookup, config_string, decode_command_result, decode_mode_result, decode_pairs,
    define_face, face_exists, reply_addition, reply_command, reply_eval, reply_flag, reply_module,
    ConfigValue, JuliaBufferOp, JuliaCommandContext, JuliaCommandResult, JuliaEntry,
    JuliaRuntimeError, JuliaValue, SpanRequest, TaskOutcome,
};
use roe_core::syntax::FaceRegistry;
use roe_core::text_dict::TextDict;

fn entry(key: &str, value: JuliaValue) -> JuliaEntry {
    JuliaEntry { key: key.to_string(), value }
}

fn text(s: &str) -> JuliaValue {
    JuliaValue::Text(s.to_string())
}

fn dict(entries: Vec<JuliaEntry>) -> JuliaValue {
    JuliaValue::Dict(entries)
}

fn buffer(content: &str) -> Buffer {
    let mut b = Buffer::new(&[]);
    b.load_str(content);
    b
}

#[test]
fn a_command_is_told_about_its_buffer() {
    let context = JuliaCommandContext {
        buffer_name: "a \"b\"\n".to_string(),
        buffer_modified: true,
        cursor_pos: 12,
        current_line: 3,
        current_column: 4,
        line_count: 5,
        char_count: 60,
        mark_pos: -1,
    };
    assert_eq!(
        context.to_expression(),
        "Dict(\"buffer_name\" => \"a \\\"b\\\"\\n\", \"buffer_modified\" => true, \
         \"cursor_pos\" => 12, \"current_line\" => 3, \"current_column\" => 4, \
         \"line_count\" => 5, \"char_count\" => 60, \"mark_pos\" => -1)"
    );
}

#[test]
fn answers_of_commands_are_decoded() {
    let echo = dict(vec![entry("type", text("echo")), entry("message", text("hi"))]);
    assert!(matches!(
        decode_command_result(Some(&echo)),
        JuliaCommandResult::Echo(m) if m == "hi"
    ));
    let insert = dict(vec![
        entry("type", text("insert")),
        entry("pos", JuliaValue::Int(4)),
        entry("text", text("x")),
    ]);
    let JuliaCommandResult::BufferOps(ops) = decode_command_result(Some(&insert)) else {
        panic!("an operation on the buffer");
    };
    assert!(matches!(&ops[0], JuliaBufferOp::Insert { pos: 4, text } if text == "x"));
    let nameless = dict(vec![]);
    assert!(matches!(
        decode_command_result(Some(&nameless)),
        JuliaCommandResult::Error(m) if m == "Missing 'type' in result"
    ));
    assert!(matches!(
        decode_command_result(None),
        JuliaCommandResult::Error(m) if m == "Failed to call Julia command"
    ));
}

#[test]
fn answers_of_modes_are_decoded() {
    let action = dict(vec![
        entry("type", text("insert_text")),
        entry("text", text("abc")),
        entry("buffer_index", JuliaValue::Int(2)),
    ]);
    let answer = dict(vec![
        entry("result", text("consumed")),
        entry("actions", JuliaValue::Array(vec![action, JuliaValue::Other])),
    ]);
    let decoded = decode_mode_result(&answer).unwrap();
    assert_eq!(decoded.result_type, "consumed");
    assert_eq!(decoded.actions.len(), 2);
    assert_eq!(decoded.actions[0].text, Some("abc".to_string()));
    assert_eq!(decoded.actions[0].buffer_index, Some(2));
    assert_eq!(decoded.actions[1].action_type, "");
    assert!(decode_mode_result(&dict(vec![])).is_none());
    let broken = dict(vec![entry("result", JuliaValue::BrokenText)]);
    assert_eq!(decode_mode_result(&broken).unwrap().result_type, "ignored");
}

#[test]
fn lists_of_pairs_are_decoded() {
    assert_eq!(decode_pairs(&JuliaValue::Other).len(), 0);
}

#[test]
fn settings_are_looked_up_by_their_path() {
    let config = dict(vec![
        entry("theme", text("dark")),
        entry("editor", dict(vec![entry("tab_width", JuliaValue::Int(8))])),
    ]);
    assert_eq!(config_string(config_lookup(&config, "theme"), "light"), "dark");
    assert_eq!(config_string(config_lookup(&config, "font"), "mono"), "mono");
    assert_eq!(config_int(config_lookup(&config, "editor.tab_width"), 4), 8);
    assert_eq!(config_int(config_lookup(&config, "theme"), 4), 4);
    assert!(config_bool(Some(ConfigValue::Boolean(true)), false));
    assert!(config_bool(None, true));
}

#[test]
fn a_number_with_a_fraction_is_cut_off() {
    assert_eq!(ConfigValue::Float(f64::to_bits(3.9)).as_integer(), Some(3));
    assert_eq!(ConfigValue::Float(f64::to_bits(-3.9)).as_integer(), Some(-3));
    assert_eq!(ConfigValue::Float(f64::to_bits(1e300)).as_integer(), Some(i64::MAX));
    assert_eq!(ConfigValue::Float(f64::to_bits(f64::NAN)).as_integer(), Some(0));
    assert_eq!(ConfigValue::Integer(7).as_integer(), Some(7));
    assert_eq!(ConfigValue::Boolean(true).as_integer(), None);
}

#[test]
fn tasks_that_fail_are_answered() {
    assert_eq!(reply_addition(TaskOutcome::Done(5)), 5);
    assert_eq!(reply_addition(TaskOutcome::NotFinished), 0);
    assert_eq!(reply_eval(TaskOutcome::NotDispatched), "Error: Failed to dispatch task");
    assert_eq!(
        reply_module(TaskOutcome::Failed("boom".to_string())),
        Err("Julia error: boom".to_string())
    );
    assert!(matches!(
        reply_command(TaskOutcome::NotFinished),
        JuliaCommandResult::Error(m) if m == "Task execution failed"
    ));
    assert!(reply_flag(TaskOutcome::Done(JuliaValue::Bool(true))));
    assert!(!reply_flag(TaskOutcome::NotDispatched));
}

#[test]
fn errors_say_what_went_wrong() {
    let texts = [
        JuliaRuntimeError::InitializationFailed("a".to_string()).message(),
        JuliaRuntimeError::TaskExecutionFailed("b".to_string()).message(),
        JuliaRuntimeError::ConfigLoadFailed("c".to_string()).message(),
        JuliaRuntimeError::ScriptLoadFailed("d".to_string()).message(),
    ];
    for (text, tail) in texts.iter().zip(["a", "b", "c", "d"]) {
        assert!(text.ends_with(tail));
    }
}

#[test]
fn scripts_read_and_change_the_buffer() {
    let mut b = buffer("one\ntwo");
    assert_eq!(buffer_content(Some(&b)), Some("one\ntwo".to_string()));
    assert_eq!(buffer_line(Some(&b), 1), Some("two".to_string()));
    assert_eq!(buffer_line(Some(&b), -1), None);
    assert_eq!(buffer_line_count(Some(&b)), 2);
    assert_eq!(buffer_char_count(Some(&b)), 7);
    assert_eq!(buffer_substring(Some(&b), 1, 5), Some("ne\nt".to_string()));
    buffer_insert(&mut b, 3, Some("!".to_string()));
    assert_eq!(b.content(), "one!\ntwo");
    buffer_delete(&mut b, 0, 3);
    assert_eq!(b.content(), "!\ntwo");
    assert_eq!(buffer_content(None), None);
    assert_eq!(buffer_char_count(None), 0);
}

#[test]
fn scripts_highlight_the_buffer() {
    let mut registry = FaceRegistry::new();
    assert!(define_face(
        &mut registry,
        Some("keyword".to_string()),
        Some("#ff0000".to_string()),
        None,
        true,
        false,
        false,
    ));
    assert!(!define_face(&mut registry, None, None, None, false, false, false));
    assert!(face_exists(&registry, "keyword"));
    assert!(!face_exists(&registry, "comment"));
    let mut b = buffer("let x");
    let known = SpanRequest { start: 0, end: 3, face_name: Some("keyword".to_string()) };
    let unknown = SpanRequest { start: 4, end: 5, face_name: Some("comment".to_string()) };
    assert!(add_span(&mut b, &registry, &known));
    assert!(!add_span(&mut b, &registry, &unknown));
    assert_eq!(add_spans(&mut b, &registry, &vec![known, unknown]), 1);
    assert_eq!(b.spans_in_range(0, 5).len(), 2);
    clear_spans_in_range(&mut b, 0, 5);
    assert!(!b.has_spans());
}

#[test]
fn texts_are_written_as_literals_with_nothing_filled_in() {
    assert_eq!(text_literal("a$b \"c\" \\d\n\r\0é"), "\"a\\$b \\\"c\\\" \\\\d\\n\\r\\x00é\"");
    let mut action = TextDict::new();
    action.set("type", "key");
    action.set("char", "$");
    assert_eq!(
        dictionary_expression(&action),
        "Dict{String, String}(\"type\" => \"key\", \"char\" => \"\\$\")"
    );
    assert_eq!(call_expression("f", &vec!["1".to_string(), "2".to_string()]), "f(1, 2)");
}

fn command_call() -> CommandCall {
    let context = JuliaCommandContext {
        buffer_name: "b".to_string(),
        buffer_modified: false,
        cursor_pos: 1,
        current_line: 1,
        current_column: 1,
        line_count: 1,
        char_count: 1,
        mark_pos: -1,
    };
    CommandCall::new("go".to_string(), context)
}

fn error_of(step: CallStep) -> String {
    match step {
        CallStep::Finish(TaskOutcome::Done(JuliaCommandResult::Error(why))) => why,
        other => panic!("no error: {other:?}"),
    }
}

#[test]
fn a_command_tells_what_is_missing() {
    let mut call = command_call();
    assert_eq!(call.ask(), "isdefined(Main, :Roe)");
    let no = TaskOutcome::Done(JuliaValue::Bool(false));
    assert_eq!(error_of(call.step(no)), "Roe module not loaded");
    call.step(TaskOutcome::Done(JuliaValue::Bool(true)));
    assert_eq!(call.stage, CallStage::Function);
    let failed = TaskOutcome::Failed("x".to_string());
    assert_eq!(error_of(call.step(failed)), "call_command function not found");
    call.step(TaskOutcome::Done(JuliaValue::Bool(true)));
    let failed = TaskOutcome::Failed("x".to_string());
    assert_eq!(error_of(call.step(failed)), "Failed to create context Dict");
    let CallStep::Evaluate(asked) = call.step(TaskOutcome::Done(JuliaValue::Other)) else {
        panic!("the command is called");
    };
    assert!(asked.starts_with("Roe.call_command(\"go\", Dict("));
    let failed = TaskOutcome::Failed("x".to_string());
    assert_eq!(error_of(call.step(failed)), "Failed to call Julia command");
    assert!(matches!(
        call.step(TaskOutcome::NotDispatched),
        CallStep::Finish(TaskOutcome::NotDispatched)
    ));
}

#[test]
fn trouble_with_a_module_is_told() {
    let failed = || TaskOutcome::Failed("oops".to_string());
    assert!(matches!(
        end_loading("/m.jl", false, failed()),
        Some(TaskOutcome::Done(Err(why))) if why == "Failed to include \"/m.jl\": oops"
    ));
    assert!(matches!(
        end_loading("/m.jl", true, failed()),
        Some(TaskOutcome::Done(Err(why))) if why == "Failed 'using .Roe': oops"
    ));
    assert!(end_loading("/m.jl", true, TaskOutcome::Done(JuliaValue::Other)).is_none());
}
