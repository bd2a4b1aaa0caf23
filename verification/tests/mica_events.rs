use roe_core::mica_host::events::{
    MicaEvent, MicaEventBatch, MicaHostAction, MicaNativeAction, MicaPolicyFact, MAX_BATCH_BYTES,
    MAX_BATCH_EVENTS,
};
use roe_core::native_kernel::Capability;

#[test]
fn tab_requires_write_and_malformed_insert_is_rejected() {
    assert_eq!(
        MicaNativeAction::decode("tab", None)
            .unwrap()
            .capabilities(),
        &[Capability::TextWrite]
    );
    assert!(MicaNativeAction::decode("insert_text", None).is_err());
    assert!(MicaNativeAction::decode("unknown", None).is_err());
}

#[test]
fn admission_retains_cross_category_order_and_reports_overflow_once() {
    let mut batch = MicaEventBatch::default();
    batch.push(MicaEvent::Host(MicaHostAction::Echo("first".into())));
    batch.push(MicaEvent::Native(MicaNativeAction::Tab));
    batch.push(MicaEvent::PromptClosed);
    for _ in 3..MAX_BATCH_EVENTS + 20 {
        batch.push(MicaEvent::TaskCancelled(42));
    }
    let events: Vec<_> = batch.into_events();
    assert!(
        matches!(&events[0], MicaEvent::Host(MicaHostAction::Echo(text)) if text == "first")
    );
    assert!(matches!(
        events[1],
        MicaEvent::Native(MicaNativeAction::Tab)
    ));
    assert!(matches!(events[2], MicaEvent::PromptClosed));
    assert_eq!(events.len(), MAX_BATCH_EVENTS + 1);
    assert!(matches!(events.last(), Some(MicaEvent::Overloaded)));
}

#[test]
fn byte_budget_rejects_a_whole_policy_publication() {
    let mut batch = MicaEventBatch::default();
    batch.push(MicaEvent::Policy(vec![MicaPolicyFact::Configuration {
        key: "large".into(),
        value: "x".repeat(MAX_BATCH_BYTES),
    }]));
    let events: Vec<_> = batch.into_events();
    assert!(matches!(events.as_slice(), [MicaEvent::Overloaded]));
}
