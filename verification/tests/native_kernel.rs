use roe_core::buffer::Buffer;
use roe_core::native_kernel::{
    validate_layout, Capability, CapabilityGrants, KernelError, LayoutNode, LogicalLayout,
    NativeAnswers, NativeKernel, NativeOperation, NativeResult, ResourceId, SplitAxis, ViewId,
    MAX_NATIVE_RESOURCES,
};


fn text_kernel() -> NativeKernel {
    NativeKernel::new(CapabilityGrants::new(vec![
        Capability::TextRead,
        Capability::TextWrite,
        Capability::Layout,
    ]))
}

#[test]
fn native_resource_capacity_is_explicit_and_slots_are_reused() {
    let mut kernel = text_kernel();
    let mut resources = Vec::with_capacity(MAX_NATIVE_RESOURCES);
    for _ in 0..MAX_NATIVE_RESOURCES {
        resources.push(kernel.register_buffer(Buffer::new(&[])).unwrap());
    }
    assert!(matches!(
        kernel.register_buffer(Buffer::new(&[])),
        Err(KernelError::ResourceExhausted {
            capacity: MAX_NATIVE_RESOURCES
        })
    ));

    let retired = resources[0];
    kernel
        .execute(NativeOperation::CloseResource { resource: retired }, NativeAnswers::none())
        .unwrap();
    let reused = kernel.register_buffer(Buffer::new(&[])).unwrap();
    assert_eq!(reused.slot, retired.slot);
    assert_ne!(reused.generation, retired.generation);
}

fn created_id(result: NativeResult) -> ResourceId {
    match result {
        NativeResult::ResourceCreated(id) => id,
        other => panic!("expected resource identity, got {other:?}"),
    }
}

#[test]
fn stale_generation_cannot_access_reused_slot() {
    let mut kernel = text_kernel();
    let first = created_id(
        kernel
            .execute(NativeOperation::CreateText {
                name: "first".to_string(),
                initial: "one".to_string(),
            }, NativeAnswers::none())
            .unwrap(),
    );
    kernel
        .execute(NativeOperation::CloseResource { resource: first }, NativeAnswers::none())
        .unwrap();
    let second = created_id(
        kernel
            .execute(NativeOperation::CreateText {
                name: "second".to_string(),
                initial: "two".to_string(),
            }, NativeAnswers::none())
            .unwrap(),
    );
    assert_eq!(first.slot, second.slot);
    assert_ne!(first.generation, second.generation);
    assert!(matches!(
        kernel.execute(NativeOperation::Snapshot { resource: first }, NativeAnswers::none()),
        Err(KernelError::StaleResource(id)) if id == first
    ));
}

#[test]
fn unicode_mutations_use_character_ranges_and_round_trip_undo() {
    let mut kernel = text_kernel();
    let id = created_id(
        kernel
            .execute(NativeOperation::CreateText {
                name: "unicode".to_string(),
                initial: "aéz".to_string(),
            }, NativeAnswers::none())
            .unwrap(),
    );
    kernel
        .execute(NativeOperation::Replace {
            resource: id,
            start: 1,
            end: 2,
            text: "🦀".to_string(),
        }, NativeAnswers::none())
        .unwrap();
    assert_eq!(kernel.snapshot(id).unwrap().text, "a🦀z");
    kernel
        .execute(NativeOperation::Undo { resource: id }, NativeAnswers::none())
        .unwrap();
    assert_eq!(kernel.snapshot(id).unwrap().text, "aéz");
    kernel
        .execute(NativeOperation::Redo { resource: id }, NativeAnswers::none())
        .unwrap();
    assert_eq!(kernel.snapshot(id).unwrap().text, "a🦀z");
}

#[test]
fn capability_is_checked_before_resource_disclosure() {
    let mut kernel = NativeKernel::new(CapabilityGrants::new(vec![Capability::TextWrite]));
    let id = created_id(
        kernel
            .execute(NativeOperation::CreateText {
                name: "secret".to_string(),
                initial: "classified".to_string(),
            }, NativeAnswers::none())
            .unwrap(),
    );
    assert!(matches!(
        kernel.execute(NativeOperation::Snapshot { resource: id }, NativeAnswers::none()),
        Err(KernelError::CapabilityDenied(Capability::TextRead))
    ));
}

#[test]
fn layout_validation_rejects_duplicate_and_missing_active_views() {
    let duplicate = LogicalLayout {
        columns: 80,
        rows: 24,
        active: ViewId(1),
        root: LayoutNode::Split {
            axis: SplitAxis::Horizontal,
            ratio: f32::to_bits(0.5),
            first: Box::new(LayoutNode::View(ViewId(1))),
            second: Box::new(LayoutNode::View(ViewId(1))),
        },
    };
    assert!(validate_layout(&duplicate).is_err());

    let missing = LogicalLayout {
        columns: 80,
        rows: 24,
        active: ViewId(2),
        root: LayoutNode::View(ViewId(1)),
    };
    assert!(validate_layout(&missing).is_err());
}

#[test]
fn out_of_range_mutation_is_atomic() {
    let mut kernel = text_kernel();
    let id = created_id(
        kernel
            .execute(NativeOperation::CreateText {
                name: "range".to_string(),
                initial: "abc".to_string(),
            }, NativeAnswers::none())
            .unwrap(),
    );
    assert!(matches!(
        kernel.execute(NativeOperation::Delete {
            resource: id,
            start: 2,
            end: 9,
        }, NativeAnswers::none()),
        Err(KernelError::InvalidRange { .. })
    ));
    assert_eq!(kernel.snapshot(id).unwrap().text, "abc");
}

#[test]
fn a_registered_text_is_undone_wherever_its_positions_lie_in_it() {
    let mut kernel = text_kernel();
    let mut buffer = Buffer::new(&[]);
    buffer.insert_pos("abc".to_string(), 0);
    buffer.load_str("wxyz");
    let mut short = Buffer::new(&[]);
    short.insert_pos("abc".to_string(), 0);
    short.load_str("w");
    let id = kernel.register_buffer(buffer).unwrap();
    let odd = kernel.register_buffer(short).unwrap();
    assert!(kernel.admits(&NativeOperation::Undo { resource: id }));
    assert!(!kernel.admits(&NativeOperation::Undo { resource: odd }));
    assert!(kernel.admits(&NativeOperation::Redo { resource: odd }));
    kernel.execute(NativeOperation::Undo { resource: id }, NativeAnswers::none()).unwrap();
    assert_eq!(kernel.snapshot(id).unwrap().text, "z");
    assert!(kernel.admits(&NativeOperation::Redo { resource: id }));
    kernel.execute(NativeOperation::Redo { resource: id }, NativeAnswers::none()).unwrap();
    assert_eq!(kernel.snapshot(id).unwrap().text, "abcz");
}

#[test]
fn a_lent_buffer_is_worked_on() {
    let mut kernel = text_kernel();
    let id = kernel.register_buffer(Buffer::new(&[])).unwrap();
    let mut own = Buffer::new(&[]);
    own.load_str("one");
    kernel.lend(id, &mut own);
    let insert = NativeOperation::Insert { resource: id, at: 3, text: " two".to_string() };
    kernel.execute(insert, NativeAnswers::none()).unwrap();
    kernel.lend(id, &mut own);
    assert_eq!(own.content(), "one two");
    assert_eq!(kernel.snapshot(id).unwrap().text, "");
    assert_eq!(kernel.snapshot(id).unwrap().text_revision, 1);
}
