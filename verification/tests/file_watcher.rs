use roe_core::file_watcher::{
    changes_overlap, compute_line_diff, merge_changes, merge_non_overlapping, LineChange, MergeResult,
};

#[test]
fn test_no_changes() {
    let base = "line1\nline2\nline3";
    let result = merge_changes(base, base, base);
    assert!(matches!(result, MergeResult::NoChange));
}

#[test]
fn test_clean_reload() {
    let base = "line1\nline2";
    let local = "line1\nline2"; // unchanged
    let external = "line1\nline2\nline3"; // added line

    let result = merge_changes(base, local, external);
    assert!(matches!(result, MergeResult::CleanReload(_)));
}

#[test]
fn test_local_only_changes() {
    let base = "line1\nline2";
    let local = "line1\nmodified\nline2";
    let external = "line1\nline2"; // unchanged

    let result = merge_changes(base, local, external);
    assert!(matches!(result, MergeResult::NoChange));
}

#[test]
fn test_non_overlapping_merge() {
    let base = "line1\nline2\nline3\nline4";
    let local = "modified1\nline2\nline3\nline4"; // changed line 1
    let external = "line1\nline2\nline3\nmodified4"; // changed line 4

    let result = merge_changes(base, local, external);
    // These don't overlap, should merge
    assert!(matches!(result, MergeResult::Merged { .. }));
}

#[test]
fn test_conflict_detection() {
    let base = "line1\nline2\nline3";
    let local = "line1\nlocal_change\nline3";
    let external = "line1\nexternal_change\nline3";

    let result = merge_changes(base, local, external);
    assert!(matches!(result, MergeResult::MergedWithConflicts { .. }));
}


#[test]
fn test_compute_line_diff_simple_change() {
    let old = "line1\nline2\nline3";
    let new = "line1\nMODIFIED\nline3";
    let changes = compute_line_diff(old, new);

    println!("Changes: {:?}", changes);
    assert!(!changes.is_empty(), "Should detect a change");
}

#[test]
fn test_compute_line_diff_addition() {
    let old = "line1\nline2";
    let new = "line1\nline2\nline3";
    let changes = compute_line_diff(old, new);

    println!("Addition changes: {:?}", changes);
    assert!(!changes.is_empty(), "Should detect addition");
}

#[test]
fn test_non_overlapping_merge_content_verification() {
    // This is the critical test - verify the ACTUAL merged content
    let base = "line1\nline2\nline3\nline4";
    let local = "LOCAL1\nline2\nline3\nline4"; // changed line 1
    let external = "line1\nline2\nline3\nEXTERNAL4"; // changed line 4

    let result = merge_changes(base, local, external);

    match result {
        MergeResult::Merged { content, message } => {
            println!("Merged message: {}", message);
            println!("Merged content:\n{}", content);

            // The merged content MUST contain BOTH changes
            assert!(
                content.contains("LOCAL1"),
                "Merged content must contain local change 'LOCAL1'. Got:\n{}",
                content
            );
            assert!(
                content.contains("EXTERNAL4"),
                "Merged content must contain external change 'EXTERNAL4'. Got:\n{}",
                content
            );

            // Verify unchanged lines are preserved
            assert!(content.contains("line2"), "Should preserve line2");
            assert!(content.contains("line3"), "Should preserve line3");
        }
        other => {
            panic!(
                "Expected MergeResult::Merged, got {:?}",
                std::mem::discriminant(&other)
            );
        }
    }
}

#[test]
fn test_merge_non_overlapping_direct() {
    // Test the merge_non_overlapping function directly
    let base = "line1\nline2\nline3\nline4";

    // local changes line 0 (line1 -> LOCAL1)
    let local_changes = vec![LineChange {
        start_line: 0,
        end_line: 1,
        new_lines: vec!["LOCAL1\n".to_string()],
    }];

    // external changes line 3 (line4 -> EXTERNAL4)
    let external_changes = vec![LineChange {
        start_line: 3,
        end_line: 4,
        new_lines: vec!["EXTERNAL4\n".to_string()],
    }];

    let merged = merge_non_overlapping(base, &local_changes, &external_changes);
    println!("Direct merge result:\n{}", merged);

    assert!(
        merged.contains("LOCAL1"),
        "Must contain LOCAL1. Got:\n{}",
        merged
    );
    assert!(
        merged.contains("EXTERNAL4"),
        "Must contain EXTERNAL4. Got:\n{}",
        merged
    );
}

#[test]
fn test_line_diff_then_merge_roundtrip() {
    // This tests the full roundtrip: diff -> merge
    let base = "aaa\nbbb\nccc\nddd";
    let local = "XXX\nbbb\nccc\nddd"; // changed first line
    let external = "aaa\nbbb\nccc\nYYY"; // changed last line

    let local_changes = compute_line_diff(base, local);
    let external_changes = compute_line_diff(base, external);

    println!("Local changes: {:?}", local_changes);
    println!("External changes: {:?}", external_changes);

    // Verify no overlap
    for lc in &local_changes {
        for ec in &external_changes {
            assert!(
                !changes_overlap(lc, ec),
                "Changes should not overlap: {:?} vs {:?}",
                lc,
                ec
            );
        }
    }

    let merged = merge_non_overlapping(base, &local_changes, &external_changes);
    println!("Roundtrip merge result:\n{}", merged);

    assert!(merged.contains("XXX"), "Must contain XXX. Got:\n{}", merged);
    assert!(merged.contains("YYY"), "Must contain YYY. Got:\n{}", merged);
    assert!(merged.contains("bbb"), "Must preserve bbb");
    assert!(merged.contains("ccc"), "Must preserve ccc");
}

#[test]
fn test_external_only_changes_triggers_reload() {
    let base = "line1\nline2";
    let local = "line1\nline2"; // unchanged from base
    let external = "line1\nEXTERNAL\nline2"; // external added a line

    let result = merge_changes(base, local, external);

    match result {
        MergeResult::CleanReload(content) => {
            assert!(
                content.contains("EXTERNAL"),
                "CleanReload should have external content"
            );
        }
        other => {
            panic!(
                "Expected CleanReload, got {:?}",
                std::mem::discriminant(&other)
            );
        }
    }
}

#[test]
fn lines_that_came_on_one_side_stand_where_they_came() {
    let base = "a\nb\nc\nd\ne\n";
    let local = "X\na\nb\nY\nc\nd\ne\n";
    let external = "a\nb\nc\nd\nE\n";
    let changes = compute_line_diff(base, local);
    assert_eq!(changes.len(), 2);
    assert_eq!((changes[0].start_line, changes[0].end_line), (0, 0));
    assert_eq!((changes[1].start_line, changes[1].end_line), (2, 2));
    match merge_changes(base, local, external) {
        MergeResult::Merged { content, message } => {
            assert_eq!(content, "X\na\nb\nY\nc\nd\nE\n");
            assert_eq!(message, "Merged 2 local + 1 external change(s)");
        }
        other => panic!("Expected Merged, got {:?}", other),
    }
    match merge_changes(base, external, local) {
        MergeResult::Merged { content, .. } => assert_eq!(content, "X\na\nb\nY\nc\nd\nE\n"),
        other => panic!("Expected Merged, got {:?}", other),
    }
}

#[test]
fn one_side_alone_is_what_the_merge_gives() {
    let cases = [
        ("a\nb\nc\n", "X\nY\na\nc\nZ\n"),
        ("a\nb\nc\nd\n", "b\nB\nd\nD\nE\n"),
        ("", "one\ntwo\n"),
    ];
    for (base, side) in cases {
        let changes = compute_line_diff(base, side);
        let lines: Vec<&str> = side.lines().collect();
        let ours = merge_non_overlapping(base, &changes, &vec![]);
        assert_eq!(ours.lines().collect::<Vec<&str>>(), lines);
        let theirs = merge_non_overlapping(base, &vec![], &changes);
        assert_eq!(theirs.lines().collect::<Vec<&str>>(), lines);
    }
}

#[test]
fn marked_conflicts_hold_the_lines_of_both_sides() {
    match merge_changes("a\nb\nc\n", "a\nlocal\nc\n", "a\nexternal\nc\n") {
        MergeResult::MergedWithConflicts { content, conflict_count } => {
            assert_eq!(conflict_count, 1);
            assert_eq!(
                content,
                "a\n<<<<<<< LOCAL\nlocal\n=======\nexternal\n>>>>>>> EXTERNAL\nc"
            );
        }
        other => panic!("Expected conflicts, got {:?}", other),
    }
}
