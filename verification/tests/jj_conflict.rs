use ki::jj_conflict::{lines, lines_from_rope, JjConflictLine, JjConflictLineKind, StyleKey};

fn line(line_index: usize, kind: JjConflictLineKind) -> JjConflictLine {
    JjConflictLine { line_index, kind }
}

#[test]
fn highlights_jj_diff_and_snapshot_sections() {
    let content = [
        "before",
        "<<<<<<< conflict 1 of 1",
        "%%%%%%% diff from: base",
        "\\\\\\\\\\\\\\        to: side-a",
        " context",
        "-old",
        "+new",
        "+++++++ side-b",
        "snapshot",
        ">>>>>>> conflict 1 of 1 ends",
        "after",
    ]
    .join("\n");

    assert_eq!(
        lines(&content),
        vec![
            line(1, JjConflictLineKind::Marker),
            line(2, JjConflictLineKind::Marker),
            line(3, JjConflictLineKind::Marker),
            line(4, JjConflictLineKind::Diff),
            line(5, JjConflictLineKind::DiffRemoved),
            line(6, JjConflictLineKind::DiffAdded),
            line(7, JjConflictLineKind::Marker),
            line(8, JjConflictLineKind::Snapshot),
            line(9, JjConflictLineKind::Marker),
        ]
    );
}

#[test]
fn supports_long_markers_and_snapshot_base_sections() {
    let content = [
        "<<<<<<<<<<<<<<< conflict 1 of 1",
        "+++++++++++++++ side-a",
        "left",
        "--------------- base",
        "base",
        ">>>>>>>>>>>>>>> conflict 1 of 1 ends",
    ]
    .join("\n");

    assert_eq!(
        lines(&content),
        vec![
            line(0, JjConflictLineKind::Marker),
            line(1, JjConflictLineKind::Marker),
            line(2, JjConflictLineKind::Snapshot),
            line(3, JjConflictLineKind::Marker),
            line(4, JjConflictLineKind::Snapshot),
            line(5, JjConflictLineKind::Marker),
        ]
    );
}

#[test]
fn ropes_have_the_same_conflict_lines() {
    let content = "a\r\n<<<<<<<\r\nhead\n%%%%%%%\n+x\r\n>>>>>>>\nb\n";
    let rope = ropey::Rope::from_str(content);
    let expected = vec![
        line(1, JjConflictLineKind::Marker),
        line(2, JjConflictLineKind::Marker),
        line(3, JjConflictLineKind::Marker),
        line(4, JjConflictLineKind::DiffAdded),
        line(5, JjConflictLineKind::Marker),
    ];
    assert_eq!(lines_from_rope(&rope), expected);
    assert_eq!(lines(content), expected);
}

#[test]
fn rope_lines_end_at_other_line_breaks_too() {
    for content in [
        "a\u{b}<<<<<<<",
        "a\u{c}<<<<<<<",
        "a\r<<<<<<<",
        "a\u{85}<<<<<<<",
        "a\u{2028}<<<<<<<",
        "a\u{2029}<<<<<<<",
    ] {
        let rope = ropey::Rope::from_str(content);
        assert_eq!(
            lines_from_rope(&rope),
            vec![line(1, JjConflictLineKind::Marker)]
        );
        assert!(lines(content).is_empty());
    }
    let rope = ropey::Rope::from_str("\n\r\n\r<<<<<<<\n");
    assert_eq!(
        lines_from_rope(&rope),
        vec![
            line(3, JjConflictLineKind::Marker),
            line(4, JjConflictLineKind::Marker),
        ]
    );
}

#[test]
fn six_characters_are_no_marker() {
    assert!(lines("<<<<<<\nx").is_empty());
    assert!(lines("").is_empty());
    assert!(lines(">>>>>>>\n+++++++\nx").is_empty());
}

#[test]
fn kinds_have_their_styles() {
    assert_eq!(
        JjConflictLineKind::Marker.style_key(),
        StyleKey::JjConflictMarker
    );
    assert_eq!(
        JjConflictLineKind::Diff.style_key(),
        StyleKey::JjConflictDiff
    );
    assert_eq!(
        JjConflictLineKind::DiffRemoved.style_key(),
        StyleKey::HunkOld
    );
    assert_eq!(JjConflictLineKind::DiffAdded.style_key(), StyleKey::HunkNew);
    assert_eq!(
        JjConflictLineKind::Snapshot.style_key(),
        StyleKey::JjConflictSnapshot
    );
}
