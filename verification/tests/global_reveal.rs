use ki::global_reveal::{
    group_by_path, must_open_current, sorted_marks, unique_ranges, valid_ranges, App,
    CharIndexRange, CurrentFile, GlobalReveal, GlobalRevealFile, RangeGroup, Reveal, RevealAction,
};
use ki::path::AbsolutePath;

fn path(text: &str) -> AbsolutePath {
    AbsolutePath::new(text).unwrap()
}

fn range(start: usize, end: usize) -> CharIndexRange {
    CharIndexRange { start, end }
}

fn file(name: &str, editor: u64, ranges: &[CharIndexRange]) -> GlobalRevealFile {
    GlobalRevealFile {
        path: path(name),
        possible_selection_ranges: ranges.to_vec(),
        editor,
    }
}

fn shown(reveal: &GlobalReveal, current: &str, selected: &[CharIndexRange]) -> Vec<(String, usize, bool)> {
    reveal
        .ranges(&path(current), selected)
        .into_iter()
        .map(|shown| {
            (
                shown.path.display_absolute(),
                shown.range.start,
                shown.is_primary,
            )
        })
        .collect()
}

fn entry(name: &str, start: usize, is_primary: bool) -> (String, usize, bool) {
    (name.to_string(), start, is_primary)
}

#[test]
fn ranges_are_shown_once_and_one_is_primary() {
    let reveal = GlobalReveal {
        reveal: Reveal::Mark,
        files: vec![
            file("/a", 1, &[range(1, 2), range(3, 4), range(1, 2)]),
            file("/b", 2, &[range(3, 4), range(5, 6)]),
        ],
    };
    assert_eq!(
        shown(&reveal, "/a", &[range(3, 4), range(3, 4)]),
        vec![
            entry("/a", 1, false),
            entry("/a", 3, true),
            entry("/b", 3, false),
            entry("/b", 5, false),
        ]
    );
    assert_eq!(
        shown(&reveal, "/b", &[range(3, 4), range(9, 9)]),
        vec![
            entry("/a", 1, false),
            entry("/a", 3, false),
            entry("/b", 3, true),
            entry("/b", 5, false),
        ]
    );
    assert_eq!(reveal.editors(), vec![1, 2]);
    assert_eq!(reveal.focused_file_index(&path("/b")), Some(1));
    assert_eq!(reveal.focused_file_index(&path("/c")), None);
    assert_eq!(reveal.files[1].to_multibuffer_path().editor, 2);
}

fn groups(groups: Vec<RangeGroup>) -> Vec<(String, Vec<usize>)> {
    groups
        .into_iter()
        .map(|group| {
            (
                group.path.display_absolute(),
                group.ranges.iter().map(|range| range.start).collect(),
            )
        })
        .collect()
}

#[test]
fn items_are_grouped_by_path_in_order() {
    let items = vec![
        (path("/a-b"), range(1, 1)),
        (path("/a/c"), range(2, 2)),
        (path("/a-b"), range(3, 3)),
        (path("/Z"), range(4, 4)),
        (path("/a/c"), range(2, 2)),
    ];
    assert_eq!(
        groups(group_by_path(&items)),
        vec![
            ("/Z".to_string(), vec![4]),
            ("/a/c".to_string(), vec![2, 2]),
            ("/a-b".to_string(), vec![1, 3]),
        ]
    );
    assert!(group_by_path(&[]).is_empty());
    let mut paths = ["/a-b", "/a/c", "/Z", "/a"].map(std::path::PathBuf::from);
    paths.sort();
    assert_eq!(
        paths,
        ["/Z", "/a", "/a/c", "/a-b"].map(std::path::PathBuf::from)
    );
}

#[test]
fn files_without_marks_are_left_out() {
    let marks = vec![
        RangeGroup {
            path: path("/b"),
            ranges: vec![range(1, 1), range(0, 0)],
        },
        RangeGroup {
            path: path("/c"),
            ranges: vec![],
        },
        RangeGroup {
            path: path("/a"),
            ranges: vec![range(2, 2)],
        },
    ];
    assert_eq!(
        groups(sorted_marks(&marks)),
        vec![("/a".to_string(), vec![2]), ("/b".to_string(), vec![1, 0])]
    );
}

#[test]
fn invalid_marks_are_dropped() {
    let ranges = unique_ranges(&[range(1, 2), range(3, 4), range(1, 2), range(5, 6)]);
    assert_eq!(ranges, vec![range(1, 2), range(3, 4), range(5, 6)]);
    assert_eq!(
        valid_ranges(&ranges, &[true, false, true]),
        vec![range(1, 2), range(5, 6)]
    );
}

fn app(multibuffer: Option<Reveal>, in_quickfix_list: bool) -> App {
    App {
        multibuffer: multibuffer.map(|reveal| GlobalReveal {
            reveal,
            files: vec![],
        }),
        in_quickfix_list,
        quickfix_items: vec![],
        marks: vec![],
    }
}

fn group(name: &str, ranges: &[CharIndexRange]) -> RangeGroup {
    RangeGroup {
        path: path(name),
        ranges: ranges.to_vec(),
    }
}

fn marks_of(app: &App, name: &str) -> Vec<CharIndexRange> {
    app.marks
        .iter()
        .filter(|group| group.path.as_str() == name)
        .flat_map(|group| group.ranges.to_vec())
        .collect()
}

fn shown_files(app: &App) -> Vec<(String, u64, Vec<CharIndexRange>)> {
    app.multibuffer
        .as_ref()
        .map(|reveal| {
            reveal
                .files
                .iter()
                .map(|file| {
                    (
                        file.path.as_str().to_string(),
                        file.editor,
                        file.possible_selection_ranges.to_vec(),
                    )
                })
                .collect()
        })
        .unwrap_or_default()
}

fn current(name: &str, editor: Option<u64>) -> Option<CurrentFile> {
    Some(CurrentFile {
        path: path(name),
        selection: range(7, 8),
        editor,
    })
}

#[test]
fn marks_are_shown_with_the_current_file() {
    let mut app = app(None, false);
    app.marks = vec![group("/b", &[range(7, 8)]), group("/a", &[range(1, 2)])];
    assert_eq!(app.toggle_reveal_marks(), RevealAction::ActivateMarks);
    let groups = sorted_marks(&app.marks);
    let editors = [1, 2];
    let valid = [vec![true], vec![true]];
    assert!(must_open_current(&groups, &editors, &valid, &path("/c")));
    assert!(!must_open_current(&groups, &editors, &valid, &path("/b")));
    assert_eq!(
        app.activate_global_reveal_marks(&groups, &editors, &valid, current("/c", Some(9))),
        RevealAction::CloseOthers
    );
    assert_eq!(app.multibuffer.as_ref().unwrap().reveal, Reveal::Mark);
    assert_eq!(
        shown_files(&app),
        vec![
            ("/a".to_string(), 1, vec![range(1, 2)]),
            ("/b".to_string(), 2, vec![range(7, 8)]),
            ("/c".to_string(), 9, vec![range(7, 8)]),
        ]
    );
    assert_eq!(app.toggle_reveal_marks(), RevealAction::Done);
    assert!(app.multibuffer.is_none());
    app.activate_global_reveal_marks(&groups, &editors, &valid, current("/a", None));
    assert_eq!(
        shown_files(&app),
        vec![
            ("/a".to_string(), 1, vec![range(1, 2), range(7, 8)]),
            ("/b".to_string(), 2, vec![range(7, 8)]),
        ]
    );
    app.activate_global_reveal_marks(&groups, &editors, &valid, current("/b", None));
    assert_eq!(
        shown_files(&app),
        vec![
            ("/a".to_string(), 1, vec![range(1, 2)]),
            ("/b".to_string(), 2, vec![range(7, 8)]),
        ]
    );
}

#[test]
fn marks_outside_of_the_text_are_forgotten() {
    let mut app = app(None, true);
    app.marks = vec![
        group("/b", &[range(5, 6), range(1, 2), range(5, 6), range(90, 91)]),
        group("/d", &[]),
        group("/a", &[range(40, 41)]),
        group("/c", &[range(3, 4)]),
    ];
    let groups = sorted_marks(&app.marks);
    assert_eq!(groups.len(), 3);
    let valid = [vec![false], vec![true, true, false], vec![true]];
    assert_eq!(
        app.activate_global_reveal_marks(&groups, &[1, 2, 3], &valid, None),
        RevealAction::CloseOthers
    );
    assert_eq!(
        shown_files(&app),
        vec![
            ("/b".to_string(), 2, vec![range(5, 6), range(1, 2)]),
            ("/c".to_string(), 3, vec![range(3, 4)]),
        ]
    );
    assert_eq!(marks_of(&app, "/a"), vec![]);
    assert_eq!(marks_of(&app, "/b"), vec![range(5, 6), range(1, 2)]);
    assert_eq!(marks_of(&app, "/c"), vec![range(3, 4)]);
    assert!(app.in_quickfix_list);
}

#[test]
fn without_marks_the_editor_is_asked() {
    let mut app = app(None, false);
    assert_eq!(
        app.activate_global_reveal_marks(&[], &[], &[], None),
        RevealAction::ToggleInEditor(Reveal::Mark)
    );
    app.marks = vec![group("/a", &[range(1, 1)])];
    let groups = sorted_marks(&app.marks);
    assert!(!must_open_current(&groups, &[1], &[vec![false]], &path("/c")));
    assert_eq!(
        app.activate_global_reveal_marks(&groups, &[1], &[vec![false]], current("/c", None)),
        RevealAction::ToggleInEditor(Reveal::Mark)
    );
    assert!(app.multibuffer.is_none());
    assert_eq!(marks_of(&app, "/a"), vec![]);
    assert!(sorted_marks(&app.marks).is_empty());
}

#[test]
fn nothing_is_shown_where_a_file_cannot_be_opened() {
    let mut app = app(None, false);
    app.marks = vec![
        group("/a", &[range(1, 2), range(80, 81)]),
        group("/b", &[range(1, 2), range(80, 81)]),
    ];
    let groups = sorted_marks(&app.marks);
    assert_eq!(
        app.activate_global_reveal_marks(&groups, &[1], &[vec![true, false]], None),
        RevealAction::GiveUp
    );
    assert!(app.multibuffer.is_none());
    assert_eq!(marks_of(&app, "/a"), vec![range(1, 2)]);
    assert_eq!(marks_of(&app, "/b"), vec![range(1, 2), range(80, 81)]);
    let groups = sorted_marks(&app.marks);
    let valid = [vec![true], vec![true, true]];
    assert_eq!(
        app.activate_global_reveal_marks(&groups, &[1, 2], &valid, current("/c", None)),
        RevealAction::GiveUp
    );
    assert!(app.multibuffer.is_none());
}

#[test]
fn selections_are_shown_and_hidden() {
    let mut listing = app(None, true);
    assert_eq!(
        listing.toggle_reveal_selections(),
        RevealAction::ActivateSelections
    );
    listing.in_quickfix_list = false;
    assert_eq!(
        listing.activate_global_reveal_selections(vec![], &[]),
        RevealAction::Done
    );
    assert!(listing.multibuffer.is_none());
    assert!(listing.in_quickfix_list);
    listing.quickfix_items = vec![
        (path("/b"), range(5, 6)),
        (path("/a"), range(1, 2)),
        (path("/b"), range(3, 4)),
    ];
    let groups = group_by_path(&listing.quickfix_items);
    assert_eq!(
        listing.activate_global_reveal_selections(groups, &[4, 2]),
        RevealAction::CloseOthers
    );
    assert_eq!(
        listing.multibuffer.as_ref().unwrap().reveal,
        Reveal::CurrentSelectionMode
    );
    assert_eq!(
        shown_files(&listing),
        vec![
            ("/a".to_string(), 4, vec![range(1, 2)]),
            ("/b".to_string(), 2, vec![range(5, 6), range(3, 4)]),
        ]
    );
    assert_eq!(listing.toggle_reveal_marks(), RevealAction::ActivateMarks);
    assert_eq!(listing.toggle_reveal_selections(), RevealAction::Done);
    assert!(listing.multibuffer.is_none());
    assert_eq!(
        app(None, false).toggle_reveal_selections(),
        RevealAction::ToggleInEditor(Reveal::CurrentSelectionMode)
    );
}
