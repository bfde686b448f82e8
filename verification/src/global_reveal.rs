//! Showing the selections of several files at once.

use crate::path::{
    comes_before, law_path_order_is_transitive, law_paths_are_in_order, path_precedes, AbsolutePath,
};
use vstd::prelude::*;

verus! {

/// What lies between two characters of a text.
#[derive(Clone, Copy, Debug, PartialEq, Eq, Structural)]
pub struct CharIndexRange {
    pub start: usize,
    pub end: usize,
}

/// What is shown.
#[derive(Clone, Copy, Debug, PartialEq, Eq, Structural)]
pub enum Reveal {
    CurrentSelectionMode,
    Cursor,
    Mark,
}

/// A file of which selections are shown.
pub struct GlobalRevealFile {
    pub path: AbsolutePath,
    /// The ranges of the possible selections.
    pub possible_selection_ranges: Vec<CharIndexRange>,
    /// The number of the editor that holds the file.
    pub editor: u64,
}

/// The files of which selections are shown.
pub struct GlobalReveal {
    pub reveal: Reveal,
    pub files: Vec<GlobalRevealFile>,
}

/// A selection that is shown. `P` is how paths are held.
pub struct MultibufferRange<P> {
    pub path: P,
    pub range: CharIndexRange,
    /// Whether the selection is the one that the user is at.
    pub is_primary: bool,
}

/// The meaning of a selection that is shown.
pub open spec fn range_view(range: MultibufferRange<AbsolutePath>) -> MultibufferRange<Seq<char>> {
    MultibufferRange { path: range.path@, range: range.range, is_primary: range.is_primary }
}

/// The meaning of a list of selections.
pub open spec fn ranges_view(ranges: Seq<MultibufferRange<AbsolutePath>>) -> Seq<
    MultibufferRange<Seq<char>>,
> {
    ranges.map_values(|range: MultibufferRange<AbsolutePath>| range_view(range))
}

/// The items of a list, each once, where it comes first.
pub open spec fn unique(ranges: Seq<CharIndexRange>) -> Seq<CharIndexRange>
    decreases ranges.len(),
{
    if ranges.len() == 0 {
        Seq::empty()
    } else {
        let before = unique(ranges.drop_last());
        if ranges.drop_last().contains(ranges.last()) {
            before
        } else {
            before.push(ranges.last())
        }
    }
}

/// The selections of a file that are shown. In the current file, the one that the editor has
/// selected is where the user is, or the first one, if the editor has selected none of them.
pub open spec fn file_ranges(
    file: GlobalRevealFile,
    current: Seq<char>,
    selected: CharIndexRange,
) -> Seq<MultibufferRange<Seq<char>>> {
    let ranges = unique(file.possible_selection_ranges@);
    Seq::new(
        ranges.len(),
        |i: int|
            MultibufferRange {
                path: file.path@,
                range: ranges[i],
                is_primary: file.path@ == current && (ranges[i] == selected || (
                !file.possible_selection_ranges@.contains(selected) && i == 0)),
            },
    )
}

/// The selections of the first `n` files that are shown. `selected` is what their editors have
/// selected.
pub open spec fn shown_ranges(
    files: Seq<GlobalRevealFile>,
    current: Seq<char>,
    selected: Seq<CharIndexRange>,
    n: nat,
) -> Seq<MultibufferRange<Seq<char>>>
    decreases n,
{
    if n == 0 {
        Seq::empty()
    } else {
        shown_ranges(files, current, selected, (n - 1) as nat) + file_ranges(
            files[n - 1],
            current,
            selected[n - 1],
        )
    }
}

/// The number of the first of the files from `i` on that has the path `path`.
pub open spec fn file_index(files: Seq<GlobalRevealFile>, path: Seq<char>, i: int) -> Option<int>
    decreases files.len() - i,
{
    if i < 0 || i >= files.len() {
        None
    } else if files[i].path@ == path {
        Some(i)
    } else {
        file_index(files, path, i + 1)
    }
}

fn has_range(ranges: &[CharIndexRange], range: CharIndexRange) -> (has: bool)
    ensures
        has == ranges@.contains(range),
{
    let mut i: usize = 0;
    while i < ranges.len()
        invariant
            i <= ranges.len(),
            forall|j: int| 0 <= j < i ==> ranges@[j] != range,
        decreases ranges.len() - i,
    {
        if ranges[i] == range {
            return true;
        }
        i += 1;
    }
    false
}

proof fn lemma_unique_contains(ranges: Seq<CharIndexRange>, range: CharIndexRange)
    ensures
        unique(ranges).contains(range) == ranges.contains(range),
    decreases ranges.len(),
{
    if ranges.len() > 0 {
        let rest = ranges.drop_last();
        lemma_unique_contains(rest, range);
        assert(ranges =~= rest.push(ranges.last()));
        if unique(ranges).contains(range) {
            let i = choose|i: int| 0 <= i < unique(ranges).len() && unique(ranges)[i] == range;
            if i < unique(rest).len() {
                assert(unique(rest)[i] == range);
                let j = choose|j: int| 0 <= j < rest.len() && rest[j] == range;
                assert(ranges[j] == range);
            } else {
                assert(ranges[ranges.len() - 1] == range);
            }
        }
        if ranges.contains(range) {
            let j = choose|j: int| 0 <= j < ranges.len() && ranges[j] == range;
            if j < rest.len() {
                assert(rest[j] == range);
                let i = choose|i: int| 0 <= i < unique(rest).len() && unique(rest)[i] == range;
                assert(unique(ranges)[i] == range);
            } else if rest.contains(range) {
                let i = choose|i: int| 0 <= i < unique(rest).len() && unique(rest)[i] == range;
                assert(unique(ranges)[i] == range);
            } else {
                assert(unique(ranges)[unique(rest).len() as int] == range);
            }
        }
    }
}

/// The ranges of a list, each once, where it comes first.
pub fn unique_ranges(ranges: &[CharIndexRange]) -> (result: Vec<CharIndexRange>)
    ensures
        result@ == unique(ranges@),
{
    let mut result: Vec<CharIndexRange> = Vec::new();
    let mut i: usize = 0;
    while i < ranges.len()
        invariant
            i <= ranges.len(),
            result@ == unique(ranges@.take(i as int)),
        decreases ranges.len() - i,
    {
        assert(ranges@.take(i + 1).drop_last() == ranges@.take(i as int));
        assert(ranges@.take(i + 1).last() == ranges@[i as int]);
        proof {
            lemma_unique_contains(ranges@.take(i as int), ranges@[i as int]);
        }
        if !has_range(result.as_slice(), ranges[i]) {
            result.push(ranges[i]);
        }
        i += 1;
    }
    assert(ranges@.take(ranges@.len() as int) == ranges@);
    result
}

/// A file that is shown among others.
pub struct MultibufferFile {
    pub path: AbsolutePath,
    /// The number of the editor that holds the file.
    pub editor: u64,
}

impl GlobalRevealFile {
    /// The file, without its selections.
    pub fn to_multibuffer_path(&self) -> (file: MultibufferFile)
        ensures
            file.path@ == self.path@,
            file.editor == self.editor,
    {
        MultibufferFile { path: self.path.copy(), editor: self.editor }
    }
}

impl GlobalReveal {
    /// The editors that hold the files.
    pub fn editors(&self) -> (editors: Vec<u64>)
        ensures
            editors@ == self.files@.map_values(|file: GlobalRevealFile| file.editor),
    {
        let mut editors: Vec<u64> = Vec::new();
        let mut i: usize = 0;
        while i < self.files.len()
            invariant
                i <= self.files.len(),
                editors@.len() == i,
                forall|j: int| 0 <= j < i ==> #[trigger] editors@[j] == self.files@[j].editor,
            decreases self.files.len() - i,
        {
            editors.push(self.files[i].editor);
            i += 1;
        }
        assert(editors@ =~= self.files@.map_values(|file: GlobalRevealFile| file.editor));
        editors
    }

    /// The selections that are shown. `selected` is what the editors of the files have selected.
    /// See [`shown_ranges`].
    pub fn ranges(&self, current_file_path: &AbsolutePath, selected: &[CharIndexRange]) -> (ranges:
        Vec<MultibufferRange<AbsolutePath>>)
        requires
            selected.len() == self.files@.len(),
        ensures
            ranges_view(ranges@) == shown_ranges(
                self.files@,
                current_file_path@,
                selected@,
                self.files@.len(),
            ),
    {
        let mut ranges: Vec<MultibufferRange<AbsolutePath>> = Vec::new();
        let mut i: usize = 0;
        assert(ranges_view(ranges@) =~= shown_ranges(
            self.files@,
            current_file_path@,
            selected@,
            0,
        ));
        while i < self.files.len()
            invariant
                i <= self.files.len(),
                selected.len() == self.files@.len(),
                ranges_view(ranges@) == shown_ranges(
                    self.files@,
                    current_file_path@,
                    selected@,
                    i as nat,
                ),
            decreases self.files.len() - i,
        {
            let file = &self.files[i];
            let ghost before = ranges_view(ranges@);
            let ghost expected = file_ranges(*file, current_file_path@, selected@[i as int]);
            let has_selected = has_range(file.possible_selection_ranges.as_slice(), selected[i]);
            let list = unique_ranges(file.possible_selection_ranges.as_slice());
            let is_current = file.path.same(current_file_path);
            let mut k: usize = 0;
            assert(before =~= before + expected.take(0));
            while k < list.len()
                invariant
                    k <= list.len(),
                    i < self.files.len(),
                    i < selected.len(),
                    *file == self.files@[i as int],
                    list@ == unique(file.possible_selection_ranges@),
                    has_selected == file.possible_selection_ranges@.contains(selected@[i as int]),
                    is_current == (file.path@ == current_file_path@),
                    expected == file_ranges(*file, current_file_path@, selected@[i as int]),
                    ranges_view(ranges@) == before + expected.take(k as int),
                decreases list.len() - k,
            {
                let is_primary = is_current && (list[k] == selected[i] || (!has_selected && k
                    == 0));
                let range = MultibufferRange {
                    path: file.path.copy(),
                    range: list[k],
                    is_primary,
                };
                let ghost so_far = ranges_view(ranges@);
                ranges.push(range);
                assert(ranges_view(ranges@) =~= so_far.push(range_view(range)));
                assert(range_view(range) == expected[k as int]);
                k += 1;
                assert(ranges_view(ranges@) =~= before + expected.take(k as int));
            }
            assert(expected.take(expected.len() as int) == expected);
            i += 1;
        }
        ranges
    }

    /// The number of the current file among those that are shown.
    pub fn focused_file_index(&self, current_file_path: &AbsolutePath) -> (index: Option<usize>)
        ensures
            match index {
                Some(index) => file_index(self.files@, current_file_path@, 0) == Some(
                    index as int,
                ),
                None => file_index(self.files@, current_file_path@, 0) is None,
            },
    {
        let mut i: usize = 0;
        while i < self.files.len()
            invariant
                i <= self.files.len(),
                file_index(self.files@, current_file_path@, 0) == file_index(
                    self.files@,
                    current_file_path@,
                    i as int,
                ),
            decreases self.files.len() - i,
        {
            if self.files[i].path.same(current_file_path) {
                return Some(i);
            }
            i += 1;
        }
        None
    }
}

/// A file with ranges in it.
pub struct RangeGroup {
    pub path: AbsolutePath,
    pub ranges: Vec<CharIndexRange>,
}

impl RangeGroup {
    /// The same group once more.
    pub fn copy(&self) -> (copy: Self)
        ensures
            copy.path@ == self.path@,
            copy.ranges@ == self.ranges@,
    {
        RangeGroup { path: self.path.copy(), ranges: copied_ranges(self.ranges.as_slice()) }
    }
}

fn copied_ranges(ranges: &[CharIndexRange]) -> (copy: Vec<CharIndexRange>)
    ensures
        copy@ == ranges@,
{
    let mut copy: Vec<CharIndexRange> = Vec::new();
    let mut i: usize = 0;
    while i < ranges.len()
        invariant
            i <= ranges.len(),
            copy@ =~= ranges@.take(i as int),
        decreases ranges.len() - i,
    {
        copy.push(ranges[i]);
        i += 1;
    }
    assert(ranges@.take(ranges@.len() as int) == ranges@);
    copy
}

/// The ranges of those items that have the path `path`, in their order.
pub open spec fn ranges_at(items: Seq<(AbsolutePath, CharIndexRange)>, path: Seq<char>) -> Seq<
    CharIndexRange,
>
    decreases items.len(),
{
    if items.len() == 0 {
        Seq::empty()
    } else {
        let before = ranges_at(items.drop_last(), path);
        if items.last().0@ == path {
            before.push(items.last().1)
        } else {
            before
        }
    }
}

/// Whether `groups` are the items grouped by their paths: one group for each path that an item has,
/// with the ranges of the items in their order, and the groups in the order of their paths.
pub open spec fn is_grouping(
    items: Seq<(AbsolutePath, CharIndexRange)>,
    groups: Seq<RangeGroup>,
) -> bool {
    &&& forall|g: int|
        0 <= g < groups.len() ==> (#[trigger] groups[g]).ranges@ == ranges_at(
            items,
            groups[g].path@,
        ) && groups[g].ranges@.len() > 0
    &&& forall|g: int, h: int|
        0 <= g < h < groups.len() ==> path_precedes(
            (#[trigger] groups[g]).path@,
            (#[trigger] groups[h]).path@,
        )
    &&& forall|i: int|
        0 <= i < items.len() ==> exists|g: int|
            0 <= g < groups.len() && (#[trigger] groups[g]).path@ == (#[trigger] items[i]).0@
}

proof fn lemma_ranges_at_other(
    items: Seq<(AbsolutePath, CharIndexRange)>,
    path: Seq<char>,
)
    requires
        forall|i: int| 0 <= i < items.len() ==> (#[trigger] items[i]).0@ != path,
    ensures
        ranges_at(items, path) == Seq::<CharIndexRange>::empty(),
    decreases items.len(),
{
    if items.len() > 0 {
        let rest = items.drop_last();
        assert(items[items.len() - 1].0@ != path);
        assert forall|i: int| 0 <= i < rest.len() implies (#[trigger] rest[i]).0@ != path by {
            assert(rest[i] == items[i]);
        }
        lemma_ranges_at_other(rest, path);
    }
}

/// Puts an item into the groups of the items before it.
fn put(
    groups: &mut Vec<RangeGroup>,
    path: &AbsolutePath,
    range: CharIndexRange,
    items: Ghost<Seq<(AbsolutePath, CharIndexRange)>>,
    item: Ghost<(AbsolutePath, CharIndexRange)>,
)
    requires
        is_grouping(items@, old(groups)@),
        item@.0@ == path@,
        item@.1 == range,
    ensures
        is_grouping(items@.push(item@), final(groups)@),
{
    let ghost before = groups@;
    let ghost all = items@.push(item@);
    assert(all.drop_last() =~= items@);
    assert(all.last() == item@);
    let mut g: usize = 0;
    while g < groups.len() && comes_before(groups[g].path.as_str(), path.as_str())
        invariant
            g <= groups.len(),
            groups@ == before,
            forall|h: int|
                0 <= h < g ==> path_precedes((#[trigger] before[h]).path@, path@),
        decreases groups.len() - g,
    {
        g += 1;
    }
    let found = g < groups.len() && groups[g].path.same(path);
    if found {
        let mut group = groups.remove(g);
        let ghost old_group = group;
        group.ranges.push(range);
        groups.insert(g, group);
        proof {
            let after = groups@;
            assert(after =~= before.update(g as int, group));
            assert forall|k: int| 0 <= k < after.len() implies (#[trigger] after[k]).ranges@
                == ranges_at(all, after[k].path@) && after[k].ranges@.len() > 0 by {
                assert(before[k].ranges@ == ranges_at(items@, before[k].path@));
                if k < g {
                    assert(path_precedes(before[k].path@, before[g as int].path@));
                    law_paths_are_in_order(before[k].path@, path@);
                } else if k > g {
                    assert(path_precedes(before[g as int].path@, before[k].path@));
                    law_paths_are_in_order(path@, before[k].path@);
                }
            }
            assert forall|a: int, b: int| 0 <= a < b < after.len() implies path_precedes(
                (#[trigger] after[a]).path@,
                (#[trigger] after[b]).path@,
            ) by {
                assert(path_precedes(before[a].path@, before[b].path@));
            }
            assert forall|i: int| 0 <= i < all.len() implies exists|k: int|
                0 <= k < after.len() && (#[trigger] after[k]).path@ == (#[trigger] all[i]).0@ by {
                if i < items@.len() {
                    assert(all[i] == items@[i]);
                    let k = choose|k: int|
                        0 <= k < before.len() && (#[trigger] before[k]).path@ == items@[i].0@;
                    assert(after[k].path@ == all[i].0@);
                } else {
                    assert(after[g as int].path@ == all[i].0@);
                }
            }
        }
    } else {
        let mut ranges: Vec<CharIndexRange> = Vec::new();
        ranges.push(range);
        let group = RangeGroup { path: path.copy(), ranges };
        groups.insert(g, group);
        proof {
            let after = groups@;
            assert forall|k: int| 0 <= k < before.len() implies (k < g ==> path_precedes(
                (#[trigger] before[k]).path@,
                path@,
            )) && (k >= g ==> path_precedes(path@, before[k].path@)) && before[k].path@
                != path@ by {
                law_paths_are_in_order(before[k].path@, path@);
                if k >= g {
                    law_paths_are_in_order(before[g as int].path@, path@);
                    if k > g {
                        assert(path_precedes(before[g as int].path@, before[k].path@));
                        law_path_order_is_transitive(
                            path@,
                            before[g as int].path@,
                            before[k].path@,
                        );
                    }
                }
            }
            assert forall|i: int| 0 <= i < items@.len() implies (#[trigger] items@[i]).0@
                != path@ by {
                let k = choose|k: int|
                    0 <= k < before.len() && (#[trigger] before[k]).path@ == items@[i].0@;
                assert(before[k].path@ != path@);
            }
            lemma_ranges_at_other(items@, path@);
            assert forall|k: int| 0 <= k < after.len() implies (#[trigger] after[k]).ranges@
                == ranges_at(all, after[k].path@) && after[k].ranges@.len() > 0 by {
                if k < g {
                    assert(after[k] == before[k]);
                } else if k > g {
                    assert(after[k] == before[k - 1]);
                } else {
                    assert(after[k].ranges@ =~= ranges_at(all, path@));
                }
            }
            assert forall|a: int, b: int| 0 <= a < b < after.len() implies path_precedes(
                (#[trigger] after[a]).path@,
                (#[trigger] after[b]).path@,
            ) by {
                if a < g {
                    assert(after[a] == before[a]);
                } else if a > g {
                    assert(after[a] == before[a - 1]);
                }
                if b < g {
                    assert(after[b] == before[b]);
                } else if b > g {
                    assert(after[b] == before[b - 1]);
                }
                if a != g && b != g {
                    let a0 = if a < g {
                        a
                    } else {
                        a - 1
                    };
                    let b0 = if b < g {
                        b
                    } else {
                        b - 1
                    };
                    assert(path_precedes(before[a0].path@, before[b0].path@));
                }
            }
            assert forall|i: int| 0 <= i < all.len() implies exists|k: int|
                0 <= k < after.len() && (#[trigger] after[k]).path@ == (#[trigger] all[i]).0@ by {
                if i < items@.len() {
                    assert(all[i] == items@[i]);
                    let k = choose|k: int|
                        0 <= k < before.len() && (#[trigger] before[k]).path@ == items@[i].0@;
                    assert(after[if k < g {
                        k
                    } else {
                        k + 1
                    }].path@ == all[i].0@);
                } else {
                    assert(after[g as int].path@ == all[i].0@);
                }
            }
        }
    }
}

/// The items of a list grouped by the files that they are in. See [`is_grouping`].
pub fn group_by_path(items: &[(AbsolutePath, CharIndexRange)]) -> (groups: Vec<RangeGroup>)
    ensures
        is_grouping(items@, groups@),
{
    let mut groups: Vec<RangeGroup> = Vec::new();
    let mut i: usize = 0;
    while i < items.len()
        invariant
            i <= items.len(),
            is_grouping(items@.take(i as int), groups@),
        decreases items.len() - i,
    {
        assert(items@.take(i + 1) =~= items@.take(i as int).push(items@[i as int]));
        put(
            &mut groups,
            &items[i].0,
            items[i].1,
            Ghost(items@.take(i as int)),
            Ghost(items@[i as int]),
        );
        i += 1;
    }
    assert(items@.take(items@.len() as int) == items@);
    groups
}

/// The ranges of marks, each with its path.
pub open spec fn mark_items(marks: Seq<RangeGroup>) -> Seq<(AbsolutePath, CharIndexRange)>
    decreases marks.len(),
{
    if marks.len() == 0 {
        Seq::empty()
    } else {
        mark_items(marks.drop_last()) + group_items(marks.last(), marks.last().ranges@.len())
    }
}

/// The first `n` ranges of a group, each with its path.
pub open spec fn group_items(group: RangeGroup, n: nat) -> Seq<(AbsolutePath, CharIndexRange)> {
    Seq::new(n, |i: int| (group.path, group.ranges@[i]))
}

/// The marks of all files, in the order of the paths. Files without marks are left out. See
/// [`is_grouping`].
pub fn sorted_marks(marks: &[RangeGroup]) -> (groups: Vec<RangeGroup>)
    ensures
        is_grouping(mark_items(marks@), groups@),
{
    let mut groups: Vec<RangeGroup> = Vec::new();
    let mut i: usize = 0;
    while i < marks.len()
        invariant
            i <= marks.len(),
            is_grouping(mark_items(marks@.take(i as int)), groups@),
        decreases marks.len() - i,
    {
        let ghost before = mark_items(marks@.take(i as int));
        let ghost group = marks@[i as int];
        assert(marks@.take(i + 1).drop_last() == marks@.take(i as int));
        assert(marks@.take(i + 1).last() == group);
        let mut k: usize = 0;
        assert(before =~= before + group_items(group, 0));
        while k < marks[i].ranges.len()
            invariant
                i < marks.len(),
                k <= group.ranges@.len(),
                group == marks@[i as int],
                is_grouping(before + group_items(group, k as nat), groups@),
            decreases group.ranges@.len() - k,
        {
            let ghost item = (group.path, group.ranges@[k as int]);
            assert((before + group_items(group, k as nat)).push(item) =~= before + group_items(
                group,
                (k + 1) as nat,
            ));
            put(
                &mut groups,
                &marks[i].path,
                marks[i].ranges[k],
                Ghost(before + group_items(group, k as nat)),
                Ghost(item),
            );
            k += 1;
        }
        i += 1;
    }
    assert(marks@.take(marks@.len() as int) == marks@);
    groups
}

/// Those of some ranges that are valid.
pub open spec fn kept(ranges: Seq<CharIndexRange>, valid: Seq<bool>) -> Seq<CharIndexRange>
    decreases ranges.len(),
{
    if ranges.len() == 0 {
        Seq::empty()
    } else {
        let before = kept(ranges.drop_last(), valid);
        if valid[ranges.len() - 1] {
            before.push(ranges.last())
        } else {
            before
        }
    }
}

/// Those of some ranges that are valid. `valid` says of each whether it is.
pub fn valid_ranges(ranges: &[CharIndexRange], valid: &[bool]) -> (result: Vec<CharIndexRange>)
    requires
        valid.len() == ranges.len(),
    ensures
        result@ == kept(ranges@, valid@),
{
    let mut result: Vec<CharIndexRange> = Vec::new();
    let mut i: usize = 0;
    while i < ranges.len()
        invariant
            i <= ranges.len(),
            valid.len() == ranges.len(),
            result@ == kept(ranges@.take(i as int), valid@),
        decreases ranges.len() - i,
    {
        assert(ranges@.take(i + 1).drop_last() == ranges@.take(i as int));
        assert(ranges@.take(i + 1).last() == ranges@[i as int]);
        if valid[i] {
            result.push(ranges[i]);
        }
        i += 1;
    }
    assert(ranges@.take(ranges@.len() as int) == ranges@);
    result
}

/// What is meant by a file of which selections are shown.
#[verifier::ext_equal]
pub struct FileSpec {
    pub path: Seq<char>,
    pub ranges: Seq<CharIndexRange>,
    pub editor: u64,
}

/// The meaning of files of which selections are shown.
pub open spec fn files_view(files: Seq<GlobalRevealFile>) -> Seq<FileSpec> {
    files.map_values(
        |file: GlobalRevealFile|
            FileSpec {
                path: file.path@,
                ranges: file.possible_selection_ranges@,
                editor: file.editor,
            },
    )
}

/// The file that the user is in.
pub struct CurrentFile {
    pub path: AbsolutePath,
    /// What is selected in it.
    pub selection: CharIndexRange,
    /// The number of the editor that holds it, where it was opened to be shown.
    pub editor: Option<u64>,
}

/// Whether one of some files has the path `path`.
pub open spec fn is_among(files: Seq<FileSpec>, path: Seq<char>) -> bool {
    exists|i: int| 0 <= i < files.len() && (#[trigger] files[i]).path == path
}

/// Whether the file that the user is in has to be opened to be shown with the files that have
/// marks: there are such files, and it is not one of them.
pub open spec fn must_be_opened(marked: Seq<FileSpec>, path: Seq<char>) -> bool {
    marked.len() > 0 && !is_among(marked, path)
}

/// The files with the current one among them, and in it the place where the user is.
pub open spec fn with_current(files: Seq<FileSpec>, current: Option<CurrentFile>) -> Seq<FileSpec> {
    match current {
        Some(current) => {
            let added = if is_among(files, current.path@) {
                files
            } else {
                files.push(
                    FileSpec {
                        path: current.path@,
                        ranges: seq![current.selection],
                        editor: current.editor->0,
                    },
                )
            };
            added.map_values(
                |file: FileSpec|
                    FileSpec {
                        ranges: unique(
                            if file.path == current.path@ {
                                file.ranges.push(current.selection)
                            } else {
                                file.ranges
                            },
                        ),
                        ..file
                    },
            )
        },
        None => files.map_values(
            |file: FileSpec| FileSpec { ranges: unique(file.ranges), ..file },
        ),
    }
}

/// Those of some files that have ranges.
pub open spec fn having_ranges(files: Seq<FileSpec>) -> Seq<FileSpec>
    decreases files.len(),
{
    if files.len() == 0 {
        Seq::empty()
    } else {
        let before = having_ranges(files.drop_last());
        if files.last().ranges.len() > 0 {
            before.push(files.last())
        } else {
            before
        }
    }
}

fn files_having_ranges(files: Vec<GlobalRevealFile>) -> (kept: Vec<GlobalRevealFile>)
    ensures
        files_view(kept@) == having_ranges(files_view(files@)),
{
    let ghost all = files_view(files@);
    let ghost given = files@;
    let mut kept: Vec<GlobalRevealFile> = Vec::new();
    assert(files_view(kept@) =~= having_ranges(all.take(0)));
    for file in it: files
        invariant
            it.seq() == given,
            all == files_view(given),
            files_view(kept@) == having_ranges(all.take(it.index())),
    {
        let ghost before = files_view(kept@);
        assert(all.take(it.index() + 1).drop_last() == all.take(it.index()));
        assert(all.take(it.index() + 1).last() == all[it.index()]);
        if file.possible_selection_ranges.len() > 0 {
            kept.push(file);
            assert(files_view(kept@) =~= before.push(all[it.index()]));
        }
    }
    assert(all.take(all.len() as int) == all);
    kept
}

fn is_file_among(files: &[GlobalRevealFile], path: &AbsolutePath) -> (found: bool)
    ensures
        found == is_among(files_view(files@), path@),
{
    let ghost view = files_view(files@);
    let mut i: usize = 0;
    while i < files.len()
        invariant
            i <= files.len(),
            view == files_view(files@),
            forall|j: int| 0 <= j < i ==> (#[trigger] view[j]).path != path@,
        decreases files.len() - i,
    {
        if files[i].path.same(path) {
            assert(view[i as int].path == path@);
            return true;
        }
        i += 1;
    }
    false
}

fn file_with_current(file: GlobalRevealFile, current: &Option<CurrentFile>) -> (result:
    GlobalRevealFile)
    ensures
        result.path@ == file.path@,
        result.editor == file.editor,
        result.possible_selection_ranges@ == unique(
            if current is Some && file.path@ == current->0.path@ {
                file.possible_selection_ranges@.push(current->0.selection)
            } else {
                file.possible_selection_ranges@
            },
        ),
{
    let GlobalRevealFile { path, possible_selection_ranges, editor } = file;
    let mut ranges = possible_selection_ranges;
    if let Some(current) = current {
        if path.same(&current.path) {
            ranges.push(current.selection);
        }
    }
    GlobalRevealFile {
        path,
        possible_selection_ranges: unique_ranges(ranges.as_slice()),
        editor,
    }
}

/// What is shown for files that have marks: those files, and the one that the user is in. See
/// [`with_current`].
fn marks_reveal(marked: Vec<GlobalRevealFile>, current: Option<CurrentFile>) -> (reveal:
    GlobalReveal)
    requires
        current is Some && !is_among(files_view(marked@), current->0.path@)
            ==> current->0.editor is Some,
    ensures
        reveal.reveal is Mark,
        files_view(reveal.files@) == with_current(files_view(marked@), current),
{
    let ghost all_view = files_view(marked@);
    let ghost here = current;
    let mut all = marked;
    if let Some(current) = &current {
        if !is_file_among(all.as_slice(), &current.path) {
            if let Some(editor) = current.editor {
                let mut ranges: Vec<CharIndexRange> = Vec::new();
                ranges.push(current.selection);
                assert(ranges@ =~= seq![current.selection]);
                all.push(
                    GlobalRevealFile {
                        path: current.path.copy(),
                        possible_selection_ranges: ranges,
                        editor,
                    },
                );
                assert(files_view(all@) =~= all_view.push(
                    FileSpec {
                        path: current.path@,
                        ranges: seq![current.selection],
                        editor: current.editor->0,
                    },
                ));
            }
        }
    }
    let ghost added = files_view(all@);
    let ghost given = all@;
    let mut files: Vec<GlobalRevealFile> = Vec::new();
    for file in it: all
        invariant
            it.seq() == given,
            added == files_view(given),
            here == current,
            files@.len() == it.index(),
            forall|j: int|
                0 <= j < it.index() ==> files_view(files@)[j] == (FileSpec {
                    ranges: unique(
                        if here is Some && added[j].path == here->0.path@ {
                            added[j].ranges.push(here->0.selection)
                        } else {
                            added[j].ranges
                        },
                    ),
                    ..#[trigger] added[j]
                }),
    {
        files.push(file_with_current(file, &current));
    }
    assert(files_view(files@) =~= with_current(all_view, here));
    GlobalReveal { reveal: Reveal::Mark, files }
}

/// The files of some marks, the first as many as were opened: each with the number of the editor
/// that holds it and with the ranges that lie within its text, each once. Of every range `valid`
/// says whether it does.
pub open spec fn opened_files(
    groups: Seq<RangeGroup>,
    editors: Seq<u64>,
    valid: Seq<Vec<bool>>,
) -> Seq<FileSpec> {
    Seq::new(
        editors.len(),
        |i: int|
            FileSpec {
                path: groups[i].path@,
                ranges: kept(unique(groups[i].ranges@), valid[i]@),
                editor: editors[i],
            },
    )
}

/// Whether `valid` judges the ranges of the first files of some marks, each range once.
pub open spec fn is_judgement(groups: Seq<RangeGroup>, valid: Seq<Vec<bool>>) -> bool {
    &&& valid.len() <= groups.len()
    &&& forall|i: int|
        0 <= i < valid.len() ==> (#[trigger] valid[i])@.len() == unique(groups[i].ranges@).len()
}

/// What is known of the files of some marks, once the first of them were opened: the files, and the
/// marks that they keep. See [`opened_files`].
pub fn opened_marks(groups: &[RangeGroup], editors: &[u64], valid: &[Vec<bool>]) -> (result: (
    Vec<GlobalRevealFile>,
    Vec<RangeGroup>,
))
    requires
        editors.len() == valid.len(),
        is_judgement(groups@, valid@),
    ensures
        files_view(result.0@) == opened_files(groups@, editors@, valid@),
        result.1@.len() == editors.len(),
        forall|i: int|
            0 <= i < editors.len() ==> (#[trigger] result.1@[i]).path@ == groups[i].path@
                && result.1@[i].ranges@ == kept(unique(groups[i].ranges@), valid[i]@),
{
    let mut files: Vec<GlobalRevealFile> = Vec::new();
    let mut marks: Vec<RangeGroup> = Vec::new();
    let mut i: usize = 0;
    while i < editors.len()
        invariant
            i <= editors.len(),
            editors.len() == valid.len(),
            is_judgement(groups@, valid@),
            files@.len() == i,
            marks@.len() == i,
            forall|k: int|
                0 <= k < i ==> #[trigger] files_view(files@)[k] == opened_files(
                    groups@,
                    editors@,
                    valid@,
                )[k],
            forall|k: int|
                0 <= k < i ==> (#[trigger] marks@[k]).path@ == groups[k].path@ && marks@[k].ranges@
                    == kept(unique(groups[k].ranges@), valid[k]@),
        decreases editors.len() - i,
    {
        let ghost before = files_view(files@);
        let ranges = unique_ranges(groups[i].ranges.as_slice());
        assert(valid@[i as int]@.len() == ranges@.len());
        let shown = valid_ranges(ranges.as_slice(), valid[i].as_slice());
        let stored = valid_ranges(ranges.as_slice(), valid[i].as_slice());
        files.push(
            GlobalRevealFile {
                path: groups[i].path.copy(),
                possible_selection_ranges: shown,
                editor: editors[i],
            },
        );
        marks.push(RangeGroup { path: groups[i].path.copy(), ranges: stored });
        assert(files_view(files@).take(i as int) =~= before);
        assert forall|k: int| 0 <= k < i + 1 implies #[trigger] files_view(files@)[k]
            == opened_files(groups@, editors@, valid@)[k] by {
            if k < i {
                assert(files_view(files@)[k] == before[k]);
            }
        }
        i += 1;
    }
    assert(files_view(files@) =~= opened_files(groups@, editors@, valid@));
    (files, marks)
}

/// Whether the file that the user is in has to be opened, now that the files of the marks are. See
/// [`must_be_opened`].
pub fn must_open_current(
    groups: &[RangeGroup],
    editors: &[u64],
    valid: &[Vec<bool>],
    current: &AbsolutePath,
) -> (must: bool)
    requires
        editors.len() == valid.len(),
        is_judgement(groups@, valid@),
    ensures
        must == must_be_opened(
            having_ranges(opened_files(groups@, editors@, valid@)),
            current@,
        ),
{
    let marked = files_having_ranges(opened_marks(groups, editors, valid).0);
    assert(marked@.len() == files_view(marked@).len());
    marked.len() > 0 && !is_file_among(marked.as_slice(), current)
}

/// The files of some groups, each with the number of the editor that holds it.
pub open spec fn grouped_files(groups: Seq<RangeGroup>, editors: Seq<u64>) -> Seq<FileSpec> {
    Seq::new(
        groups.len(),
        |i: int|
            FileSpec { path: groups[i].path@, ranges: groups[i].ranges@, editor: editors[i] },
    )
}

fn files_of_groups(groups: Vec<RangeGroup>, editors: &[u64]) -> (files: Vec<GlobalRevealFile>)
    requires
        editors.len() == groups.len(),
    ensures
        files_view(files@) == grouped_files(groups@, editors@),
{
    let ghost all = groups@;
    let mut files: Vec<GlobalRevealFile> = Vec::new();
    let mut i: usize = 0;
    for group in it: groups
        invariant
            it.seq() == all,
            i == it.index(),
            editors.len() == all.len(),
            files@.len() == i,
            forall|k: int|
                0 <= k < i ==> #[trigger] files_view(files@)[k] == grouped_files(all, editors@)[k],
    {
        let ghost before = files_view(files@);
        files.push(
            GlobalRevealFile {
                path: group.path,
                possible_selection_ranges: group.ranges,
                editor: editors[i],
            },
        );
        assert forall|k: int| 0 <= k < i + 1 implies #[trigger] files_view(files@)[k]
            == grouped_files(all, editors@)[k] by {
            if k < i {
                assert(files_view(files@)[k] == before[k]);
            }
        }
        i += 1;
    }
    assert(files_view(files@) =~= grouped_files(all, editors@));
    files
}

/// What is to be done when selections are to be shown, or no longer.
#[derive(Clone, Copy, Debug, PartialEq, Eq, Structural)]
pub enum RevealAction {
    /// Nothing more.
    Done,
    /// The files are shown. Close whatever is open beside the current editor.
    CloseOthers,
    /// Nothing is shown: a file could not be opened.
    GiveUp,
    /// Show the marks of all files.
    ActivateMarks,
    /// Show the items of the list.
    ActivateSelections,
    /// Let the editor show its own selections, or stop doing so.
    ToggleInEditor(Reveal),
}

/// The editor, as far as it shows the selections of several files.
pub struct App {
    /// What is shown of several files.
    pub multibuffer: Option<GlobalReveal>,
    /// Whether the user goes through a list of places.
    pub in_quickfix_list: bool,
    /// The places of that list.
    pub quickfix_items: Vec<(AbsolutePath, CharIndexRange)>,
    /// The marks that the user has set.
    pub marks: Vec<RangeGroup>,
}

/// The marks that the file `path` has.
pub open spec fn stored_marks(marks: Seq<RangeGroup>, path: Seq<char>) -> Seq<CharIndexRange> {
    ranges_at(mark_items(marks), path)
}

proof fn lemma_ranges_at_splits(
    a: Seq<(AbsolutePath, CharIndexRange)>,
    b: Seq<(AbsolutePath, CharIndexRange)>,
    path: Seq<char>,
)
    ensures
        ranges_at(a + b, path) == ranges_at(a, path) + ranges_at(b, path),
    decreases b.len(),
{
    if b.len() == 0 {
        assert(a + b =~= a);
        assert(ranges_at(a, path) + ranges_at(b, path) =~= ranges_at(a, path));
    } else {
        assert((a + b).drop_last() =~= a + b.drop_last());
        lemma_ranges_at_splits(a, b.drop_last(), path);
        assert(ranges_at(a + b, path) =~= ranges_at(a, path) + ranges_at(b, path));
    }
}

proof fn lemma_ranges_of_group(group: RangeGroup, n: nat, path: Seq<char>)
    requires
        n <= group.ranges@.len(),
    ensures
        ranges_at(group_items(group, n), path) == if group.path@ == path {
            group.ranges@.take(n as int)
        } else {
            Seq::empty()
        },
    decreases n,
{
    let items = group_items(group, n);
    if n == 0 {
        assert(group.ranges@.take(0) =~= Seq::empty());
    } else {
        assert(items.drop_last() =~= group_items(group, (n - 1) as nat));
        lemma_ranges_of_group(group, (n - 1) as nat, path);
        assert(group.ranges@.take(n as int) =~= group.ranges@.take(n - 1).push(
            group.ranges@[n - 1],
        ));
    }
}

proof fn lemma_stored_marks_push(marks: Seq<RangeGroup>, group: RangeGroup, path: Seq<char>)
    ensures
        stored_marks(marks.push(group), path) == stored_marks(marks, path) + if group.path@
            == path {
            group.ranges@
        } else {
            Seq::empty()
        },
{
    let all = marks.push(group);
    assert(all.drop_last() =~= marks);
    lemma_ranges_at_splits(
        mark_items(marks),
        group_items(group, group.ranges@.len()),
        path,
    );
    lemma_ranges_of_group(group, group.ranges@.len(), path);
    assert(group.ranges@.take(group.ranges@.len() as int) == group.ranges@);
}

proof fn lemma_having_ranges_keeps_order(files: Seq<FileSpec>)
    requires
        forall|i: int, j: int|
            0 <= i < j < files.len() ==> path_precedes(
                (#[trigger] files[i]).path,
                (#[trigger] files[j]).path,
            ),
    ensures
        ({
            let marked = having_ranges(files);
            &&& forall|i: int, j: int|
                0 <= i < j < marked.len() ==> path_precedes(
                    (#[trigger] marked[i]).path,
                    (#[trigger] marked[j]).path,
                )
            &&& forall|i: int|
                0 <= i < marked.len() ==> exists|k: int|
                    0 <= k < files.len() && (#[trigger] files[k]) == (#[trigger] marked[i])
        }),
    decreases files.len(),
{
    if files.len() > 0 {
        let rest = files.drop_last();
        let before = having_ranges(rest);
        let marked = having_ranges(files);
        assert forall|i: int, j: int| 0 <= i < j < rest.len() implies path_precedes(
            (#[trigger] rest[i]).path,
            (#[trigger] rest[j]).path,
        ) by {
            assert(files[i] == rest[i] && files[j] == rest[j]);
        }
        lemma_having_ranges_keeps_order(rest);
        assert forall|i: int| 0 <= i < marked.len() implies exists|k: int|
            0 <= k < files.len() && (#[trigger] files[k]) == (#[trigger] marked[i]) by {
            if i < before.len() {
                assert(marked[i] == before[i]);
                let k = choose|k: int| 0 <= k < rest.len() && (#[trigger] rest[k]) == before[i];
                assert(files[k] == marked[i]);
            } else {
                assert(files[files.len() - 1] == marked[i]);
            }
        }
        assert forall|i: int, j: int| 0 <= i < j < marked.len() implies path_precedes(
            (#[trigger] marked[i]).path,
            (#[trigger] marked[j]).path,
        ) by {
            assert(marked[i] == before[i]);
            if j < before.len() {
                assert(marked[j] == before[j]);
            } else {
                let k = choose|k: int| 0 <= k < rest.len() && (#[trigger] rest[k]) == before[i];
                assert(files[k] == marked[i]);
                assert(files[files.len() - 1] == marked[j]);
            }
        }
    }
}

/// Whether `files` show the items of a list: one file for each path that an item has, with the
/// ranges of the items in their order, and the files in the order of their paths.
pub open spec fn shows_items(
    items: Seq<(AbsolutePath, CharIndexRange)>,
    files: Seq<FileSpec>,
) -> bool {
    &&& forall|i: int|
        0 <= i < files.len() ==> (#[trigger] files[i]).ranges == ranges_at(items, files[i].path)
            && files[i].ranges.len() > 0
    &&& forall|i: int, j: int|
        0 <= i < j < files.len() ==> path_precedes(
            (#[trigger] files[i]).path,
            (#[trigger] files[j]).path,
        )
    &&& forall|i: int| 0 <= i < items.len() ==> is_among(files, (#[trigger] items[i]).0@)
}

/// Whether marks are shown.
pub open spec fn shows_marks(multibuffer: Option<GlobalReveal>) -> bool {
    match multibuffer {
        Some(shown) => shown.reveal is Mark,
        None => false,
    }
}

impl App {
    /// Shows the marks of all files, or stops doing so.
    pub fn toggle_reveal_marks(&mut self) -> (action: RevealAction)
        ensures
            final(self).in_quickfix_list == old(self).in_quickfix_list,
            final(self).quickfix_items == old(self).quickfix_items,
            final(self).marks == old(self).marks,
            if shows_marks(old(self).multibuffer) {
                final(self).multibuffer is None && action is Done
            } else {
                final(self).multibuffer == old(self).multibuffer && action is ActivateMarks
            },
    {
        let shown = match &self.multibuffer {
            Some(shown) => matches!(shown.reveal, Reveal::Mark),
            None => false,
        };
        if shown {
            self.multibuffer = None;
            return RevealAction::Done;
        }
        RevealAction::ActivateMarks
    }

    /// Shows the selections: those of all files, where the user goes through a list of places, and
    /// else those of the editor. If selections of several files are shown, stops doing so.
    pub fn toggle_reveal_selections(&mut self) -> (action: RevealAction)
        ensures
            final(self).in_quickfix_list == old(self).in_quickfix_list,
            final(self).quickfix_items == old(self).quickfix_items,
            final(self).marks == old(self).marks,
            final(self).multibuffer is None,
            action == (if old(self).multibuffer is Some {
                RevealAction::Done
            } else if old(self).in_quickfix_list {
                RevealAction::ActivateSelections
            } else {
                RevealAction::ToggleInEditor(Reveal::CurrentSelectionMode)
            }),
    {
        if self.multibuffer.is_some() {
            self.multibuffer = None;
            RevealAction::Done
        } else if self.in_quickfix_list {
            RevealAction::ActivateSelections
        } else {
            RevealAction::ToggleInEditor(Reveal::CurrentSelectionMode)
        }
    }

    /// Sets the marks of a file.
    fn set_marks(&mut self, group: RangeGroup)
        ensures
            final(self).multibuffer == old(self).multibuffer,
            final(self).in_quickfix_list == old(self).in_quickfix_list,
            final(self).quickfix_items == old(self).quickfix_items,
            forall|path: Seq<char>|
                #[trigger] stored_marks(final(self).marks@, path) == if path == group.path@ {
                    group.ranges@
                } else {
                    stored_marks(old(self).marks@, path)
                },
    {
        let ghost all = self.marks@;
        let mut marks: Vec<RangeGroup> = Vec::new();
        let mut i: usize = 0;
        while i < self.marks.len()
            invariant
                i <= self.marks@.len(),
                self.marks@ == all,
                *self == *old(self),
                forall|path: Seq<char>|
                    #[trigger] stored_marks(marks@, path) == if path == group.path@ {
                        Seq::empty()
                    } else {
                        stored_marks(all.take(i as int), path)
                    },
            decreases self.marks@.len() - i,
        {
            let ghost before = marks@;
            let ghost seen = all.take(i as int);
            assert(all.take(i + 1) =~= seen.push(all[i as int]));
            if !self.marks[i].path.same(&group.path) {
                marks.push(self.marks[i].copy());
            }
            assert forall|path: Seq<char>| #[trigger] stored_marks(marks@, path) == if path
                == group.path@ {
                Seq::empty()
            } else {
                stored_marks(all.take(i + 1), path)
            } by {
                lemma_stored_marks_push(seen, all[i as int], path);
                assert(stored_marks(seen, path) + Seq::<CharIndexRange>::empty()
                    =~= stored_marks(seen, path));
                if all[i as int].path@ != group.path@ {
                    lemma_stored_marks_push(before, marks@.last(), path);
                    assert(marks@ =~= before.push(marks@.last()));
                    assert(stored_marks(before, path) + Seq::<CharIndexRange>::empty()
                        =~= stored_marks(before, path));
                }
            }
            i += 1;
        }
        assert(all.take(all.len() as int) == all);
        let ghost before = marks@;
        marks.push(group);
        assert forall|path: Seq<char>| #[trigger] stored_marks(marks@, path) == if path
            == group.path@ {
            group.ranges@
        } else {
            stored_marks(all, path)
        } by {
            lemma_stored_marks_push(before, group, path);
            assert(Seq::<CharIndexRange>::empty() + group.ranges@ =~= group.ranges@);
            assert(stored_marks(before, path) + Seq::<CharIndexRange>::empty() =~= stored_marks(
                before,
                path,
            ));
        }
        self.marks = marks;
    }

    /// Shows the files that the items of the list are in, if there are any. The user goes through
    /// the list from then on. `groups` are the items grouped by their files, and `editors` the
    /// numbers of the editors that hold those files.
    pub fn activate_global_reveal_selections(&mut self, groups: Vec<RangeGroup>, editors: &[u64])
        -> (action: RevealAction)
        requires
            is_grouping(old(self).quickfix_items@, groups@),
            editors.len() == groups.len(),
        ensures
            final(self).in_quickfix_list,
            final(self).quickfix_items == old(self).quickfix_items,
            final(self).marks == old(self).marks,
            if old(self).quickfix_items@.len() > 0 {
                &&& action is CloseOthers
                &&& final(self).multibuffer is Some
                &&& final(self).multibuffer->0.reveal is CurrentSelectionMode
                &&& shows_items(
                    old(self).quickfix_items@,
                    files_view(final(self).multibuffer->0.files@),
                )
                &&& files_view(final(self).multibuffer->0.files@) == grouped_files(
                    groups@,
                    editors@,
                )
            } else {
                &&& action is Done
                &&& final(self).multibuffer == old(self).multibuffer
            },
    {
        let ghost items = self.quickfix_items@;
        let ghost all = groups@;
        let files = files_of_groups(groups, editors);
        assert(files@.len() == files_view(files@).len());
        self.in_quickfix_list = true;
        if files.len() == 0 {
            assert(items.len() == 0) by {
                if items.len() > 0 {
                    assert(items[0].0@ == items[0].0@);
                }
            }
            return RevealAction::Done;
        }
        proof {
            let view = files_view(files@);
            assert(items.len() > 0) by {
                assert(all[0].ranges@ == ranges_at(items, all[0].path@));
            }
            assert forall|i: int, j: int| 0 <= i < j < view.len() implies path_precedes(
                (#[trigger] view[i]).path,
                (#[trigger] view[j]).path,
            ) by {
                assert(path_precedes(all[i].path@, all[j].path@));
            }
            assert forall|i: int| 0 <= i < view.len() implies (#[trigger] view[i]).ranges
                == ranges_at(items, view[i].path) && view[i].ranges.len() > 0 by {
                assert(all[i].ranges@ == ranges_at(items, all[i].path@));
            }
            assert forall|i: int| 0 <= i < items.len() implies is_among(
                view,
                (#[trigger] items[i]).0@,
            ) by {
                let g = choose|g: int|
                    0 <= g < all.len() && (#[trigger] all[g]).path@ == items[i].0@;
                assert(view[g].path == items[i].0@);
            }
        }
        self.multibuffer = Some(GlobalReveal { reveal: Reveal::CurrentSelectionMode, files });
        RevealAction::CloseOthers
    }

    /// Shows the files that have marks, and the file that the user is in. `groups` are the marks,
    /// `editors` the numbers of the editors that hold the files of them, and `valid` says of the
    /// marks of each file, each once, which lie within the text. Marks that do not are forgotten.
    /// Without marks in any file, the editor is left to show that there are none. Nothing is shown
    /// where `editors` ends before `groups` does, or the file that the user is in was not opened
    /// and had to be: then a file could not be opened.
    pub fn activate_global_reveal_marks(
        &mut self,
        groups: &[RangeGroup],
        editors: &[u64],
        valid: &[Vec<bool>],
        current: Option<CurrentFile>,
    ) -> (action: RevealAction)
        requires
            is_grouping(mark_items(old(self).marks@), groups@),
            editors.len() == valid.len(),
            is_judgement(groups@, valid@),
        ensures
            final(self).in_quickfix_list == old(self).in_quickfix_list,
            final(self).quickfix_items == old(self).quickfix_items,
            forall|i: int|
                0 <= i < editors.len() ==> stored_marks(
                    final(self).marks@,
                    (#[trigger] groups[i]).path@,
                ) == kept(unique(groups[i].ranges@), valid[i]@),
            forall|path: Seq<char>|
                !is_among(opened_files(groups@, editors@, valid@), path)
                    ==> #[trigger] stored_marks(final(self).marks@, path) == stored_marks(
                    old(self).marks@,
                    path,
                ),
            ({
                let marked = having_ranges(opened_files(groups@, editors@, valid@));
                if editors.len() < groups.len() {
                    &&& action is GiveUp
                    &&& final(self).multibuffer == old(self).multibuffer
                } else if marked.len() == 0 {
                    &&& action == RevealAction::ToggleInEditor(Reveal::Mark)
                    &&& final(self).multibuffer == old(self).multibuffer
                } else if current is Some && must_be_opened(marked, current->0.path@)
                    && current->0.editor is None {
                    &&& action is GiveUp
                    &&& final(self).multibuffer == old(self).multibuffer
                } else {
                    &&& action is CloseOthers
                    &&& final(self).multibuffer is Some
                    &&& final(self).multibuffer->0.reveal is Mark
                    &&& files_view(final(self).multibuffer->0.files@) == with_current(
                        marked,
                        current,
                    )
                    &&& forall|i: int, j: int|
                        0 <= i < j < marked.len() ==> path_precedes(
                            (#[trigger] marked[i]).path,
                            (#[trigger] marked[j]).path,
                        )
                }
            }),
    {
        let ghost before = self.marks@;
        let ghost opened = opened_files(groups@, editors@, valid@);
        let (files, marks) = opened_marks(groups, editors, valid);
        let ghost judged = marks@;
        let shown_count: usize = marks.len();
        for group in it: marks
            invariant
                it.seq() == judged,
                judged.len() == editors.len(),
                editors.len() == valid.len(),
                valid.len() <= groups.len(),
                is_grouping(mark_items(before), groups@),
                self.multibuffer == old(self).multibuffer,
                self.in_quickfix_list == old(self).in_quickfix_list,
                self.quickfix_items == old(self).quickfix_items,
                opened == opened_files(groups@, editors@, valid@),
                forall|i: int|
                    0 <= i < judged.len() ==> (#[trigger] judged[i]).path@ == groups[i].path@
                        && judged[i].ranges@ == kept(unique(groups[i].ranges@), valid[i]@),
                forall|i: int|
                    0 <= i < it.index() ==> stored_marks(
                        self.marks@,
                        (#[trigger] groups[i]).path@,
                    ) == kept(unique(groups[i].ranges@), valid[i]@),
                forall|path: Seq<char>|
                    !is_among(opened.take(it.index()), path) ==> #[trigger] stored_marks(
                        self.marks@,
                        path,
                    ) == stored_marks(before, path),
        {
            let ghost n = it.index();
            let ghost stored = self.marks@;
            self.set_marks(group);
            proof {
                assert forall|i: int| 0 <= i < n + 1 implies stored_marks(
                    self.marks@,
                    (#[trigger] groups[i]).path@,
                ) == kept(unique(groups[i].ranges@), valid[i]@) by {
                    if i < n {
                        assert(path_precedes(groups[i].path@, groups[n].path@));
                        law_paths_are_in_order(groups[i].path@, groups[n].path@);
                    } else {
                        assert(judged[i].path@ == groups[i].path@);
                    }
                }
                assert forall|path: Seq<char>|
                    !is_among(opened.take(n + 1), path) implies #[trigger] stored_marks(
                    self.marks@,
                    path,
                ) == stored_marks(before, path) by {
                    assert(opened.take(n + 1)[n].path == group.path@);
                    if is_among(opened.take(n), path) {
                        let k = choose|k: int|
                            0 <= k < n && (#[trigger] opened.take(n)[k]).path == path;
                        assert(opened.take(n + 1)[k].path == path);
                    }
                }
            }
        }
        assert(opened.take(opened.len() as int) == opened);
        let marked = files_having_ranges(files);
        let ghost marked_view = files_view(marked@);
        assert(marked@.len() == marked_view.len());
        if shown_count < groups.len() {
            return RevealAction::GiveUp;
        }
        if marked.len() == 0 {
            return RevealAction::ToggleInEditor(Reveal::Mark);
        }
        if let Some(current) = &current {
            if current.editor.is_none() && !is_file_among(marked.as_slice(), &current.path) {
                return RevealAction::GiveUp;
            }
        }
        proof {
            assert forall|i: int, j: int| 0 <= i < j < opened.len() implies path_precedes(
                (#[trigger] opened[i]).path,
                (#[trigger] opened[j]).path,
            ) by {
                assert(path_precedes(groups[i].path@, groups[j].path@));
            }
            lemma_having_ranges_keeps_order(opened);
        }
        self.multibuffer = Some(marks_reveal(marked, current));
        RevealAction::CloseOthers
    }
}

proof fn lemma_unique_is_unique(ranges: Seq<CharIndexRange>)
    ensures
        unique(ranges).no_duplicates(),
    decreases ranges.len(),
{
    if ranges.len() > 0 {
        let rest = ranges.drop_last();
        lemma_unique_is_unique(rest);
        lemma_unique_contains(rest, ranges.last());
        let before = unique(rest);
        if !rest.contains(ranges.last()) {
            assert forall|i: int, j: int|
                0 <= i < unique(ranges).len() && 0 <= j < unique(ranges).len() && i
                    != j implies unique(ranges)[i] != unique(ranges)[j] by {
                if i == before.len() {
                    assert(before.contains(before[j]));
                } else if j == before.len() {
                    assert(before.contains(before[i]));
                }
            }
        }
    }
}

/// With the files that have marks, the place where the user is is always shown, once, and so is
/// every mark.
pub proof fn law_marks_and_the_current_place_are_shown(
    marked: Seq<FileSpec>,
    current: CurrentFile,
)
    ensures
        ({
            let shown = with_current(marked, Some(current));
            &&& exists|i: int|
                0 <= i < shown.len() && (#[trigger] shown[i]).path == current.path@
                    && shown[i].ranges.contains(current.selection)
            &&& forall|i: int|
                0 <= i < shown.len() ==> (#[trigger] shown[i]).ranges.no_duplicates()
            &&& forall|i: int, range: CharIndexRange|
                0 <= i < marked.len() && #[trigger] marked[i].ranges.contains(range)
                    ==> shown[i].path == marked[i].path && shown[i].editor == marked[i].editor
                    && shown[i].ranges.contains(range)
        }),
{
    let shown = with_current(marked, Some(current));
    let added = if is_among(marked, current.path@) {
        marked
    } else {
        marked.push(
            FileSpec {
                path: current.path@,
                ranges: seq![current.selection],
                editor: current.editor->0,
            },
        )
    };
    let here = choose|i: int| 0 <= i < added.len() && (#[trigger] added[i]).path == current.path@;
    assert(0 <= here < added.len() && added[here].path == current.path@) by {
        if !is_among(marked, current.path@) {
            assert(added[marked.len() as int].path == current.path@);
        }
    }
    let ranges = added[here].ranges.push(current.selection);
    assert(shown[here].ranges == unique(ranges));
    assert(ranges[added[here].ranges.len() as int] == current.selection);
    lemma_unique_contains(ranges, current.selection);
    assert forall|i: int| 0 <= i < shown.len() implies (
    #[trigger] shown[i]).ranges.no_duplicates() by {
        lemma_unique_is_unique(added[i].ranges.push(current.selection));
        lemma_unique_is_unique(added[i].ranges);
    }
    assert forall|i: int, range: CharIndexRange|
        0 <= i < marked.len() && #[trigger] marked[i].ranges.contains(range) implies shown[i].path
        == marked[i].path && shown[i].editor == marked[i].editor && shown[i].ranges.contains(
        range,
    ) by {
        let k = choose|k: int| 0 <= k < marked[i].ranges.len() && marked[i].ranges[k] == range;
        assert(added[i] == marked[i]);
        assert(marked[i].ranges.push(current.selection)[k] == range);
        lemma_unique_contains(marked[i].ranges.push(current.selection), range);
        lemma_unique_contains(marked[i].ranges, range);
    }
}

/// No range of a file is shown twice, and all of them are shown.
pub proof fn law_ranges_are_shown_once(
    file: GlobalRevealFile,
    current: Seq<char>,
    selected: CharIndexRange,
)
    ensures
        forall|i: int, j: int|
            0 <= i < j < file_ranges(file, current, selected).len() ==> (#[trigger] file_ranges(
                file,
                current,
                selected,
            )[i]).range != (#[trigger] file_ranges(file, current, selected)[j]).range,
        forall|range: CharIndexRange|
            file.possible_selection_ranges@.contains(range) ==> exists|i: int|
                0 <= i < file_ranges(file, current, selected).len() && (#[trigger] file_ranges(
                    file,
                    current,
                    selected,
                )[i]).range == range,
{
    let ranges = unique(file.possible_selection_ranges@);
    let shown = file_ranges(file, current, selected);
    lemma_unique_is_unique(file.possible_selection_ranges@);
    assert forall|range: CharIndexRange|
        file.possible_selection_ranges@.contains(range) implies exists|i: int|
        0 <= i < shown.len() && (#[trigger] shown[i]).range == range by {
        lemma_unique_contains(file.possible_selection_ranges@, range);
        let i = choose|i: int| 0 <= i < ranges.len() && ranges[i] == range;
        assert(shown[i].range == range);
    }
}

/// In the current file exactly one selection is where the user is, if any is shown, and in the
/// other files none is.
pub proof fn law_the_user_is_at_one_selection(
    file: GlobalRevealFile,
    current: Seq<char>,
    selected: CharIndexRange,
)
    ensures
        file.path@ != current ==> forall|i: int|
            0 <= i < file_ranges(file, current, selected).len() ==> !(#[trigger] file_ranges(
                file,
                current,
                selected,
            )[i]).is_primary,
        file.path@ == current && file_ranges(file, current, selected).len() > 0 ==> exists|i: int|
            0 <= i < file_ranges(file, current, selected).len() && #[trigger] is_only_primary(
                file_ranges(file, current, selected),
                i,
            ),
{
    let ranges = unique(file.possible_selection_ranges@);
    let shown = file_ranges(file, current, selected);
    lemma_unique_is_unique(file.possible_selection_ranges@);
    lemma_unique_contains(file.possible_selection_ranges@, selected);
    if file.path@ == current && shown.len() > 0 {
        if file.possible_selection_ranges@.contains(selected) {
            let i = choose|i: int| 0 <= i < ranges.len() && ranges[i] == selected;
            assert(is_only_primary(shown, i));
        } else {
            assert forall|j: int| 0 <= j < shown.len() implies ranges[j] != selected by {
                assert(ranges.contains(ranges[j]));
            }
            assert(is_only_primary(shown, 0));
        }
    }
}

/// Whether the user is at the selection number `i`, and at no other.
pub open spec fn is_only_primary(shown: Seq<MultibufferRange<Seq<char>>>, i: int) -> bool {
    forall|j: int| 0 <= j < shown.len() ==> ((#[trigger] shown[j]).is_primary <==> j == i)
}

/// Among the selections that are shown are those of every file, under the path of that file, and no
/// others. Those of one file come before those of the files behind it.
pub proof fn law_all_files_are_shown(
    files: Seq<GlobalRevealFile>,
    current: Seq<char>,
    selected: Seq<CharIndexRange>,
    n: nat,
)
    requires
        n <= files.len(),
        selected.len() == files.len(),
    ensures
        ({
            let shown = shown_ranges(files, current, selected, n);
            &&& forall|i: int, range: CharIndexRange|
                0 <= i < n && (#[trigger] files[i]).possible_selection_ranges@.contains(range)
                    ==> #[trigger] shows(shown, files[i].path@, range)
            &&& forall|k: int|
                0 <= k < shown.len() ==> exists|i: int|
                    0 <= i < n && (#[trigger] files[i]).path@ == (#[trigger] shown[k]).path
                        && files[i].possible_selection_ranges@.contains(shown[k].range)
        }),
    decreases n,
{
    if n > 0 {
        let before = shown_ranges(files, current, selected, (n - 1) as nat);
        let last = files[n - 1];
        let added = file_ranges(last, current, selected[n - 1]);
        let shown = shown_ranges(files, current, selected, n);
        law_all_files_are_shown(files, current, selected, (n - 1) as nat);
        law_ranges_are_shown_once(last, current, selected[n - 1]);
        assert forall|i: int, range: CharIndexRange|
            0 <= i < n && (#[trigger] files[i]).possible_selection_ranges@.contains(
                range,
            ) implies #[trigger] shows(shown, files[i].path@, range) by {
            if i < n - 1 {
                assert(shows(before, files[i].path@, range));
                let k = choose|k: int|
                    0 <= k < before.len() && (#[trigger] before[k]).path == files[i].path@
                        && before[k].range == range;
                assert(shown[k] == before[k]);
            } else {
                let k = choose|k: int| 0 <= k < added.len() && (#[trigger] added[k]).range == range;
                assert(shown[before.len() + k] == added[k]);
            }
        }
        assert forall|k: int| 0 <= k < shown.len() implies exists|i: int|
            0 <= i < n && (#[trigger] files[i]).path@ == (#[trigger] shown[k]).path
                && files[i].possible_selection_ranges@.contains(shown[k].range) by {
            if k < before.len() {
                assert(shown[k] == before[k]);
                let i = choose|i: int|
                    0 <= i < n - 1 && (#[trigger] files[i]).path@ == before[k].path
                        && files[i].possible_selection_ranges@.contains(before[k].range);
                assert(files[i].path@ == shown[k].path);
            } else {
                let range = shown[k].range;
                assert(shown[k] == added[k - before.len()]);
                lemma_unique_contains(last.possible_selection_ranges@, range);
                let list = unique(last.possible_selection_ranges@);
                assert(list[k - before.len()] == range);
                assert(list.contains(range));
                assert(files[n - 1].path@ == shown[k].path);
            }
        }
    }
}

/// Whether a selection is shown under a path.
pub open spec fn shows(
    shown: Seq<MultibufferRange<Seq<char>>>,
    path: Seq<char>,
    range: CharIndexRange,
) -> bool {
    exists|k: int|
        0 <= k < shown.len() && (#[trigger] shown[k]).path == path && shown[k].range == range
}

proof fn lemma_unique_keeps_order(ranges: Seq<CharIndexRange>, i: int, j: int)
    requires
        0 <= i < j < unique(ranges).len(),
    ensures
        exists|a: int, b: int|
            0 <= a < b < ranges.len() && #[trigger] ranges[a] == unique(ranges)[i]
                && #[trigger] ranges[b] == unique(ranges)[j] && !ranges.take(b).contains(
                ranges[b],
            ),
    decreases ranges.len(),
{
    let rest = ranges.drop_last();
    let before = unique(rest);
    if j < before.len() {
        lemma_unique_keeps_order(rest, i, j);
        let (a, b) = choose|a: int, b: int|
            0 <= a < b < rest.len() && #[trigger] rest[a] == before[i] && #[trigger] rest[b]
                == before[j] && !rest.take(b).contains(rest[b]);
        assert(ranges[a] == unique(ranges)[i]);
        assert(ranges[b] == unique(ranges)[j]);
        assert(ranges.take(b) =~= rest.take(b));
    } else {
        lemma_unique_contains(rest, before[i]);
        assert(before.contains(before[i]));
        let a = choose|a: int| 0 <= a < rest.len() && rest[a] == before[i];
        assert(ranges[a] == unique(ranges)[i]);
        let b: int = ranges.len() - 1;
        assert(ranges[b] == unique(ranges)[j]);
        assert(ranges.take(b) =~= rest);
    }
}

/// The ranges of a list that are left when each is taken once are those of the list, none twice, in
/// the order in which they come first.
pub proof fn law_ranges_are_taken_once(ranges: Seq<CharIndexRange>, range: CharIndexRange)
    ensures
        unique(ranges).contains(range) <==> ranges.contains(range),
        unique(ranges).no_duplicates(),
        forall|i: int, j: int|
            0 <= i < j < unique(ranges).len() ==> #[trigger] is_first_before(
                ranges,
                unique(ranges)[i],
                unique(ranges)[j],
            ),
{
    lemma_unique_contains(ranges, range);
    lemma_unique_is_unique(ranges);
    assert forall|i: int, j: int| 0 <= i < j < unique(ranges).len() implies #[trigger]
        is_first_before(ranges, unique(ranges)[i], unique(ranges)[j]) by {
        lemma_unique_keeps_order(ranges, i, j);
        let (a, b) = choose|a: int, b: int|
            0 <= a < b < ranges.len() && #[trigger] ranges[a] == unique(ranges)[i]
                && #[trigger] ranges[b] == unique(ranges)[j] && !ranges.take(b).contains(
                ranges[b],
            );
        assert(ranges[a] == unique(ranges)[i]);
        assert(ranges[b] == unique(ranges)[j]);
    }
}

/// Whether a range comes in a list before another one comes first.
pub open spec fn is_first_before(
    ranges: Seq<CharIndexRange>,
    first: CharIndexRange,
    second: CharIndexRange,
) -> bool {
    exists|a: int, b: int|
        0 <= a < b < ranges.len() && #[trigger] ranges[a] == first && #[trigger] ranges[b] == second
            && !ranges.take(b).contains(second)
}

/// The current file is found among those that are shown: the first that has its path, if one has.
pub proof fn law_the_current_file_is_found(files: Seq<GlobalRevealFile>, path: Seq<char>, from: int)
    requires
        0 <= from <= files.len(),
    ensures
        match file_index(files, path, from) {
            Some(i) => from <= i < files.len() && files[i].path@ == path && forall|j: int|
                from <= j < i ==> (#[trigger] files[j]).path@ != path,
            None => forall|j: int| from <= j < files.len() ==> (#[trigger] files[j]).path@ != path,
        },
    decreases files.len() - from,
{
    if from < files.len() && files[from].path@ != path {
        law_the_current_file_is_found(files, path, from + 1);
    }
}

proof fn lemma_kept(ranges: Seq<CharIndexRange>, valid: Seq<bool>) -> (picks: Seq<int>)
    requires
        ranges.len() <= valid.len(),
    ensures
        are_valid_picks(valid, ranges.len(), picks),
        kept(ranges, valid) == picks.map_values(|k: int| ranges[k]),
    decreases ranges.len(),
{
    if ranges.len() == 0 {
        let picks = Seq::<int>::empty();
        assert(kept(ranges, valid) =~= picks.map_values(|k: int| ranges[k]));
        picks
    } else {
        let rest = ranges.drop_last();
        let before = lemma_kept(rest, valid);
        let last: int = ranges.len() - 1;
        let picks = if valid[last] {
            before.push(last)
        } else {
            before
        };
        assert(kept(ranges, valid) =~= picks.map_values(|k: int| ranges[k]));
        assert forall|k: int| 0 <= k < ranges.len() implies (picks.contains(k) <==> #[trigger]
            valid[k]) by {
            if k < last {
                if before.contains(k) {
                    let i = choose|i: int| 0 <= i < before.len() && before[i] == k;
                    assert(picks[i] == k);
                }
                if picks.contains(k) {
                    let i = choose|i: int| 0 <= i < picks.len() && picks[i] == k;
                    assert(before[i] == k);
                }
            } else if valid[last] {
                assert(picks[before.len() as int] == last);
            } else if picks.contains(k) {
                let i = choose|i: int| 0 <= i < picks.len() && picks[i] == k;
                assert(before[i] == k);
            }
        }
        picks
    }
}

/// Whether `picks` are numbers below `n`, in their order, and just those of what is valid.
pub open spec fn are_valid_picks(valid: Seq<bool>, n: nat, picks: Seq<int>) -> bool {
    &&& forall|i: int| 0 <= i < picks.len() ==> 0 <= #[trigger] picks[i] < n
    &&& forall|i: int, j: int|
        0 <= i < j < picks.len() ==> (#[trigger] picks[i]) < (#[trigger] picks[j])
    &&& forall|k: int| 0 <= k < n ==> (picks.contains(k) <==> #[trigger] valid[k])
}

/// Of the marks of a file those are kept that lie within its text, all of them and in their order,
/// and no others.
pub proof fn law_valid_marks_are_kept(ranges: Seq<CharIndexRange>, valid: Seq<bool>)
    requires
        ranges.len() <= valid.len(),
    ensures
        exists|picks: Seq<int>| #[trigger]
            are_valid_picks(valid, ranges.len(), picks) && kept(ranges, valid) == picks.map_values(
                |k: int| ranges[k],
            ),
{
    let picks = lemma_kept(ranges, valid);
    assert(are_valid_picks(valid, ranges.len(), picks));
}

proof fn lemma_having_ranges(files: Seq<FileSpec>, file: FileSpec)
    ensures
        having_ranges(files).contains(file) <==> files.contains(file) && file.ranges.len() > 0,
    decreases files.len(),
{
    if files.len() > 0 {
        let rest = files.drop_last();
        let before = having_ranges(rest);
        let all = having_ranges(files);
        lemma_having_ranges(rest, file);
        if before.contains(file) {
            let k = choose|k: int| 0 <= k < before.len() && before[k] == file;
            assert(all[k] == file);
        }
        if rest.contains(file) {
            let k = choose|k: int| 0 <= k < rest.len() && rest[k] == file;
            assert(files[k] == file);
        }
        if files.last() == file {
            assert(files[files.len() - 1] == file);
            if file.ranges.len() > 0 {
                assert(all[before.len() as int] == file);
            }
        }
        if all.contains(file) {
            let k = choose|k: int| 0 <= k < all.len() && all[k] == file;
            if k < before.len() {
                assert(before[k] == file);
            }
        }
        if files.contains(file) {
            let k = choose|k: int| 0 <= k < files.len() && files[k] == file;
            if k < rest.len() {
                assert(rest[k] == file);
            }
        }
    }
}

/// The files that are shown for marks are those that have any left.
pub proof fn law_files_with_marks_are_shown(files: Seq<FileSpec>, file: FileSpec)
    ensures
        having_ranges(files).contains(file) <==> files.contains(file) && file.ranges.len() > 0,
{
    lemma_having_ranges(files, file);
}

proof fn lemma_ranges_at_contains(
    items: Seq<(AbsolutePath, CharIndexRange)>,
    path: Seq<char>,
    range: CharIndexRange,
)
    ensures
        ranges_at(items, path).contains(range) <==> exists|i: int|
            0 <= i < items.len() && (#[trigger] items[i]).0@ == path && items[i].1 == range,
    decreases items.len(),
{
    if items.len() > 0 {
        let rest = items.drop_last();
        let before = ranges_at(rest, path);
        let all = ranges_at(items, path);
        lemma_ranges_at_contains(rest, path, range);
        if all.contains(range) {
            let k = choose|k: int| 0 <= k < all.len() && all[k] == range;
            if k < before.len() {
                assert(before[k] == range);
                let i = choose|i: int|
                    0 <= i < rest.len() && (#[trigger] rest[i]).0@ == path && rest[i].1 == range;
                assert(items[i] == rest[i]);
            } else {
                assert(items[items.len() - 1].0@ == path);
            }
        }
        if exists|i: int|
            0 <= i < items.len() && (#[trigger] items[i]).0@ == path && items[i].1 == range {
            let i = choose|i: int|
                0 <= i < items.len() && (#[trigger] items[i]).0@ == path && items[i].1 == range;
            if i < rest.len() {
                assert(rest[i] == items[i]);
                let k = choose|k: int| 0 <= k < before.len() && before[k] == range;
                assert(all[k] == range);
            } else {
                assert(all[before.len() as int] == range);
            }
        }
    }
}

/// The ranges that are gathered for a path are those of the items that have that path, and no
/// others.
pub proof fn law_ranges_are_gathered_by_path(
    items: Seq<(AbsolutePath, CharIndexRange)>,
    path: Seq<char>,
    range: CharIndexRange,
)
    ensures
        ranges_at(items, path).contains(range) <==> exists|i: int|
            0 <= i < items.len() && (#[trigger] items[i]).0@ == path && items[i].1 == range,
{
    lemma_ranges_at_contains(items, path, range);
}

/// A file that is shown means what it holds.
pub proof fn law_files_mean_what_they_hold(files: Seq<GlobalRevealFile>, i: int)
    requires
        0 <= i < files.len(),
    ensures
        files_view(files).len() == files.len(),
        files_view(files)[i].path == files[i].path@,
        files_view(files)[i].ranges == files[i].possible_selection_ranges@,
        files_view(files)[i].editor == files[i].editor,
{
}

/// Of the files of marks each is shown under its own path and in its own editor, with those of its
/// marks that lie within its text, each once. Of the files of a list each is shown with the ranges
/// of its items.
pub proof fn law_files_are_shown_in_their_editors(
    groups: Seq<RangeGroup>,
    editors: Seq<u64>,
    valid: Seq<Vec<bool>>,
    i: int,
)
    requires
        0 <= i < editors.len(),
        editors.len() <= groups.len(),
    ensures
        opened_files(groups, editors, valid).len() == editors.len(),
        opened_files(groups, editors, valid)[i].path == groups[i].path@,
        opened_files(groups, editors, valid)[i].editor == editors[i],
        opened_files(groups, editors, valid)[i].ranges == kept(
            unique(groups[i].ranges@),
            valid[i]@,
        ),
        grouped_files(groups, editors).len() == groups.len(),
        grouped_files(groups, editors)[i].path == groups[i].path@,
        grouped_files(groups, editors)[i].editor == editors[i],
        grouped_files(groups, editors)[i].ranges == groups[i].ranges@,
{
}

/// The ranges of a path come in the order of the items, and the marks of a file in the order in
/// which they are stored. Items and marks of other paths do not matter.
pub proof fn law_ranges_come_in_the_order_of_the_items(
    items: Seq<(AbsolutePath, CharIndexRange)>,
    item: (AbsolutePath, CharIndexRange),
    marks: Seq<RangeGroup>,
    group: RangeGroup,
    path: Seq<char>,
)
    ensures
        item.0@ == path ==> ranges_at(items.push(item), path) == ranges_at(items, path).push(
            item.1,
        ),
        item.0@ != path ==> ranges_at(items.push(item), path) == ranges_at(items, path),
        group.path@ == path ==> stored_marks(marks.push(group), path) == stored_marks(marks, path)
            + group.ranges@,
        group.path@ != path ==> stored_marks(marks.push(group), path) == stored_marks(marks, path),
        stored_marks(Seq::empty(), path).len() == 0,
{
    assert(items.push(item).drop_last() =~= items);
    lemma_stored_marks_push(marks, group, path);
    assert(stored_marks(marks, path) + Seq::<CharIndexRange>::empty() =~= stored_marks(
        marks,
        path,
    ));
}

/// The current file has to be opened if some files have marks and none of them is the current file.
pub proof fn law_the_current_file_is_opened_if_it_is_missing(
    marked: Seq<FileSpec>,
    path: Seq<char>,
)
    ensures
        must_be_opened(marked, path) <==> marked.len() > 0 && forall|i: int|
            0 <= i < marked.len() ==> (#[trigger] marked[i]).path != path,
{
}

/// The files that have marks are shown in the same order and in the same editors, with the same
/// marks, and the current file with the place where the user is besides. The current file is shown
/// behind the others, with that place alone, where it has no marks.
pub proof fn law_the_current_file_is_shown_behind_the_others(
    marked: Seq<FileSpec>,
    current: CurrentFile,
    i: int,
    range: CharIndexRange,
)
    requires
        0 <= i < marked.len(),
        current.editor is Some,
    ensures
        ({
            let shown = with_current(marked, Some(current));
            let without = with_current(marked, None);
            let added = FileSpec {
                path: current.path@,
                ranges: seq![current.selection],
                editor: current.editor->0,
            };
            &&& is_among(marked, current.path@) ==> shown.len() == marked.len()
            &&& !is_among(marked, current.path@) ==> shown.len() == marked.len() + 1
                && shown.last() == added
            &&& shown[i].path == marked[i].path
            &&& shown[i].editor == marked[i].editor
            &&& shown[i].ranges.contains(range) <==> marked[i].ranges.contains(range)
                || marked[i].path == current.path@ && range == current.selection
            &&& without.len() == marked.len()
            &&& without[i].path == marked[i].path
            &&& without[i].editor == marked[i].editor
            &&& without[i].ranges.contains(range) <==> marked[i].ranges.contains(range)
        }),
{
    let selection = current.selection;
    let ranges = marked[i].ranges;
    law_ranges_are_taken_once(ranges, range);
    law_ranges_are_taken_once(ranges.push(selection), range);
    assert(ranges.push(selection).contains(range) <==> ranges.contains(range) || range
        == selection) by {
        if ranges.contains(range) {
            let k = choose|k: int| 0 <= k < ranges.len() && ranges[k] == range;
            assert(ranges.push(selection)[k] == range);
        }
        assert(ranges.push(selection).last() == selection);
    }
    let alone = seq![selection];
    assert(alone.push(selection).drop_last() =~= alone);
    assert(alone.drop_last() =~= Seq::<CharIndexRange>::empty());
    assert(unique(alone.drop_last()) =~= Seq::<CharIndexRange>::empty());
    assert(unique(alone) =~= alone);
    assert(alone[0] == selection);
    assert(alone.contains(selection));
    assert(unique(alone.push(selection)) =~= alone);
}

} // verus!
