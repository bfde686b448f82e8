//! Which directory is the workspace of a file, for a language server.

use crate::path::AbsolutePath;
use crate::text::{chars_between, chars_of, eq_ignore_case, same_ignoring_case, str_eq, text_of};
use vstd::prelude::*;

verus! {

/// An entry of a directory.
pub struct Entry {
    pub name: String,
    /// Whether there is something behind the name: a link can lead nowhere.
    pub exists: bool,
    pub is_directory: bool,
}

/// A directory with its entries.
pub struct Directory {
    pub path: AbsolutePath,
    pub entries: Vec<Entry>,
}

/// What a directory can be the root of.
#[derive(Clone, Copy, Debug, PartialEq, Eq, Structural)]
pub enum RootKind {
    /// A workspace of JavaScript packages.
    PackageWorkspace,
    /// A JavaScript package.
    Package,
    /// A workspace of Java projects.
    JavaWorkspace,
    /// A Java project.
    JavaProject,
    /// A C# solution.
    Solution,
    /// A C# project.
    CsharpProject,
}

/// Whether a directory has an entry called `name` with something behind it.
pub open spec fn has_entry(directory: Directory, name: Seq<char>) -> bool {
    exists|i: int|
        0 <= i < directory.entries@.len() && (#[trigger] directory.entries@[i]).name@ == name
            && directory.entries@[i].exists
}

/// Whether a directory has a directory called `name`.
pub open spec fn has_directory(directory: Directory, name: Seq<char>) -> bool {
    exists|i: int|
        0 <= i < directory.entries@.len() && (#[trigger] directory.entries@[i]).name@ == name
            && directory.entries@[i].exists && directory.entries@[i].is_directory
}

/// Where the last dot of a name stands.
pub open spec fn last_dot(name: Seq<char>) -> Option<int>
    decreases name.len(),
{
    if name.len() == 0 {
        None
    } else if name.last() == '.' {
        Some(name.len() - 1)
    } else {
        last_dot(name.drop_last())
    }
}

/// The extension of a file name: what follows its last dot, unless the name begins with that dot.
pub open spec fn extension(name: Seq<char>) -> Option<Seq<char>> {
    match last_dot(name) {
        Some(at) => if at > 0 {
            Some(name.skip(at + 1))
        } else {
            None
        },
        None => None,
    }
}

/// Whether a directory has an entry with one of the extensions.
pub open spec fn has_extension(directory: Directory, extensions: Seq<Seq<char>>) -> bool {
    exists|i: int|
        0 <= i < directory.entries@.len() && is_among(
            extension((#[trigger] directory.entries@[i]).name@),
            extensions,
        )
}

/// Whether there is an extension and it is one of `extensions`, whatever the case of its letters.
pub open spec fn is_among(found: Option<Seq<char>>, extensions: Seq<Seq<char>>) -> bool {
    found is Some && exists|j: int|
        0 <= j < extensions.len() && same_ignoring_case(found->0, #[trigger] extensions[j])
}

/// Whether a directory is a root of the given kind, by the entries that it has.
pub open spec fn is_root(directory: Directory, kind: RootKind) -> bool {
    match kind {
        RootKind::PackageWorkspace => {
            ||| has_entry(directory, "pnpm-workspace.yaml"@)
            ||| has_entry(directory, "pnpm-workspace.yml"@)
            ||| has_entry(directory, "pnpm-lock.yaml"@)
            ||| has_entry(directory, "yarn.lock"@)
            ||| has_entry(directory, "package-lock.json"@)
            ||| has_entry(directory, "bun.lockb"@)
            ||| has_entry(directory, "bun.lock"@)
        },
        RootKind::Package => has_entry(directory, "package.json"@),
        RootKind::JavaWorkspace => {
            ||| has_entry(directory, "settings.gradle"@)
            ||| has_entry(directory, "settings.gradle.kts"@)
            ||| has_entry(directory, "gradlew"@)
            ||| has_entry(directory, "gradlew.bat"@)
            ||| has_entry(directory, "mvnw"@)
            ||| has_entry(directory, "mvnw.cmd"@)
            ||| has_directory(directory, ".mvn"@)
        },
        RootKind::JavaProject => {
            ||| has_entry(directory, "pom.xml"@)
            ||| has_entry(directory, "build.gradle"@)
            ||| has_entry(directory, "build.gradle.kts"@)
        },
        RootKind::Solution => has_extension(directory, seq!["sln"@, "slnx"@]),
        RootKind::CsharpProject => has_extension(directory, seq!["csproj"@]),
    }
}

/// How many of `directories` are searched: those up to `boundary`, which is searched too, or all of
/// them where it is not among them.
pub open spec fn searched(directories: Seq<Directory>, boundary: Seq<char>) -> nat
    decreases directories.len(),
{
    if directories.len() == 0 {
        0
    } else if directories[0].path@ == boundary {
        1
    } else {
        searched(directories.skip(1), boundary) + 1
    }
}

/// The first of `directories` that is a root of one of the two kinds.
pub open spec fn first_root(
    directories: Seq<Directory>,
    kind: RootKind,
    other: RootKind,
) -> Option<Seq<char>>
    decreases directories.len(),
{
    if directories.len() == 0 {
        None
    } else if is_root(directories[0], kind) || is_root(directories[0], other) {
        Some(directories[0].path@)
    } else {
        first_root(directories.skip(1), kind, other)
    }
}

/// The first of three that is there, or else the last.
pub open spec fn first_of<T>(first: Option<T>, second: Option<T>, third: Option<T>, last: T) -> T {
    match first {
        Some(value) => value,
        None => match second {
            Some(value) => value,
            None => match third {
                Some(value) => value,
                None => last,
            },
        },
    }
}

/// The workspace of a Java file. `directories` are the directory of the file and those above it,
/// which are searched up to `boundary`: the nearest workspace of projects, else the nearest
/// project, else the directory of the file.
pub open spec fn java_root(directories: Seq<Directory>, boundary: Seq<char>) -> Seq<char> {
    let near = directories.take(searched(directories, boundary) as int);
    first_of(
        first_root(near, RootKind::JavaWorkspace, RootKind::JavaWorkspace),
        first_root(near, RootKind::JavaProject, RootKind::JavaProject),
        None,
        directories[0].path@,
    )
}

/// The workspace of a file. `directories` are the directory of the file and those above it, which
/// are searched up to `boundary`, where the editor runs. For C#: the nearest solution, else the
/// nearest project, else the nearest package or workspace of packages. For all but Java and C#: the
/// nearest workspace of packages, else the nearest package. If all fails, where the editor runs.
pub open spec fn workspace_root(
    language_id: Option<Seq<char>>,
    is_csharp: bool,
    directories: Seq<Directory>,
    boundary: Seq<char>,
) -> Seq<char> {
    let near = directories.take(searched(directories, boundary) as int);
    if language_id == Some("java"@) {
        java_root(directories, boundary)
    } else if is_csharp {
        first_of(
            first_root(near, RootKind::Solution, RootKind::Solution),
            first_root(near, RootKind::CsharpProject, RootKind::CsharpProject),
            first_root(near, RootKind::PackageWorkspace, RootKind::Package),
            boundary,
        )
    } else {
        first_of(
            first_root(near, RootKind::PackageWorkspace, RootKind::PackageWorkspace),
            first_root(near, RootKind::Package, RootKind::Package),
            None,
            boundary,
        )
    }
}

fn find_extension(name: &str) -> (found: Option<Vec<char>>)
    ensures
        match found {
            Some(found) => extension(name@) == Some(found@),
            None => extension(name@) is None,
        },
{
    let chars = chars_of(name);
    let mut n: usize = chars.len();
    assert(chars@.take(n as int) == chars@);
    while n > 0
        invariant
            n <= chars.len(),
            chars@ == name@,
            last_dot(name@) == last_dot(chars@.take(n as int)),
        decreases n,
    {
        assert(chars@.take(n as int).drop_last() == chars@.take(n - 1));
        assert(chars@.take(n as int).last() == chars@[n - 1]);
        if chars[n - 1] == '.' {
            if n == 1 {
                return None;
            }
            let rest = chars_between(chars.as_slice(), n, chars.len());
            assert(rest@ =~= name@.skip(n as int));
            return Some(rest);
        }
        n -= 1;
    }
    assert(chars@.take(0).len() == 0);
    None
}

impl Directory {
    fn has_entry(&self, name: &str) -> (has: bool)
        ensures
            has == has_entry(*self, name@),
    {
        let mut i: usize = 0;
        while i < self.entries.len()
            invariant
                i <= self.entries.len(),
                forall|j: int|
                    0 <= j < i ==> !((#[trigger] self.entries@[j]).name@ == name@
                        && self.entries@[j].exists),
            decreases self.entries.len() - i,
        {
            if self.entries[i].exists && str_eq(self.entries[i].name.as_str(), name) {
                return true;
            }
            i += 1;
        }
        false
    }

    fn has_directory(&self, name: &str) -> (has: bool)
        ensures
            has == has_directory(*self, name@),
    {
        let mut i: usize = 0;
        while i < self.entries.len()
            invariant
                i <= self.entries.len(),
                forall|j: int|
                    0 <= j < i ==> !((#[trigger] self.entries@[j]).name@ == name@
                        && self.entries@[j].exists && self.entries@[j].is_directory),
            decreases self.entries.len() - i,
        {
            if self.entries[i].exists && self.entries[i].is_directory && str_eq(
                self.entries[i].name.as_str(),
                name,
            ) {
                return true;
            }
            i += 1;
        }
        false
    }

    /// Whether the directory has an entry with the extension `wanted`, or `other`.
    pub fn contains_file_with_extension(&self, wanted: &str, other: &str) -> (has: bool)
        ensures
            has == has_extension(*self, seq![wanted@, other@]),
    {
        let wanted_chars = chars_of(wanted);
        let other_chars = chars_of(other);
        let ghost extensions = seq![wanted@, other@];
        let mut i: usize = 0;
        while i < self.entries.len()
            invariant
                i <= self.entries.len(),
                extensions == seq![wanted@, other@],
                wanted_chars@ == wanted@,
                other_chars@ == other@,
                forall|j: int|
                    0 <= j < i ==> !is_among(
                        extension((#[trigger] self.entries@[j]).name@),
                        extensions,
                    ),
            decreases self.entries.len() - i,
        {
            if let Some(found) = find_extension(self.entries[i].name.as_str()) {
                if eq_ignore_case(found.as_slice(), wanted_chars.as_slice()) {
                    assert(same_ignoring_case(found@, extensions[0]));
                    return true;
                }
                if eq_ignore_case(found.as_slice(), other_chars.as_slice()) {
                    assert(same_ignoring_case(found@, extensions[1]));
                    return true;
                }
            }
            i += 1;
        }
        false
    }

    /// Whether the directory is the root of a workspace of JavaScript packages.
    pub fn is_package_workspace_root(&self) -> (root: bool)
        ensures
            root == is_root(*self, RootKind::PackageWorkspace),
    {
        self.has_entry("pnpm-workspace.yaml") || self.has_entry("pnpm-workspace.yml")
            || self.has_entry("pnpm-lock.yaml") || self.has_entry("yarn.lock") || self.has_entry(
            "package-lock.json",
        ) || self.has_entry("bun.lockb") || self.has_entry("bun.lock")
    }

    /// Whether the directory is the root of a workspace of Java projects.
    pub fn is_java_workspace_root(&self) -> (root: bool)
        ensures
            root == is_root(*self, RootKind::JavaWorkspace),
    {
        self.has_entry("settings.gradle") || self.has_entry("settings.gradle.kts")
            || self.has_entry("gradlew") || self.has_entry("gradlew.bat") || self.has_entry("mvnw")
            || self.has_entry("mvnw.cmd") || self.has_directory(".mvn")
    }

    /// Whether the directory is the root of a Java project.
    pub fn is_java_project_root(&self) -> (root: bool)
        ensures
            root == is_root(*self, RootKind::JavaProject),
    {
        self.has_entry("pom.xml") || self.has_entry("build.gradle") || self.has_entry(
            "build.gradle.kts",
        )
    }

    fn is_root(&self, kind: RootKind) -> (root: bool)
        ensures
            root == is_root(*self, kind),
    {
        match kind {
            RootKind::PackageWorkspace => self.is_package_workspace_root(),
            RootKind::Package => self.has_entry("package.json"),
            RootKind::JavaWorkspace => self.is_java_workspace_root(),
            RootKind::JavaProject => self.is_java_project_root(),
            RootKind::Solution => self.contains_file_with_extension("sln", "slnx"),
            RootKind::CsharpProject => {
                let has = self.contains_file_with_extension("csproj", "csproj");
                proof {
                    let twice = seq!["csproj"@, "csproj"@];
                    let once = seq!["csproj"@];
                    assert forall|found: Option<Seq<char>>|
                        is_among(found, twice) == is_among(found, once) by {
                        if is_among(found, twice) {
                            assert(same_ignoring_case(found->0, once[0]));
                        }
                        if is_among(found, once) {
                            assert(same_ignoring_case(found->0, twice[0]));
                        }
                    }
                }
                has
            },
        }
    }
}

fn count_searched(directories: &[Directory], boundary: &str) -> (count: usize)
    ensures
        count == searched(directories@, boundary@),
        count <= directories.len(),
{
    let mut i: usize = 0;
    assert(directories@.skip(0) == directories@);
    while i < directories.len()
        invariant
            i <= directories.len(),
            searched(directories@, boundary@) == i + searched(
                directories@.skip(i as int),
                boundary@,
            ),
        decreases directories.len() - i,
    {
        assert(directories@.skip(i as int).skip(1) == directories@.skip(i + 1));
        if str_eq(directories[i].path.as_str(), boundary) {
            return i + 1;
        }
        i += 1;
    }
    assert(directories@.skip(i as int).len() == 0);
    i
}

/// The first of the first `count` directories that is a root of one of the two kinds.
fn find_root(directories: &[Directory], count: usize, kind: RootKind, other: RootKind) -> (root:
    Option<AbsolutePath>)
    requires
        count <= directories.len(),
    ensures
        match root {
            Some(root) => first_root(directories@.take(count as int), kind, other) == Some(root@),
            None => first_root(directories@.take(count as int), kind, other) is None,
        },
{
    let ghost near = directories@.take(count as int);
    let mut i: usize = 0;
    assert(near.skip(0) == near);
    while i < count
        invariant
            i <= count <= directories.len(),
            near == directories@.take(count as int),
            first_root(near, kind, other) == first_root(near.skip(i as int), kind, other),
        decreases count - i,
    {
        assert(near.skip(i as int).skip(1) == near.skip(i + 1));
        if directories[i].is_root(kind) || directories[i].is_root(other) {
            return Some(directories[i].path.copy());
        }
        i += 1;
    }
    assert(near.skip(i as int).len() == 0);
    None
}

/// The workspace of a Java file. See [`java_root`].
pub fn java_lsp_root(directories: &[Directory], boundary: &AbsolutePath) -> (root: AbsolutePath)
    requires
        directories.len() > 0,
    ensures
        root@ == java_root(directories@, boundary@),
{
    let count = count_searched(directories, boundary.as_str());
    if let Some(root) = find_root(
        directories,
        count,
        RootKind::JavaWorkspace,
        RootKind::JavaWorkspace,
    ) {
        return root;
    }
    if let Some(root) = find_root(
        directories,
        count,
        RootKind::JavaProject,
        RootKind::JavaProject,
    ) {
        return root;
    }
    directories[0].path.copy()
}

/// The workspace of a file. See [`workspace_root`].
pub fn lsp_root_for_path(
    language_id: Option<&str>,
    is_csharp: bool,
    directories: &[Directory],
    boundary: &AbsolutePath,
) -> (root: AbsolutePath)
    requires
        directories.len() > 0,
    ensures
        root@ == workspace_root(
            text_of(language_id),
            is_csharp,
            directories@,
            boundary@,
        ),
{
    let is_java = match language_id {
        Some(id) => str_eq(id, "java"),
        None => false,
    };
    if is_java {
        return java_lsp_root(directories, boundary);
    }
    let count = count_searched(directories, boundary.as_str());
    let found = if is_csharp {
        match find_root(directories, count, RootKind::Solution, RootKind::Solution) {
            Some(root) => Some(root),
            None => match find_root(
                directories,
                count,
                RootKind::CsharpProject,
                RootKind::CsharpProject,
            ) {
                Some(root) => Some(root),
                None => find_root(
                    directories,
                    count,
                    RootKind::PackageWorkspace,
                    RootKind::Package,
                ),
            },
        }
    } else {
        match find_root(
            directories,
            count,
            RootKind::PackageWorkspace,
            RootKind::PackageWorkspace,
        ) {
            Some(root) => Some(root),
            None => find_root(directories, count, RootKind::Package, RootKind::Package),
        }
    };
    match found {
        Some(root) => root,
        None => boundary.copy(),
    }
}

proof fn lemma_first_root_is_among(directories: Seq<Directory>, kind: RootKind, other: RootKind)
    ensures
        match first_root(directories, kind, other) {
            Some(root) => exists|i: int|
                0 <= i < directories.len() && (#[trigger] directories[i]).path@ == root,
            None => true,
        },
    decreases directories.len(),
{
    if directories.len() > 0 {
        let rest = directories.skip(1);
        lemma_first_root_is_among(rest, kind, other);
        if is_root(directories[0], kind) || is_root(directories[0], other) {
            assert(directories[0].path@ == first_root(directories, kind, other)->0);
        } else if let Some(root) = first_root(rest, kind, other) {
            let i = choose|i: int| 0 <= i < rest.len() && (#[trigger] rest[i]).path@ == root;
            assert(directories[i + 1].path@ == root);
        }
    }
}

proof fn lemma_searched(directories: Seq<Directory>, boundary: Seq<char>)
    ensures
        searched(directories, boundary) <= directories.len(),
        forall|i: int|
            0 <= i < searched(directories, boundary) - 1 ==> (#[trigger] directories[i]).path@
                != boundary,
    decreases directories.len(),
{
    if directories.len() > 0 && directories[0].path@ != boundary {
        let rest = directories.skip(1);
        lemma_searched(rest, boundary);
        assert forall|i: int| 0 <= i < searched(directories, boundary) - 1 implies (
        #[trigger] directories[i]).path@ != boundary by {
            if i > 0 {
                assert(rest[i - 1] == directories[i]);
            }
        }
    }
}

/// The workspace of a file is where the editor runs, or a directory that holds the file, and never
/// one above where the editor runs.
pub proof fn law_roots_stay_within_the_boundary(
    language_id: Option<Seq<char>>,
    is_csharp: bool,
    directories: Seq<Directory>,
    boundary: Seq<char>,
)
    requires
        directories.len() > 0,
    ensures
        ({
            let root = workspace_root(language_id, is_csharp, directories, boundary);
            root == boundary || exists|i: int|
                0 <= i < directories.len() && (#[trigger] directories[i]).path@ == root && forall|
                    j: int,
                |
                    0 <= j < i ==> (#[trigger] directories[j]).path@ != boundary
        }),
{
    lemma_searched(directories, boundary);
    let near = directories.take(searched(directories, boundary) as int);
    lemma_first_root_is_among(near, RootKind::JavaWorkspace, RootKind::JavaWorkspace);
    lemma_first_root_is_among(near, RootKind::JavaProject, RootKind::JavaProject);
    lemma_first_root_is_among(near, RootKind::Solution, RootKind::Solution);
    lemma_first_root_is_among(near, RootKind::CsharpProject, RootKind::CsharpProject);
    lemma_first_root_is_among(near, RootKind::PackageWorkspace, RootKind::Package);
    lemma_first_root_is_among(near, RootKind::PackageWorkspace, RootKind::PackageWorkspace);
    lemma_first_root_is_among(near, RootKind::Package, RootKind::Package);
    let root = workspace_root(language_id, is_csharp, directories, boundary);
    if root != boundary {
        if exists|i: int| 0 <= i < near.len() && (#[trigger] near[i]).path@ == root {
            let i = choose|i: int| 0 <= i < near.len() && (#[trigger] near[i]).path@ == root;
            assert(directories[i].path@ == root);
            assert forall|j: int| 0 <= j < i implies (#[trigger] directories[j]).path@
                != boundary by {}
        } else {
            assert(directories[0].path@ == root);
        }
    }
}

/// Whether the directory number `i` is searched: none before it is the one where the search ends.
pub open spec fn is_searched(directories: Seq<Directory>, boundary: Seq<char>, i: int) -> bool {
    0 <= i < directories.len() && forall|j: int|
        0 <= j < i ==> (#[trigger] directories[j]).path@ != boundary
}

/// Whether the directory number `i` is the nearest that is searched and is a root of one of the two
/// kinds.
pub open spec fn is_nearest(
    directories: Seq<Directory>,
    boundary: Seq<char>,
    kind: RootKind,
    other: RootKind,
    i: int,
) -> bool {
    &&& is_searched(directories, boundary, i)
    &&& is_root(directories[i], kind) || is_root(directories[i], other)
    &&& forall|j: int|
        0 <= j < i ==> !is_root(#[trigger] directories[j], kind) && !is_root(directories[j], other)
}

/// Whether no directory that is searched is a root of one of the two kinds.
pub open spec fn is_nowhere(
    directories: Seq<Directory>,
    boundary: Seq<char>,
    kind: RootKind,
    other: RootKind,
) -> bool {
    forall|j: int|
        is_searched(directories, boundary, j) ==> !is_root(#[trigger] directories[j], kind)
            && !is_root(directories[j], other)
}

proof fn lemma_searched_exactly(directories: Seq<Directory>, boundary: Seq<char>, i: int)
    requires
        0 <= i < directories.len(),
    ensures
        is_searched(directories, boundary, i) <==> i < searched(directories, boundary),
        searched(directories, boundary) <= directories.len(),
    decreases directories.len(),
{
    lemma_searched(directories, boundary);
    let rest = directories.skip(1);
    if directories[0].path@ == boundary {
        if i > 0 {
            assert(directories[0].path@ == boundary);
        }
    } else if i > 0 {
        lemma_searched_exactly(rest, boundary, i - 1);
        assert(is_searched(rest, boundary, i - 1) <==> is_searched(directories, boundary, i)) by {
            if is_searched(rest, boundary, i - 1) {
                assert forall|j: int| 0 <= j < i implies (#[trigger] directories[j]).path@
                    != boundary by {
                    if j > 0 {
                        assert(rest[j - 1] == directories[j]);
                    }
                }
            }
            if is_searched(directories, boundary, i) {
                assert forall|j: int| 0 <= j < i - 1 implies (#[trigger] rest[j]).path@
                    != boundary by {
                    assert(rest[j] == directories[j + 1]);
                }
            }
        }
    }
}

proof fn lemma_first_root_at(near: Seq<Directory>, kind: RootKind, other: RootKind, i: int)
    requires
        0 <= i <= near.len(),
        forall|j: int|
            0 <= j < i ==> !is_root(#[trigger] near[j], kind) && !is_root(near[j], other),
    ensures
        i < near.len() && (is_root(near[i], kind) || is_root(near[i], other)) ==> first_root(
            near,
            kind,
            other,
        ) == Some(near[i].path@),
        i == near.len() ==> first_root(near, kind, other) is None,
    decreases i,
{
    if i > 0 {
        let rest = near.skip(1);
        assert(!is_root(near[0], kind) && !is_root(near[0], other));
        assert forall|j: int| 0 <= j < i - 1 implies !is_root(#[trigger] rest[j], kind) && !is_root(
            rest[j],
            other,
        ) by {
            assert(rest[j] == near[j + 1]);
        }
        lemma_first_root_at(rest, kind, other, i - 1);
        if i < near.len() {
            assert(rest[i - 1] == near[i]);
        }
    }
}

proof fn lemma_nearest(
    directories: Seq<Directory>,
    boundary: Seq<char>,
    kind: RootKind,
    other: RootKind,
    i: int,
)
    ensures
        ({
            let near = directories.take(searched(directories, boundary) as int);
            &&& is_nearest(directories, boundary, kind, other, i) ==> first_root(near, kind, other)
                == Some(directories[i].path@)
            &&& is_nowhere(directories, boundary, kind, other) ==> first_root(near, kind, other)
                is None
        }),
{
    lemma_searched(directories, boundary);
    let near = directories.take(searched(directories, boundary) as int);
    if is_nearest(directories, boundary, kind, other, i) {
        lemma_searched_exactly(directories, boundary, i);
        assert forall|j: int| 0 <= j < i implies !is_root(#[trigger] near[j], kind) && !is_root(
            near[j],
            other,
        ) by {
            assert(near[j] == directories[j]);
        }
        lemma_first_root_at(near, kind, other, i);
    }
    if is_nowhere(directories, boundary, kind, other) {
        assert forall|j: int| 0 <= j < near.len() implies !is_root(#[trigger] near[j], kind)
            && !is_root(near[j], other) by {
            lemma_searched_exactly(directories, boundary, j);
            assert(near[j] == directories[j]);
        }
        lemma_first_root_at(near, kind, other, near.len() as int);
    }
}

/// The workspace of a Java file is the nearest workspace of projects, where there is one up to
/// where the search ends, else the nearest project, and else the directory of the file.
pub proof fn law_java_files_belong_to_the_nearest_workspace(
    directories: Seq<Directory>,
    boundary: Seq<char>,
    is_csharp: bool,
    i: int,
)
    requires
        directories.len() > 0,
    ensures
        ({
            let root = workspace_root(Some("java"@), is_csharp, directories, boundary);
            let workspace = RootKind::JavaWorkspace;
            let project = RootKind::JavaProject;
            &&& is_nearest(directories, boundary, workspace, workspace, i) ==> root
                == directories[i].path@
            &&& is_nowhere(directories, boundary, workspace, workspace) && is_nearest(
                directories,
                boundary,
                project,
                project,
                i,
            ) ==> root == directories[i].path@
            &&& is_nowhere(directories, boundary, workspace, workspace) && is_nowhere(
                directories,
                boundary,
                project,
                project,
            ) ==> root == directories[0].path@
        }),
{
    lemma_nearest(directories, boundary, RootKind::JavaWorkspace, RootKind::JavaWorkspace, i);
    lemma_nearest(directories, boundary, RootKind::JavaProject, RootKind::JavaProject, i);
}

/// The workspace of a C# file is the nearest solution, else the nearest project, else the nearest
/// package or workspace of packages, and else where the editor runs.
pub proof fn law_csharp_files_belong_to_the_nearest_solution(
    language_id: Option<Seq<char>>,
    directories: Seq<Directory>,
    boundary: Seq<char>,
    i: int,
)
    requires
        directories.len() > 0,
        language_id != Some("java"@),
    ensures
        ({
            let root = workspace_root(language_id, true, directories, boundary);
            let solution = RootKind::Solution;
            let project = RootKind::CsharpProject;
            let packages = RootKind::PackageWorkspace;
            let package = RootKind::Package;
            let no_solution = is_nowhere(directories, boundary, solution, solution);
            let no_project = is_nowhere(directories, boundary, project, project);
            &&& is_nearest(directories, boundary, solution, solution, i) ==> root
                == directories[i].path@
            &&& no_solution && is_nearest(directories, boundary, project, project, i) ==> root
                == directories[i].path@
            &&& no_solution && no_project && is_nearest(
                directories,
                boundary,
                packages,
                package,
                i,
            ) ==> root == directories[i].path@
            &&& no_solution && no_project && is_nowhere(directories, boundary, packages, package)
                ==> root == boundary
        }),
{
    lemma_nearest(directories, boundary, RootKind::Solution, RootKind::Solution, i);
    lemma_nearest(directories, boundary, RootKind::CsharpProject, RootKind::CsharpProject, i);
    lemma_nearest(directories, boundary, RootKind::PackageWorkspace, RootKind::Package, i);
}

/// The workspace of any other file is the nearest workspace of packages, else the nearest package,
/// and else where the editor runs.
pub proof fn law_files_belong_to_the_nearest_workspace(
    language_id: Option<Seq<char>>,
    directories: Seq<Directory>,
    boundary: Seq<char>,
    i: int,
)
    requires
        directories.len() > 0,
        language_id != Some("java"@),
    ensures
        ({
            let root = workspace_root(language_id, false, directories, boundary);
            let packages = RootKind::PackageWorkspace;
            let package = RootKind::Package;
            &&& is_nearest(directories, boundary, packages, packages, i) ==> root
                == directories[i].path@
            &&& is_nowhere(directories, boundary, packages, packages) && is_nearest(
                directories,
                boundary,
                package,
                package,
                i,
            ) ==> root == directories[i].path@
            &&& is_nowhere(directories, boundary, packages, packages) && is_nowhere(
                directories,
                boundary,
                package,
                package,
            ) ==> root == boundary
        }),
{
    lemma_nearest(directories, boundary, RootKind::PackageWorkspace, RootKind::PackageWorkspace, i);
    lemma_nearest(directories, boundary, RootKind::Package, RootKind::Package, i);
}

/// Whether a directory has an entry with something behind it under one of some names.
pub open spec fn has_one_of(directory: Directory, names: Seq<Seq<char>>) -> bool {
    exists|i: int, k: int|
        0 <= i < directory.entries@.len() && 0 <= k < names.len() && (
        #[trigger] directory.entries@[i]).name@ == (#[trigger] names[k])
            && directory.entries@[i].exists
}

proof fn lemma_has_one_of(directory: Directory, names: Seq<Seq<char>>)
    ensures
        has_one_of(directory, names) <==> exists|k: int|
            0 <= k < names.len() && has_entry(directory, #[trigger] names[k]),
{
    if has_one_of(directory, names) {
        let (i, k) = choose|i: int, k: int|
            0 <= i < directory.entries@.len() && 0 <= k < names.len() && (
            #[trigger] directory.entries@[i]).name@ == (#[trigger] names[k])
                && directory.entries@[i].exists;
        assert(has_entry(directory, names[k]));
    }
    if exists|k: int| 0 <= k < names.len() && has_entry(directory, #[trigger] names[k]) {
        let k = choose|k: int| 0 <= k < names.len() && has_entry(directory, #[trigger] names[k]);
        let i = choose|i: int|
            0 <= i < directory.entries@.len() && (#[trigger] directory.entries@[i]).name@
                == names[k] && directory.entries@[i].exists;
        assert(directory.entries@[i].name@ == names[k]);
    }
}

/// A directory is a root by the entries that it has, and by nothing else: a workspace of packages
/// by what package managers leave there, a package by its description, a workspace of Java
/// projects by settings or a wrapper of a build tool, and a project by its description.
pub proof fn law_roots_are_known_by_their_entries(directory: Directory)
    ensures
        is_root(directory, RootKind::PackageWorkspace) <==> has_one_of(
            directory,
            seq![
                "pnpm-workspace.yaml"@,
                "pnpm-workspace.yml"@,
                "pnpm-lock.yaml"@,
                "yarn.lock"@,
                "package-lock.json"@,
                "bun.lockb"@,
                "bun.lock"@,
            ],
        ),
        is_root(directory, RootKind::Package) <==> has_one_of(directory, seq!["package.json"@]),
        is_root(directory, RootKind::JavaWorkspace) <==> has_one_of(
            directory,
            seq![
                "settings.gradle"@,
                "settings.gradle.kts"@,
                "gradlew"@,
                "gradlew.bat"@,
                "mvnw"@,
                "mvnw.cmd"@,
            ],
        ) || exists|i: int|
            0 <= i < directory.entries@.len() && (#[trigger] directory.entries@[i]).name@ == ".mvn"@
                && directory.entries@[i].exists && directory.entries@[i].is_directory,
        is_root(directory, RootKind::JavaProject) <==> has_one_of(
            directory,
            seq!["pom.xml"@, "build.gradle"@, "build.gradle.kts"@],
        ),
{
    let packages = seq![
        "pnpm-workspace.yaml"@,
        "pnpm-workspace.yml"@,
        "pnpm-lock.yaml"@,
        "yarn.lock"@,
        "package-lock.json"@,
        "bun.lockb"@,
        "bun.lock"@,
    ];
    let package = seq!["package.json"@];
    let workspace = seq![
        "settings.gradle"@,
        "settings.gradle.kts"@,
        "gradlew"@,
        "gradlew.bat"@,
        "mvnw"@,
        "mvnw.cmd"@,
    ];
    let project = seq!["pom.xml"@, "build.gradle"@, "build.gradle.kts"@];
    lemma_has_one_of(directory, packages);
    lemma_has_one_of(directory, package);
    lemma_has_one_of(directory, workspace);
    lemma_has_one_of(directory, project);
    assert(packages[0] == "pnpm-workspace.yaml"@ && packages[1] == "pnpm-workspace.yml"@
        && packages[2] == "pnpm-lock.yaml"@ && packages[3] == "yarn.lock"@ && packages[4]
        == "package-lock.json"@ && packages[5] == "bun.lockb"@ && packages[6] == "bun.lock"@);
    assert(package[0] == "package.json"@);
    assert(workspace[0] == "settings.gradle"@ && workspace[1] == "settings.gradle.kts"@
        && workspace[2] == "gradlew"@ && workspace[3] == "gradlew.bat"@ && workspace[4] == "mvnw"@
        && workspace[5] == "mvnw.cmd"@);
    assert(project[0] == "pom.xml"@ && project[1] == "build.gradle"@ && project[2]
        == "build.gradle.kts"@);
}

proof fn lemma_last_dot(name: Seq<char>, at: int)
    requires
        0 <= at < name.len(),
        name[at] == '.',
        forall|k: int| at < k < name.len() ==> name[k] != '.',
    ensures
        last_dot(name) == Some(at),
    decreases name.len(),
{
    if at < name.len() - 1 {
        lemma_last_dot(name.drop_last(), at);
    }
}

/// A solution is known by an entry with the extension `sln` or `slnx`, and a C# project by one with
/// the extension `csproj`, whatever the case of the letters. An entry has the extension that stands
/// behind its last dot, unless its name begins with that dot.
pub proof fn law_extensions_stand_behind_the_last_dot(
    directory: Directory,
    i: int,
    start: Seq<char>,
    end: Seq<char>,
)
    requires
        0 <= i < directory.entries@.len(),
        directory.entries@[i].name@ == start + seq!['.'] + end,
        start.len() > 0,
        !end.contains('.'),
    ensures
        same_ignoring_case(end, "sln"@) || same_ignoring_case(end, "slnx"@) ==> is_root(
            directory,
            RootKind::Solution,
        ),
        same_ignoring_case(end, "csproj"@) ==> is_root(directory, RootKind::CsharpProject),
        extension(seq!['.'] + end) is None,
        extension(end) is None,
{
    let name = directory.entries@[i].name@;
    let at = start.len() as int;
    assert forall|k: int| at < k < name.len() implies name[k] != '.' by {
        assert(name[k] == end[k - at - 1]);
        assert(end.contains(end[k - at - 1]));
    }
    lemma_last_dot(name, at);
    assert(name.skip(at + 1) =~= end);
    let both = seq!["sln"@, "slnx"@];
    let one = seq!["csproj"@];
    if same_ignoring_case(end, "sln"@) {
        assert(same_ignoring_case(end, both[0]));
        assert(is_among(extension(directory.entries@[i].name@), both));
    }
    if same_ignoring_case(end, "slnx"@) {
        assert(same_ignoring_case(end, both[1]));
        assert(is_among(extension(directory.entries@[i].name@), both));
    }
    if same_ignoring_case(end, "csproj"@) {
        assert(same_ignoring_case(end, one[0]));
        assert(is_among(extension(directory.entries@[i].name@), one));
    }
    let hidden = seq!['.'] + end;
    assert forall|k: int| 0 < k < hidden.len() implies hidden[k] != '.' by {
        assert(end.contains(end[k - 1]));
    }
    lemma_last_dot(hidden, 0);
    lemma_no_dot(end);
}

proof fn lemma_no_dot(name: Seq<char>)
    requires
        !name.contains('.'),
    ensures
        last_dot(name) is None,
    decreases name.len(),
{
    if name.len() > 0 {
        assert(name.contains(name.last()));
        let rest = name.drop_last();
        assert(!rest.contains('.')) by {
            if rest.contains('.') {
                let k = choose|k: int| 0 <= k < rest.len() && rest[k] == '.';
                assert(name[k] == '.');
            }
        }
        lemma_no_dot(rest);
    }
}

/// A directory in which no entry has one of the extensions is neither a solution nor a C# project.
pub proof fn law_other_extensions_make_no_root(directory: Directory)
    ensures
        (forall|i: int|
            0 <= i < directory.entries@.len() ==> {
                let found = extension((#[trigger] directory.entries@[i]).name@);
                found is None || (!same_ignoring_case(found->0, "sln"@) && !same_ignoring_case(
                    found->0,
                    "slnx"@,
                ))
            }) ==> !is_root(directory, RootKind::Solution),
        (forall|i: int|
            0 <= i < directory.entries@.len() ==> {
                let found = extension((#[trigger] directory.entries@[i]).name@);
                found is None || !same_ignoring_case(found->0, "csproj"@)
            }) ==> !is_root(directory, RootKind::CsharpProject),
{
}

} // verus!
