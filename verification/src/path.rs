//! Paths, in the notation of Unix.

use crate::text::{
    chars_between, chars_of, law_pieces_are_joined_back, law_text_order_is_transitive,
    law_texts_are_in_order, pieces, precedes, split, str_eq, string_of, text_precedes, texts,
};
use vstd::prelude::*;

verus! {

/// Whether a path begins at the root.
pub open spec fn is_absolute(path: Seq<char>) -> bool {
    path.len() > 0 && path[0] == '/'
}

/// The path `rest`, taken from `base` on where it is relative.
pub open spec fn joined(base: Seq<char>, rest: Seq<char>) -> Seq<char> {
    if is_absolute(rest) {
        rest
    } else if base.len() == 0 || base.last() == '/' {
        base + rest
    } else {
        base + "/"@ + rest
    }
}

/// Whether a path begins at the root.
pub fn path_is_absolute(path: &str) -> (absolute: bool)
    ensures
        absolute == is_absolute(path@),
{
    let chars = chars_of(path);
    chars.len() > 0 && chars[0] == '/'
}

/// The path `rest`, taken from `base` on where it is relative.
pub fn join(base: &str, rest: &str) -> (path: String)
    ensures
        path@ == joined(base@, rest@),
{
    if path_is_absolute(rest) {
        return rest.to_owned();
    }
    let chars = chars_of(base);
    let mut path = base.to_owned();
    if chars.len() > 0 && chars[chars.len() - 1] != '/' {
        path.append("/");
    }
    path.append(rest);
    path
}

/// A path that begins at the root.
#[derive(Debug)]
pub struct AbsolutePath {
    path: String,
}

impl View for AbsolutePath {
    type V = Seq<char>;

    closed spec fn view(&self) -> Seq<char> {
        self.path@
    }
}

impl AbsolutePath {
    #[verifier::type_invariant]
    spec fn inv(self) -> bool {
        is_absolute(self.path@)
    }

    /// The path that `path` spells, where it begins at the root.
    pub fn new(path: &str) -> (absolute: Option<AbsolutePath>)
        ensures
            match absolute {
                Some(absolute) => is_absolute(path@) && absolute@ == path@,
                None => !is_absolute(path@),
            },
    {
        if path_is_absolute(path) {
            Some(AbsolutePath { path: path.to_owned() })
        } else {
            None
        }
    }

    /// The path as text.
    pub fn as_str(&self) -> (path: &str)
        ensures
            path@ == self@,
            is_absolute(path@),
    {
        proof {
            use_type_invariant(self);
        }
        self.path.as_str()
    }

    /// The path as text of its own.
    pub fn display_absolute(&self) -> (path: String)
        ensures
            path@ == self@,
    {
        self.path.clone()
    }

    /// The same path.
    pub fn copy(&self) -> (copy: AbsolutePath)
        ensures
            copy == *self,
    {
        proof {
            use_type_invariant(self);
        }
        AbsolutePath { path: self.path.clone() }
    }

    /// Whether two paths are the same.
    pub fn same(&self, other: &AbsolutePath) -> (same: bool)
        ensures
            same == (self@ == other@),
    {
        str_eq(self.path.as_str(), other.path.as_str())
    }
}

/// Where the last `/` of a path stands.
pub open spec fn last_slash(path: Seq<char>) -> Option<int>
    decreases path.len(),
{
    if path.len() == 0 {
        None
    } else if path.last() == '/' {
        Some(path.len() - 1)
    } else {
        last_slash(path.drop_last())
    }
}

/// The directory of a path: what stands before its last `/`, or the root itself. The root has none,
/// nor has a path without a `/`.
pub open spec fn parent(path: Seq<char>) -> Option<Seq<char>> {
    match last_slash(path) {
        Some(at) => if at > 0 {
            Some(path.take(at))
        } else if path.len() > 1 {
            Some(path.take(1))
        } else {
            None
        },
        None => None,
    }
}

proof fn lemma_last_slash(path: Seq<char>)
    ensures
        match last_slash(path) {
            Some(at) => 0 <= at < path.len() && path[at] == '/',
            None => true,
        },
    decreases path.len(),
{
    if path.len() > 0 && path.last() != '/' {
        lemma_last_slash(path.drop_last());
    }
}

/// A path and the directories above it, from the path itself up.
pub open spec fn ancestors(path: Seq<char>) -> Seq<Seq<char>>
    decreases path.len(),
    via ancestors_end
{
    match parent(path) {
        Some(above) => seq![path] + ancestors(above),
        None => seq![path],
    }
}

#[via_fn]
proof fn ancestors_end(path: Seq<char>) {
    lemma_last_slash(path);
}

/// The directory of a path. See [`parent`].
pub fn parent_of(path: &str) -> (above: Option<String>)
    ensures
        match above {
            Some(above) => parent(path@) == Some(above@),
            None => parent(path@) is None,
        },
{
    let chars = chars_of(path);
    let mut n: usize = chars.len();
    assert(chars@.take(n as int) == chars@);
    while n > 0
        invariant
            n <= chars.len(),
            chars@ == path@,
            last_slash(path@) == last_slash(chars@.take(n as int)),
        decreases n,
    {
        assert(chars@.take(n as int).drop_last() == chars@.take(n - 1));
        assert(chars@.take(n as int).last() == chars@[n - 1]);
        if chars[n - 1] == '/' {
            let end = if n > 1 {
                n - 1
            } else if chars.len() > 1 {
                1
            } else {
                return None;
            };
            let above = chars_between(chars.as_slice(), 0, end);
            assert(above@ =~= path@.take(end as int));
            return Some(string_of(above.as_slice()));
        }
        n -= 1;
    }
    assert(chars@.take(0).len() == 0);
    None
}

/// A path and the directories above it, from the path itself up.
pub fn ancestors_of(path: &str) -> (list: Vec<String>)
    ensures
        texts(list@) == ancestors(path@),
{
    let mut list: Vec<String> = Vec::new();
    let mut current = path.to_owned();
    loop
        invariant
            texts(list@) + ancestors(current@) == ancestors(path@),
        decreases current@.len(),
    {
        proof {
            lemma_last_slash(current@);
        }
        let above = parent_of(current.as_str());
        let ghost before = texts(list@);
        let ghost now = current@;
        list.push(current);
        assert(texts(list@) =~= before + seq![now]);
        match above {
            Some(above) => {
                assert(texts(list@) + ancestors(above@) =~= before + ancestors(now));
                current = above;
            },
            None => {
                return list;
            },
        }
    }
}

/// Whether a list of texts comes before another one: the first texts that differ decide, or else
/// the lengths.
pub open spec fn list_precedes(left: Seq<Seq<char>>, right: Seq<Seq<char>>) -> bool
    decreases left.len(),
{
    if right.len() == 0 {
        false
    } else if left.len() == 0 {
        true
    } else if left[0] == right[0] {
        list_precedes(left.skip(1), right.skip(1))
    } else {
        text_precedes(left[0], right[0])
    }
}

/// Whether a path comes before another one: paths are ordered by the names of the directories on
/// them, from the root on.
pub open spec fn path_precedes(left: Seq<char>, right: Seq<char>) -> bool {
    list_precedes(pieces(left, '/'), pieces(right, '/'))
}

/// Whether a path comes before another one. See [`path_precedes`].
pub fn comes_before(left: &str, right: &str) -> (before: bool)
    ensures
        before == path_precedes(left@, right@),
{
    let first = split(left, '/');
    let second = split(right, '/');
    let ghost a = texts(first@);
    let ghost b = texts(second@);
    let mut i: usize = 0;
    assert(a.skip(0) == a);
    assert(b.skip(0) == b);
    while i < first.len() && i < second.len()
        invariant
            i <= first.len(),
            i <= second.len(),
            a == texts(first@),
            b == texts(second@),
            a == pieces(left@, '/'),
            b == pieces(right@, '/'),
            list_precedes(a, b) == list_precedes(a.skip(i as int), b.skip(i as int)),
        decreases first.len() - i,
    {
        assert(a.skip(i as int).skip(1) == a.skip(i + 1));
        assert(b.skip(i as int).skip(1) == b.skip(i + 1));
        if !str_eq(first[i].as_str(), second[i].as_str()) {
            return precedes(first[i].as_str(), second[i].as_str());
        }
        i += 1;
    }
    first.len() < second.len()
}

proof fn lemma_list_order(left: Seq<Seq<char>>, right: Seq<Seq<char>>)
    ensures
        left == right ==> !list_precedes(left, right),
        left != right ==> (list_precedes(left, right) <==> !list_precedes(right, left)),
    decreases left.len(),
{
    if left.len() == 0 || right.len() == 0 {
        assert(left.len() == right.len() ==> left =~= right);
    } else if left[0] == right[0] {
        lemma_list_order(left.skip(1), right.skip(1));
        if left.skip(1) == right.skip(1) {
            assert(left =~= seq![left[0]] + left.skip(1));
            assert(right =~= seq![right[0]] + right.skip(1));
        }
    } else {
        law_texts_are_in_order(left[0], right[0]);
    }
}

proof fn lemma_list_order_transitive(
    first: Seq<Seq<char>>,
    second: Seq<Seq<char>>,
    third: Seq<Seq<char>>,
)
    requires
        list_precedes(first, second),
        list_precedes(second, third),
    ensures
        list_precedes(first, third),
    decreases first.len(),
{
    if first.len() > 0 && second.len() > 0 && third.len() > 0 {
        if first[0] == second[0] && second[0] == third[0] {
            lemma_list_order_transitive(first.skip(1), second.skip(1), third.skip(1));
        } else if first[0] != second[0] && second[0] != third[0] {
            law_text_order_is_transitive(first[0], second[0], third[0]);
            law_texts_are_in_order(first[0], third[0]);
        }
    }
}

/// Of two different paths, exactly one comes before the other.
pub proof fn law_paths_are_in_order(left: Seq<char>, right: Seq<char>)
    ensures
        left == right ==> !path_precedes(left, right),
        left != right ==> (path_precedes(left, right) <==> !path_precedes(right, left)),
{
    law_pieces_are_joined_back(left, '/');
    law_pieces_are_joined_back(right, '/');
    lemma_list_order(pieces(left, '/'), pieces(right, '/'));
}

/// The order of paths is transitive.
pub proof fn law_path_order_is_transitive(first: Seq<char>, second: Seq<char>, third: Seq<char>)
    requires
        path_precedes(first, second),
        path_precedes(second, third),
    ensures
        path_precedes(first, third),
{
    lemma_list_order_transitive(pieces(first, '/'), pieces(second, '/'), pieces(third, '/'));
}

proof fn lemma_no_slash(base: Seq<char>, name: Seq<char>)
    requires
        !name.contains('/'),
        base.len() > 0,
        base.last() == '/',
    ensures
        last_slash(base + name) == Some(base.len() - 1),
    decreases name.len(),
{
    let path = base + name;
    if name.len() == 0 {
        assert(path =~= base);
    } else {
        let shorter = name.drop_last();
        assert(name.last() != '/') by {
            assert(name.contains(name.last()));
        }
        assert(!shorter.contains('/')) by {
            if shorter.contains('/') {
                let i = choose|i: int| 0 <= i < shorter.len() && shorter[i] == '/';
                assert(name[i] == '/');
            }
        }
        lemma_no_slash(base, shorter);
        assert(path.drop_last() =~= base + shorter);
        assert(path.last() == name.last());
    }
}

/// The directory of an entry of a directory is that directory.
pub proof fn law_parent_of_an_entry(directory: Seq<char>, name: Seq<char>)
    requires
        directory.len() > 0,
        directory.last() != '/',
        name.len() > 0,
        !name.contains('/'),
    ensures
        parent(joined(directory, name)) == Some(directory),
        ancestors(joined(directory, name)) == seq![joined(directory, name)] + ancestors(directory),
{
    reveal_strlit("/");
    assert(name[0] != '/') by {
        assert(name.contains(name[0]));
    }
    let base = directory + "/"@;
    assert(base.last() == '/');
    lemma_no_slash(base, name);
    let path = joined(directory, name);
    assert(path == base + name);
    assert(path.take(directory.len() as int) =~= directory);
}

/// A path that begins at the root is taken as it is. Any other is taken from a directory on: behind
/// the directory, with one `/` between them, which the directory may end with.
pub proof fn law_joined_paths_follow_the_directory(base: Seq<char>, rest: Seq<char>)
    ensures
        rest.len() > 0 && rest[0] == '/' ==> joined(base, rest) == rest,
        (rest.len() == 0 || rest[0] != '/') && base.len() > 0 && base.last() != '/' ==> joined(
            base,
            rest,
        ) == base + seq!['/'] + rest,
        (rest.len() == 0 || rest[0] != '/') && (base.len() == 0 || base.last() == '/') ==> joined(
            base,
            rest,
        ) == base + rest,
{
    reveal_strlit("/");
    assert("/"@ =~= seq!['/']);
}

proof fn lemma_last_slash_is_last(path: Seq<char>)
    ensures
        match last_slash(path) {
            Some(at) => 0 <= at < path.len() && path[at] == '/' && forall|k: int|
                at < k < path.len() ==> path[k] != '/',
            None => !path.contains('/'),
        },
    decreases path.len(),
{
    if path.len() > 0 && path.last() != '/' {
        let rest = path.drop_last();
        lemma_last_slash_is_last(rest);
        match last_slash(path) {
            Some(at) => {
                assert forall|k: int| at < k < path.len() implies path[k] != '/' by {
                    if k < rest.len() {
                        assert(rest[k] == path[k]);
                    }
                }
            },
            None => {
                if path.contains('/') {
                    let k = choose|k: int| 0 <= k < path.len() && path[k] == '/';
                    assert(rest[k] == '/');
                }
            },
        }
    }
}

/// The directory of a path is all that stands before its last name and the `/` before that name, or
/// the root where nothing else does. A path without a `/` has none, nor has the root.
pub proof fn law_parents_hold_all_but_the_last_name(path: Seq<char>)
    ensures
        match parent(path) {
            Some(above) => {
                &&& above.is_prefix_of(path)
                &&& above.len() < path.len()
                &&& above == seq!['/'] || path[above.len() as int] == '/'
                &&& forall|k: int| above.len() < k < path.len() ==> path[k] != '/'
                &&& above.len() > 0
            },
            None => !path.contains('/') || path == seq!['/'],
        },
        parent(seq!['/']) is None,
{
    lemma_last_slash_is_last(path);
    let root = seq!['/'];
    lemma_last_slash_is_last(root);
    if let Some(at) = last_slash(path) {
        if at == 0 {
            if path.len() > 1 {
                assert(path.take(1) =~= seq!['/']);
            } else {
                assert(path =~= seq!['/']);
            }
        }
    }
    if let Some(at) = last_slash(root) {
        assert(at == 0);
    }
}

/// Going up from a path leads from each directory to the one that holds it, until there is none.
pub proof fn law_ancestors_follow_each_other(path: Seq<char>)
    ensures
        ancestors(path).len() > 0,
        ancestors(path)[0] == path,
        forall|i: int|
            0 < i < ancestors(path).len() ==> parent(ancestors(path)[i - 1]) == Some(
                #[trigger] ancestors(path)[i],
            ),
        parent(ancestors(path).last()) is None,
    decreases path.len(),
{
    lemma_last_slash(path);
    if let Some(above) = parent(path) {
        law_ancestors_follow_each_other(above);
        let list = ancestors(path);
        let rest = ancestors(above);
        assert forall|i: int| 0 < i < list.len() implies parent(list[i - 1]) == Some(
            #[trigger] list[i],
        ) by {
            assert(list[i] == rest[i - 1]);
            if i > 1 {
                assert(list[i - 1] == rest[i - 2]);
                assert(parent(rest[i - 2]) == Some(rest[i - 1]));
            }
        }
    }
}

proof fn lemma_list_precedes_at(left: Seq<Seq<char>>, right: Seq<Seq<char>>, at: int)
    requires
        0 <= at <= left.len(),
        at <= right.len(),
        left.take(at) == right.take(at),
    ensures
        at == left.len() && at < right.len() ==> list_precedes(left, right),
        at < left.len() && at < right.len() && left[at] != right[at] ==> (list_precedes(left, right)
            <==> text_precedes(left[at], right[at])),
    decreases at,
{
    if at > 0 {
        assert(left.take(at)[0] == right.take(at)[0]);
        assert(left.skip(1).take(at - 1) =~= right.skip(1).take(at - 1)) by {
            assert forall|i: int| 0 <= i < at - 1 implies left.skip(1)[i] == right.skip(1)[i] by {
                assert(left.take(at)[i + 1] == right.take(at)[i + 1]);
            }
        }
        lemma_list_precedes_at(left.skip(1), right.skip(1), at - 1);
    }
}

/// Paths are in the order of the first names in which they differ, from the root on. A directory
/// comes before what it holds.
pub proof fn law_the_first_names_decide(left: Seq<char>, right: Seq<char>, at: int)
    requires
        0 <= at <= pieces(left, '/').len(),
        at <= pieces(right, '/').len(),
        pieces(left, '/').take(at) == pieces(right, '/').take(at),
    ensures
        at == pieces(left, '/').len() && at < pieces(right, '/').len() ==> path_precedes(
            left,
            right,
        ),
        at < pieces(left, '/').len() && at < pieces(right, '/').len() && text_precedes(
            pieces(left, '/')[at],
            pieces(right, '/')[at],
        ) ==> path_precedes(left, right),
{
    lemma_list_precedes_at(pieces(left, '/'), pieces(right, '/'), at);
    if at < pieces(left, '/').len() && at < pieces(right, '/').len() {
        law_texts_are_in_order(pieces(left, '/')[at], pieces(right, '/')[at]);
    }
}

} // verus!
