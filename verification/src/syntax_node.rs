//! Selecting the nodes of a syntax tree: their parents, their children and their siblings.

use vstd::prelude::*;

verus! {

/// What lies between two bytes of a text.
#[derive(Clone, Copy, Debug, PartialEq, Eq, Structural)]
pub struct ByteRange {
    pub start: usize,
    pub end: usize,
}

/// A node of a syntax tree.
pub struct TreeNode {
    /// What is selected when the node is.
    pub range: ByteRange,
    /// Whether the grammar gives the node a name.
    pub named: bool,
    pub parent: Option<usize>,
    /// The children, in the order of the text.
    pub children: Vec<usize>,
}

/// A syntax tree. Nodes are known by their numbers, and a node comes before its children.
pub struct SyntaxTree {
    nodes: Vec<TreeNode>,
}

/// Which way to go among the children of a node.
#[derive(Clone, Copy, Debug, PartialEq, Eq, Structural)]
pub enum Direction {
    Start,
    End,
}

spec fn children_ok(nodes: Seq<TreeNode>, i: int) -> bool {
    forall|k: int|
        0 <= k < nodes[i].children@.len() ==> i < (#[trigger] nodes[i].children@[k]) < nodes.len()
            && nodes[nodes[i].children@[k] as int].parent == Some(i as usize)
}

spec fn parent_ok(nodes: Seq<TreeNode>, i: int) -> bool {
    match nodes[i].parent {
        Some(p) => p < i && nodes[p as int].children@.contains(i as usize),
        None => true,
    }
}

impl SyntaxTree {
    /// Whether parents and children agree.
    pub closed spec fn wf(self) -> bool {
        &&& self.nodes@.len() <= usize::MAX
        &&& forall|i: int| 0 <= i < self.nodes@.len() ==> #[trigger] children_ok(self.nodes@, i)
        &&& forall|i: int| 0 <= i < self.nodes@.len() ==> #[trigger] parent_ok(self.nodes@, i)
    }

    /// The number of nodes.
    pub closed spec fn spec_len(self) -> nat {
        self.nodes@.len()
    }

    /// What is selected when a node is.
    pub closed spec fn range(self, node: int) -> ByteRange {
        self.nodes@[node].range
    }

    /// Whether the grammar gives a node a name.
    pub closed spec fn named(self, node: int) -> bool {
        self.nodes@[node].named
    }

    /// The parent of a node.
    pub closed spec fn parent(self, node: int) -> Option<usize> {
        self.nodes@[node].parent
    }

    /// The children of a node, in the order of the text.
    pub closed spec fn children(self, node: int) -> Seq<usize> {
        self.nodes@[node].children@
    }

    /// The tree without nodes.
    pub fn new() -> (tree: SyntaxTree)
        ensures
            tree.wf(),
            tree.spec_len() == 0,
    {
        SyntaxTree { nodes: Vec::new() }
    }

    /// The number of nodes.
    pub fn len(&self) -> (n: usize)
        ensures
            n == self.spec_len(),
    {
        self.nodes.len()
    }

    /// Adds a node, as the last child of its parent.
    pub fn push(&mut self, parent: Option<usize>, range: ByteRange, named: bool) -> (node: usize)
        requires
            old(self).wf(),
            old(self).spec_len() < usize::MAX,
            parent is Some ==> parent->0 < old(self).spec_len(),
        ensures
            final(self).wf(),
            node == old(self).spec_len(),
            final(self).spec_len() == old(self).spec_len() + 1,
            final(self).range(node as int) == range,
            final(self).named(node as int) == named,
            final(self).parent(node as int) == parent,
            final(self).children(node as int).len() == 0,
            forall|i: int|
                0 <= i < old(self).spec_len() ==> #[trigger] final(self).range(i) == old(
                    self,
                ).range(i) && final(self).named(i) == old(self).named(i) && final(self).parent(i)
                    == old(self).parent(i),
            forall|i: int|
                0 <= i < old(self).spec_len() ==> #[trigger] final(self).children(i) == (if parent
                    == Some(i as usize) {
                    old(self).children(i).push(node)
                } else {
                    old(self).children(i)
                }),
    {
        let node = self.nodes.len();
        let ghost before = self.nodes@;
        if let Some(p) = parent {
            self.nodes[p].children.push(node);
        }
        self.nodes.push(TreeNode { range, named, parent, children: Vec::new() });
        proof {
            let after = self.nodes@;
            assert forall|i: int| 0 <= i < after.len() implies #[trigger] children_ok(after, i) by {
                if i < before.len() {
                    assert(children_ok(before, i));
                    assert forall|k: int| 0 <= k < after[i].children@.len() implies i < (
                    #[trigger] after[i].children@[k]) < after.len()
                        && after[after[i].children@[k] as int].parent == Some(i as usize) by {
                        if k < before[i].children@.len() {
                            assert(after[i].children@[k] == before[i].children@[k]);
                        }
                    }
                }
            }
            assert forall|i: int| 0 <= i < after.len() implies #[trigger] parent_ok(after, i) by {
                if i < before.len() {
                    assert(parent_ok(before, i));
                    if let Some(p) = before[i].parent {
                        let list = before[p as int].children@;
                        let k = choose|k: int| 0 <= k < list.len() && list[k] == i;
                        assert(after[p as int].children@[k] == i);
                    }
                } else if let Some(p) = parent {
                    let list = after[p as int].children@;
                    assert(list[list.len() - 1] == i);
                }
            }
        }
        node
    }
}

proof fn lemma_parent(tree: SyntaxTree, node: int)
    requires
        tree.wf(),
        0 <= node < tree.spec_len(),
    ensures
        match tree.parent(node) {
            Some(p) => p < node && tree.children(p as int).contains(node as usize),
            None => true,
        },
{
    assert(parent_ok(tree.nodes@, node));
}

proof fn lemma_children(tree: SyntaxTree, node: int)
    requires
        tree.wf(),
        0 <= node < tree.spec_len(),
    ensures
        forall|k: int|
            0 <= k < tree.children(node).len() ==> node < (#[trigger] tree.children(node)[k])
                < tree.spec_len() && tree.parent(tree.children(node)[k] as int) == Some(
                node as usize,
            ),
{
    assert(children_ok(tree.nodes@, node));
}

/// Those of some nodes that have a name.
pub open spec fn named_among(tree: SyntaxTree, nodes: Seq<usize>) -> Seq<usize>
    decreases nodes.len(),
{
    if nodes.len() == 0 {
        Seq::empty()
    } else {
        let before = named_among(tree, nodes.drop_last());
        if tree.named(nodes.last() as int) {
            before.push(nodes.last())
        } else {
            before
        }
    }
}

/// The children of a node, or only those that have a name.
pub open spec fn chosen_children(tree: SyntaxTree, node: int, named: bool) -> Seq<usize> {
    if named {
        named_among(tree, tree.children(node))
    } else {
        tree.children(node)
    }
}

/// The node next to a node: its parent, or its first child. With `coarse` set, children without a
/// name do not count.
pub open spec fn next_node(
    tree: SyntaxTree,
    node: int,
    go_up: bool,
    coarse: bool,
) -> Option<usize> {
    if go_up {
        tree.parent(node)
    } else {
        let children = chosen_children(tree, node, coarse);
        if children.len() > 0 {
            Some(children[0])
        } else {
            None
        }
    }
}

proof fn lemma_named_among(tree: SyntaxTree, nodes: Seq<usize>)
    ensures
        forall|k: int|
            0 <= k < named_among(tree, nodes).len() ==> nodes.contains(
                #[trigger] named_among(tree, nodes)[k],
            ) && tree.named(named_among(tree, nodes)[k] as int),
    decreases nodes.len(),
{
    if nodes.len() > 0 {
        let rest = nodes.drop_last();
        lemma_named_among(tree, rest);
        let list = named_among(tree, nodes);
        let before = named_among(tree, rest);
        assert forall|k: int| 0 <= k < list.len() implies nodes.contains(#[trigger] list[k])
            && tree.named(list[k] as int) by {
            if k < before.len() {
                assert(list[k] == before[k]);
                let j = choose|j: int| 0 <= j < rest.len() && rest[j] == before[k];
                assert(nodes[j] == before[k]);
            } else {
                assert(nodes[nodes.len() - 1] == list[k]);
            }
        }
    }
}

proof fn lemma_next_node(tree: SyntaxTree, node: int, go_up: bool, coarse: bool)
    requires
        tree.wf(),
        0 <= node < tree.spec_len(),
    ensures
        match next_node(tree, node, go_up, coarse) {
            Some(next) => if go_up {
                next < node
            } else {
                node < next < tree.spec_len() && tree.parent(next as int) == Some(node as usize)
            },
            None => true,
        },
{
    lemma_parent(tree, node);
    lemma_children(tree, node);
    lemma_named_among(tree, tree.children(node));
    if !go_up {
        if let Some(next) = next_node(tree, node, go_up, coarse) {
            if coarse {
                assert(named_among(tree, tree.children(node))[0] == next);
            } else {
                assert(tree.children(node)[0] == next);
            }
            let k = choose|k: int|
                0 <= k < tree.children(node).len() && tree.children(node)[k] == next;
            assert(tree.children(node)[k] == next);
        }
    }
}

/// The node that is selected by going up or down from a node. A node that covers the same text as
/// the one before it is passed over, and so is, on the way up, one that ends before the selection
/// does.
pub open spec fn vertical(
    tree: SyntaxTree,
    node: int,
    go_up: bool,
    coarse: bool,
    selection_end: usize,
) -> Option<usize>
    decreases
            (if go_up {
                node
            } else {
                tree.spec_len() - node
            }),
    when tree.wf() && 0 <= node < tree.spec_len()
    via vertical_ends
{
    match next_node(tree, node, go_up, coarse) {
        Some(next) => if tree.range(next as int) != tree.range(node) && (!go_up || tree.range(
            next as int,
        ).end >= selection_end) {
            Some(next)
        } else {
            vertical(tree, next as int, go_up, coarse, selection_end)
        },
        None => None,
    }
}

#[via_fn]
proof fn vertical_ends(
    tree: SyntaxTree,
    node: int,
    go_up: bool,
    coarse: bool,
    selection_end: usize,
) {
    lemma_next_node(tree, node, go_up, coarse);
}

/// What is selected when one of the nodes next to a node is: those that have the same parent. A
/// sibling with a name is the next one that the grammar gives a name.
#[derive(Clone, Copy, Debug, PartialEq, Eq, Structural)]
pub struct Siblings {
    pub previous: Option<ByteRange>,
    pub next: Option<ByteRange>,
    pub previous_named: Option<ByteRange>,
    pub next_named: Option<ByteRange>,
}

impl Siblings {
    /// The sibling in a direction, or the one that has a name.
    pub open spec fn spec_towards(self, direction: Direction, named: bool) -> Option<ByteRange> {
        match (named, direction) {
            (true, Direction::Start) => self.previous_named,
            (true, Direction::End) => self.next_named,
            (false, Direction::Start) => self.previous,
            (false, Direction::End) => self.next,
        }
    }

    /// The sibling in a direction, or the one that has a name.
    pub fn towards(self, direction: Direction, named: bool) -> (sibling: Option<ByteRange>)
        ensures
            sibling == self.spec_towards(direction, named),
    {
        match (named, direction) {
            (true, Direction::Start) => self.previous_named,
            (true, Direction::End) => self.next_named,
            (false, Direction::Start) => self.previous,
            (false, Direction::End) => self.next,
        }
    }
}

/// The tree of one language in a text, with the node that is selected in it.
pub struct Layer {
    pub tree: SyntaxTree,
    pub node: Option<usize>,
    /// The siblings of that node.
    pub siblings: Siblings,
    /// Whether the language stands inside of a text of another one.
    pub is_injected: bool,
}

impl Layer {
    /// Whether the tree is in order and has the node that is selected.
    pub open spec fn wf(self) -> bool {
        self.tree.wf() && (self.node is Some ==> self.node->0 < self.tree.spec_len())
    }
}

/// The range that is selected by going up or down. Above the outermost node of an inner language,
/// the parent of the node that is selected in the host language comes next.
pub open spec fn vertical_range(
    layer: Option<Layer>,
    host: Option<Layer>,
    selection_end: usize,
    go_up: bool,
    coarse: bool,
) -> Option<ByteRange> {
    match layer {
        None => None,
        Some(layer) => match layer.node {
            None => None,
            Some(node) => match vertical(layer.tree, node as int, go_up, coarse, selection_end) {
                Some(found) => Some(layer.tree.range(found as int)),
                None => if go_up && layer.is_injected {
                    host_parent(host)
                } else {
                    None
                },
            },
        },
    }
}

/// The range of the parent of the node that is selected in a layer.
pub open spec fn host_parent(host: Option<Layer>) -> Option<ByteRange> {
    match host {
        Some(host) => match host.node {
            Some(node) => match host.tree.parent(node as int) {
                Some(parent) => Some(host.tree.range(parent as int)),
                None => None,
            },
            None => None,
        },
        None => None,
    }
}

/// What is wrong with a text that is not parsed.
#[derive(Clone, Copy, Debug, PartialEq, Eq, Structural)]
pub enum SyntaxError {
    /// There is no tree, or no node in it that is selected.
    NoNode,
}

/// The ranges of some nodes.
pub open spec fn ranges_of(tree: SyntaxTree, nodes: Seq<usize>) -> Seq<ByteRange> {
    nodes.map_values(|node: usize| tree.range(node as int))
}

/// The ranges of a node and its siblings, or only of those that have a name. There are none for a
/// node without a parent.
pub open spec fn family(layer: Layer, named: bool) -> Seq<ByteRange> {
    match layer.tree.parent(layer.node->0 as int) {
        Some(parent) => ranges_of(
            layer.tree,
            chosen_children(layer.tree, parent as int, named),
        ),
        None => Seq::empty(),
    }
}

impl SyntaxTree {
    fn child_at(&self, node: usize, k: usize) -> (child: usize)
        requires
            self.wf(),
            node < self.spec_len(),
            k < self.children(node as int).len(),
        ensures
            child == self.children(node as int)[k as int],
            child < self.spec_len(),
    {
        proof {
            lemma_children(*self, node as int);
            assert(self.children(node as int)[k as int] < self.spec_len());
        }
        self.nodes[node].children[k]
    }

    fn child_list(&self, node: usize, named: bool) -> (list: Vec<usize>)
        requires
            self.wf(),
            node < self.spec_len(),
        ensures
            list@ == chosen_children(*self, node as int, named),
            forall|k: int| 0 <= k < list@.len() ==> #[trigger] list@[k] < self.spec_len(),
    {
        let count = self.nodes[node].children.len();
        let ghost all = self.children(node as int);
        let mut list: Vec<usize> = Vec::new();
        let mut k: usize = 0;
        while k < count
            invariant
                k <= count,
                self.wf(),
                node < self.spec_len(),
                all == self.children(node as int),
                count == all.len(),
                list@ == (if named {
                    named_among(*self, all.take(k as int))
                } else {
                    all.take(k as int)
                }),
                forall|j: int| 0 <= j < list@.len() ==> #[trigger] list@[j] < self.spec_len(),
            decreases count - k,
        {
            let child = self.child_at(node, k);
            assert(all.take(k + 1).drop_last() == all.take(k as int));
            assert(all.take(k + 1).last() == child);
            assert(all.take(k as int).push(child) =~= all.take(k + 1));
            if !named || self.nodes[child].named {
                list.push(child);
            }
            k += 1;
        }
        assert(all.take(all.len() as int) == all);
        list
    }

    fn select_in_tree(
        &self,
        node: usize,
        go_up: bool,
        coarse: bool,
        selection_end: usize,
    ) -> (found:
        Option<usize>)
        requires
            self.wf(),
            node < self.spec_len(),
        ensures
            found == vertical(*self, node as int, go_up, coarse, selection_end),
            found is Some ==> found->0 < self.spec_len(),
    {
        let mut current = node;
        loop
            invariant
                self.wf(),
                current < self.spec_len(),
                vertical(*self, node as int, go_up, coarse, selection_end) == vertical(
                    *self,
                    current as int,
                    go_up,
                    coarse,
                    selection_end,
                ),
            decreases
                    (if go_up {
                        current as int
                    } else {
                        self.spec_len() - current
                    }),
        {
            proof {
                lemma_next_node(*self, current as int, go_up, coarse);
            }
            let next = match get_node(self, current, go_up, coarse) {
                Some(next) => next,
                None => {
                    return None;
                },
            };
            let range = self.nodes[next].range;
            if range != self.nodes[current].range && (!go_up || range.end >= selection_end) {
                return Some(next);
            }
            current = next;
        }
    }
}

/// The node next to a node: its parent, or its first child. See [`next_node`].
pub fn get_node(tree: &SyntaxTree, node: usize, go_up: bool, coarse: bool) -> (next: Option<usize>)
    requires
        tree.wf(),
        node < tree.spec_len(),
    ensures
        next == next_node(*tree, node as int, go_up, coarse),
        next is Some ==> next->0 < tree.spec_len(),
{
    proof {
        lemma_next_node(*tree, node as int, go_up, coarse);
    }
    if go_up {
        tree.nodes[node].parent
    } else {
        let children = tree.child_list(node, coarse);
        if children.len() > 0 {
            Some(children[0])
        } else {
            None
        }
    }
}

/// The way of selecting in which nodes of the syntax tree are selected. With `coarse` set, nodes
/// without a name do not count.
#[derive(Clone, Copy, Debug, PartialEq, Eq, Structural)]
pub struct SyntaxNode {
    pub coarse: bool,
}

impl SyntaxNode {
    /// The range that is selected by going up or down. See [`vertical_range`].
    pub fn select_vertical(
        &self,
        layer: Option<&Layer>,
        host: Option<&Layer>,
        selection_end: usize,
        go_up: bool,
    ) -> (range: Option<ByteRange>)
        requires
            layer is Some ==> layer->0.wf(),
            host is Some ==> host->0.wf(),
        ensures
            range == vertical_range(
                match layer {
                    Some(layer) => Some(*layer),
                    None => None,
                },
                match host {
                    Some(host) => Some(*host),
                    None => None,
                },
                selection_end,
                go_up,
                self.coarse,
            ),
    {
        let layer = match layer {
            Some(layer) => layer,
            None => {
                return None;
            },
        };
        let node = match layer.node {
            Some(node) => node,
            None => {
                return None;
            },
        };
        if let Some(found) = layer.tree.select_in_tree(node, go_up, self.coarse, selection_end) {
            return Some(layer.tree.nodes[found].range);
        }
        if go_up && layer.is_injected {
            if let Some(host) = host {
                if let Some(node) = host.node {
                    proof {
                        lemma_parent(host.tree, node as int);
                    }
                    if let Some(parent) = host.tree.nodes[node].parent {
                        return Some(host.tree.nodes[parent].range);
                    }
                }
            }
        }
        None
    }

    /// The range of a sibling of the node that is selected. See [`Siblings`].
    pub fn navigate_sibling_nodes(
        &self,
        layer: Option<&Layer>,
        direction: Direction,
        named: bool,
    ) -> (range: Result<Option<ByteRange>, SyntaxError>)
        ensures
            match range {
                Err(_) => layer is None || layer->0.node is None,
                Ok(range) => layer is Some && layer->0.node is Some && range
                    == layer->0.siblings.spec_towards(direction, named),
            },
    {
        match layer {
            Some(layer) => match layer.node {
                Some(_) => Ok(layer.siblings.towards(direction, named)),
                None => Err(SyntaxError::NoNode),
            },
            None => Err(SyntaxError::NoNode),
        }
    }

    /// The range that the selection grows to. See [`vertical_range`].
    pub fn expand(
        &self,
        layer: Option<&Layer>,
        host: Option<&Layer>,
        selection_end: usize,
    ) -> (range:
        Option<ByteRange>)
        requires
            layer is Some ==> layer->0.wf(),
            host is Some ==> host->0.wf(),
        ensures
            range == vertical_range(
                match layer {
                    Some(layer) => Some(*layer),
                    None => None,
                },
                match host {
                    Some(host) => Some(*host),
                    None => None,
                },
                selection_end,
                true,
                self.coarse,
            ),
    {
        self.select_vertical(layer, host, selection_end, true)
    }

    /// The range above the selection. See [`vertical_range`].
    pub fn up(&self, layer: Option<&Layer>, host: Option<&Layer>, selection_end: usize) -> (range:
        Option<ByteRange>)
        requires
            layer is Some ==> layer->0.wf(),
            host is Some ==> host->0.wf(),
        ensures
            range == vertical_range(
                match layer {
                    Some(layer) => Some(*layer),
                    None => None,
                },
                match host {
                    Some(host) => Some(*host),
                    None => None,
                },
                selection_end,
                true,
                self.coarse,
            ),
    {
        self.select_vertical(layer, host, selection_end, true)
    }

    /// The range below the selection. See [`vertical_range`].
    pub fn down(&self, layer: Option<&Layer>, host: Option<&Layer>, selection_end: usize) -> (range:
        Option<ByteRange>)
        requires
            layer is Some ==> layer->0.wf(),
            host is Some ==> host->0.wf(),
        ensures
            range == vertical_range(
                match layer {
                    Some(layer) => Some(*layer),
                    None => None,
                },
                match host {
                    Some(host) => Some(*host),
                    None => None,
                },
                selection_end,
                false,
                self.coarse,
            ),
    {
        self.select_vertical(layer, host, selection_end, false)
    }

    /// The range of the named sibling before the selection. See [`Siblings`].
    pub fn left(&self, layer: Option<&Layer>) -> (range: Result<Option<ByteRange>, SyntaxError>)
        ensures
            match range {
                Err(_) => layer is None || layer->0.node is None,
                Ok(range) => layer is Some && layer->0.node is Some && range
                    == layer->0.siblings.spec_towards(Direction::Start, true),
            },
    {
        self.navigate_sibling_nodes(layer, Direction::Start, true)
    }

    /// The range of the named sibling behind the selection. See [`Siblings`].
    pub fn right(&self, layer: Option<&Layer>) -> (range: Result<Option<ByteRange>, SyntaxError>)
        ensures
            match range {
                Err(_) => layer is None || layer->0.node is None,
                Ok(range) => layer is Some && layer->0.node is Some && range
                    == layer->0.siblings.spec_towards(Direction::End, true),
            },
    {
        self.navigate_sibling_nodes(layer, Direction::End, true)
    }

    /// The range of the sibling before the selection. See [`Siblings`].
    pub fn previous(&self, layer: Option<&Layer>) -> (range: Result<Option<ByteRange>, SyntaxError>)
        ensures
            match range {
                Err(_) => layer is None || layer->0.node is None,
                Ok(range) => layer is Some && layer->0.node is Some && range
                    == layer->0.siblings.spec_towards(Direction::Start, false),
            },
    {
        self.navigate_sibling_nodes(layer, Direction::Start, false)
    }

    /// The range of the sibling behind the selection. See [`Siblings`].
    pub fn next(&self, layer: Option<&Layer>) -> (range: Result<Option<ByteRange>, SyntaxError>)
        ensures
            match range {
                Err(_) => layer is None || layer->0.node is None,
                Ok(range) => layer is Some && layer->0.node is Some && range
                    == layer->0.siblings.spec_towards(Direction::End, false),
            },
    {
        self.navigate_sibling_nodes(layer, Direction::End, false)
    }

    fn family_of(&self, layer: Option<&Layer>, named: bool) -> (ranges: Result<
        Vec<ByteRange>,
        SyntaxError,
    >)
        requires
            layer is Some ==> layer->0.wf(),
        ensures
            match ranges {
                Err(_) => layer is None || layer->0.node is None,
                Ok(ranges) => layer is Some && layer->0.node is Some && ranges@ == family(
                    *layer->0,
                    named,
                ),
            },
    {
        let layer = match layer {
            Some(layer) => layer,
            None => {
                return Err(SyntaxError::NoNode);
            },
        };
        let node = match layer.node {
            Some(node) => node,
            None => {
                return Err(SyntaxError::NoNode);
            },
        };
        proof {
            lemma_parent(layer.tree, node as int);
        }
        let parent = match layer.tree.nodes[node].parent {
            Some(parent) => parent,
            None => {
                return Ok(Vec::new());
            },
        };
        let list = layer.tree.child_list(parent, named);
        let mut ranges: Vec<ByteRange> = Vec::new();
        let mut k: usize = 0;
        while k < list.len()
            invariant
                k <= list.len(),
                layer.tree.wf(),
                forall|j: int| 0 <= j < list@.len() ==> #[trigger] list@[j] < layer.tree.spec_len(),
                ranges@.len() == k,
                forall|j: int| 0 <= j < k ==> #[trigger] ranges@[j] == layer.tree.range(
                    list@[j] as int,
                ),
            decreases list.len() - k,
        {
            ranges.push(layer.tree.nodes[list[k]].range);
            k += 1;
        }
        assert(ranges@ =~= ranges_of(layer.tree, list@));
        Ok(ranges)
    }

    /// The ranges that are shown as what can be selected: those of the node that is selected and of
    /// its siblings.
    pub fn iter_revealed(&self, layer: Option<&Layer>) -> (ranges: Result<
        Vec<ByteRange>,
        SyntaxError,
    >)
        requires
            layer is Some ==> layer->0.wf(),
        ensures
            match ranges {
                Err(_) => layer is None || layer->0.node is None,
                Ok(ranges) => layer is Some && layer->0.node is Some && ranges@ == family(
                    *layer->0,
                    self.coarse,
                ),
            },
    {
        self.family_of(layer, self.coarse)
    }

    /// The ranges of the node that is selected and of its siblings, as far as they have a name.
    pub fn all_meaningful_selections(&self, layer: Option<&Layer>) -> (ranges: Result<
        Vec<ByteRange>,
        SyntaxError,
    >)
        requires
            layer is Some ==> layer->0.wf(),
        ensures
            match ranges {
                Err(_) => layer is None || layer->0.node is None,
                Ok(ranges) => layer is Some && layer->0.node is Some && ranges@ == family(
                    *layer->0,
                    true,
                ),
            },
    {
        self.family_of(layer, true)
    }

    /// The ranges of the node that is selected and of its siblings.
    pub fn all_selections(&self, layer: Option<&Layer>) -> (ranges: Result<
        Vec<ByteRange>,
        SyntaxError,
    >)
        requires
            layer is Some ==> layer->0.wf(),
        ensures
            match ranges {
                Err(_) => layer is None || layer->0.node is None,
                Ok(ranges) => layer is Some && layer->0.node is Some && ranges@ == family(
                    *layer->0,
                    false,
                ),
            },
    {
        self.family_of(layer, false)
    }
}

/// Going up from the node that going down has led to leads to a node that covers the same text as
/// the one that was left, where that text does not end before the new selection does.
pub proof fn law_going_up_undoes_going_down(
    tree: SyntaxTree,
    node: usize,
    coarse: bool,
    selection_end: usize,
    new_end: usize,
)
    requires
        tree.wf(),
        node < tree.spec_len(),
        vertical(tree, node as int, false, coarse, selection_end) is Some,
        tree.range(node as int).end >= new_end,
    ensures
        ({
            let down = vertical(tree, node as int, false, coarse, selection_end)->0;
            let up = vertical(tree, down as int, true, coarse, new_end);
            up is Some && tree.range(up->0 as int) == tree.range(node as int)
        }),
    decreases tree.spec_len() - node,
{
    lemma_next_node(tree, node as int, false, coarse);
    let next = next_node(tree, node as int, false, coarse)->0;
    if tree.range(next as int) == tree.range(node as int) {
        law_going_up_undoes_going_down(tree, next, coarse, selection_end, new_end);
    }
}

/// Whether `way` leads from a node to one above it: each node of it but the first is the parent of
/// the one before.
pub open spec fn is_way_up(tree: SyntaxTree, node: usize, way: Seq<usize>) -> bool {
    &&& way.len() > 0
    &&& way[0] == node
    &&& forall|i: int|
        0 < i < way.len() ==> tree.parent(way[i - 1] as int) == Some(#[trigger] way[i])
}

/// Whether the node number `i` of a way up is one to stop at: it covers another text than the one
/// before it, and does not end before the selection does.
pub open spec fn is_stop_above(
    tree: SyntaxTree,
    way: Seq<usize>,
    i: int,
    selection_end: usize,
) -> bool {
    &&& tree.range(way[i] as int) != tree.range(way[i - 1] as int)
    &&& tree.range(way[i] as int).end >= selection_end
}

proof fn lemma_way_up(
    tree: SyntaxTree,
    node: usize,
    coarse: bool,
    selection_end: usize,
    way: Seq<usize>,
)
    requires
        tree.wf(),
        node < tree.spec_len(),
        is_way_up(tree, node, way),
        forall|i: int|
            0 < i < way.len() - 1 ==> !#[trigger] is_stop_above(tree, way, i, selection_end),
    ensures
        way.len() > 1 && is_stop_above(tree, way, way.len() - 1, selection_end) ==> vertical(
            tree,
            node as int,
            true,
            coarse,
            selection_end,
        ) == Some(way.last()),
        (way.len() == 1 || !is_stop_above(tree, way, way.len() - 1, selection_end))
            && tree.parent(way.last() as int) is None ==> vertical(
            tree,
            node as int,
            true,
            coarse,
            selection_end,
        ) is None,
    decreases way.len(),
{
    lemma_next_node(tree, node as int, true, coarse);
    if way.len() > 1 {
        assert(tree.parent(way[0] as int) == Some(way[1]));
        let next = way[1];
        let rest = way.skip(1);
        assert forall|i: int| 0 < i < rest.len() implies tree.parent(rest[i - 1] as int) == Some(
            #[trigger] rest[i],
        ) by {
            assert(tree.parent(way[i] as int) == Some(way[i + 1]));
        }
        assert(way.len() > 2 ==> !is_stop_above(tree, way, 1, selection_end));
        if !is_stop_above(tree, way, 1, selection_end) {
            assert forall|i: int| 0 < i < rest.len() - 1 implies !#[trigger] is_stop_above(
                tree,
                rest,
                i,
                selection_end,
            ) by {
                assert(!is_stop_above(tree, way, i + 1, selection_end));
            }
            lemma_way_up(tree, next, coarse, selection_end, rest);
            assert(rest.last() == way.last());
            assert(way.len() > 2 ==> is_stop_above(tree, rest, rest.len() - 1, selection_end)
                == is_stop_above(tree, way, way.len() - 1, selection_end));
        }
    }
}

/// Going up selects the nearest node above the one that is selected at which to stop, in the tree
/// of its own language, whether that language stands inside of another one or not. The host
/// language comes next only where there is no such node up to the top of the tree, and only for a
/// language that stands inside of another one: then the parent of the node that is selected there
/// is selected.
pub proof fn law_going_up_selects_the_nearest_node_above(
    layer: Layer,
    host: Option<Layer>,
    selection_end: usize,
    coarse: bool,
    way: Seq<usize>,
)
    requires
        layer.wf(),
        layer.node is Some,
        is_way_up(layer.tree, layer.node->0, way),
        forall|i: int|
            0 < i < way.len() - 1 ==> !#[trigger] is_stop_above(layer.tree, way, i, selection_end),
    ensures
        ({
            let up = vertical_range(Some(layer), host, selection_end, true, coarse);
            let stops = way.len() > 1 && is_stop_above(
                layer.tree,
                way,
                way.len() - 1,
                selection_end,
            );
            let at_top = layer.tree.parent(way.last() as int) is None;
            &&& stops ==> up == Some(layer.tree.range(way.last() as int))
            &&& !stops && at_top && !layer.is_injected ==> up is None
            &&& !stops && at_top && layer.is_injected && host is Some && host->0.node is Some
                && host->0.tree.parent(host->0.node->0 as int) is Some ==> up == Some(
                host->0.tree.range(host->0.tree.parent(host->0.node->0 as int)->0 as int),
            )
            &&& !stops && at_top && layer.is_injected && (host is None || host->0.node is None
                || host->0.tree.parent(host->0.node->0 as int) is None) ==> up is None
        }),
{
    lemma_way_up(layer.tree, layer.node->0, coarse, selection_end, way);
}

/// Whether `child` is the first child of a node, or the first that has a name.
pub open spec fn is_first_child(tree: SyntaxTree, node: usize, coarse: bool, child: usize) -> bool {
    exists|k: int|
        0 <= k < tree.children(node as int).len() && #[trigger] tree.children(node as int)[k]
            == child && (if coarse {
            tree.named(child as int) && forall|j: int|
                0 <= j < k ==> !tree.named(#[trigger] tree.children(node as int)[j] as int)
        } else {
            k == 0
        })
}

/// Whether a node has no child, or none that has a name.
pub open spec fn has_no_child(tree: SyntaxTree, node: usize, coarse: bool) -> bool {
    forall|k: int|
        0 <= k < tree.children(node as int).len() ==> coarse && !tree.named(
            #[trigger] tree.children(node as int)[k] as int,
        )
}

/// Whether `way` leads from a node to one below it: each node of it but the first is the first
/// child of the one before, or the first that has a name.
pub open spec fn is_way_down(tree: SyntaxTree, node: usize, coarse: bool, way: Seq<usize>) -> bool {
    &&& way.len() > 0
    &&& way[0] == node
    &&& forall|i: int|
        0 < i < way.len() ==> is_first_child(tree, way[i - 1], coarse, #[trigger] way[i])
}

proof fn lemma_named_first(tree: SyntaxTree, nodes: Seq<usize>, k: int)
    requires
        0 <= k <= nodes.len(),
        forall|j: int| 0 <= j < k ==> !tree.named(#[trigger] nodes[j] as int),
    ensures
        k < nodes.len() && tree.named(nodes[k] as int) ==> named_among(tree, nodes).len() > 0
            && named_among(tree, nodes)[0] == nodes[k],
        k == nodes.len() ==> named_among(tree, nodes).len() == 0,
    decreases nodes.len(),
{
    if nodes.len() > 0 {
        let rest = nodes.drop_last();
        if k == nodes.len() {
            assert(!tree.named(nodes[nodes.len() - 1] as int));
            assert forall|j: int| 0 <= j < rest.len() implies !tree.named(
                #[trigger] rest[j] as int,
            ) by {
                assert(!tree.named(nodes[j] as int));
            }
            lemma_named_first(tree, rest, rest.len() as int);
        } else {
            assert forall|j: int| 0 <= j < k implies !tree.named(#[trigger] rest[j] as int) by {
                assert(!tree.named(nodes[j] as int));
            }
            lemma_named_first(tree, rest, k);
        }
    }
}

proof fn lemma_first_child(tree: SyntaxTree, node: usize, coarse: bool, child: usize)
    requires
        tree.wf(),
        node < tree.spec_len(),
    ensures
        is_first_child(tree, node, coarse, child) ==> next_node(tree, node as int, false, coarse)
            == Some(child),
        has_no_child(tree, node, coarse) ==> next_node(tree, node as int, false, coarse) is None,
{
    let children = tree.children(node as int);
    if is_first_child(tree, node, coarse, child) {
        let k = choose|k: int|
            0 <= k < children.len() && #[trigger] children[k] == child && (if coarse {
                tree.named(child as int) && forall|j: int|
                    0 <= j < k ==> !tree.named(#[trigger] children[j] as int)
            } else {
                k == 0
            });
        if coarse {
            lemma_named_first(tree, children, k);
        }
    }
    if has_no_child(tree, node, coarse) {
        if children.len() > 0 {
            assert(!tree.named(children[0] as int));
        }
        lemma_named_first(tree, children, children.len() as int);
    }
}

proof fn lemma_way_down(
    tree: SyntaxTree,
    node: usize,
    coarse: bool,
    selection_end: usize,
    way: Seq<usize>,
)
    requires
        tree.wf(),
        node < tree.spec_len(),
        is_way_down(tree, node, coarse, way),
        forall|i: int|
            0 < i < way.len() - 1 ==> tree.range(#[trigger] way[i] as int) == tree.range(
                node as int,
            ),
    ensures
        way.len() > 1 && tree.range(way.last() as int) != tree.range(node as int) ==> vertical(
            tree,
            node as int,
            false,
            coarse,
            selection_end,
        ) == Some(way.last()),
        tree.range(way.last() as int) == tree.range(node as int) && has_no_child(
            tree,
            way.last(),
            coarse,
        ) ==> vertical(tree, node as int, false, coarse, selection_end) is None,
    decreases way.len(),
{
    lemma_next_node(tree, node as int, false, coarse);
    if way.len() == 1 {
        lemma_first_child(tree, node, coarse, node);
    } else {
        let next = way[1];
        let rest = way.skip(1);
        assert(is_first_child(tree, way[0], coarse, way[1]));
        lemma_first_child(tree, node, coarse, next);
        if way.len() > 2 || tree.range(next as int) == tree.range(node as int) {
            assert(tree.range(next as int) == tree.range(node as int));
            assert forall|i: int| 0 < i < rest.len() implies is_first_child(
                tree,
                rest[i - 1],
                coarse,
                #[trigger] rest[i],
            ) by {
                assert(is_first_child(tree, way[i], coarse, way[i + 1]));
            }
            assert forall|i: int| 0 < i < rest.len() - 1 implies tree.range(
                #[trigger] rest[i] as int,
            ) == tree.range(next as int) by {
                assert(tree.range(way[i + 1] as int) == tree.range(node as int));
            }
            lemma_way_down(tree, next, coarse, selection_end, rest);
            assert(rest.last() == way.last());
        }
    }
}

/// Going down selects the nearest node below the one that is selected that covers another text,
/// where the way down leads through first children, or through the first that have a name. Without
/// such a node nothing is selected. The host language and the end of the selection do not matter.
pub proof fn law_going_down_selects_the_nearest_node_below(
    layer: Layer,
    host: Option<Layer>,
    selection_end: usize,
    coarse: bool,
    way: Seq<usize>,
)
    requires
        layer.wf(),
        layer.node is Some,
        is_way_down(layer.tree, layer.node->0, coarse, way),
        forall|i: int|
            0 < i < way.len() - 1 ==> layer.tree.range(#[trigger] way[i] as int)
                == layer.tree.range(layer.node->0 as int),
    ensures
        ({
            let down = vertical_range(Some(layer), host, selection_end, false, coarse);
            let here = layer.tree.range(layer.node->0 as int);
            let there = layer.tree.range(way.last() as int);
            &&& there != here ==> down == Some(there)
            &&& there == here && has_no_child(layer.tree, way.last(), coarse) ==> down is None
        }),
{
    lemma_way_down(layer.tree, layer.node->0, coarse, selection_end, way);
}

/// Going down and up again selects what was selected before, in every layer: where going down has
/// selected a range, there is a node of that range in the tree from which going up selects the
/// range that was left, as long as that range does not end before the new selection does.
pub proof fn law_up_after_down_selects_the_same(
    layer: Layer,
    host: Option<Layer>,
    selection_end: usize,
    coarse: bool,
    new_end: usize,
)
    requires
        layer.wf(),
        layer.node is Some,
        vertical_range(Some(layer), host, selection_end, false, coarse) is Some,
        layer.tree.range(layer.node->0 as int).end >= new_end,
    ensures
        exists|below: usize| #[trigger]
            layer.tree.range(below as int) == vertical_range(
                Some(layer),
                host,
                selection_end,
                false,
                coarse,
            )->0 && below < layer.tree.spec_len() && vertical_range(
                Some(Layer { node: Some(below), ..layer }),
                host,
                new_end,
                true,
                coarse,
            ) == Some(layer.tree.range(layer.node->0 as int)),
{
    let node = layer.node->0;
    law_going_up_undoes_going_down(layer.tree, node, coarse, selection_end, new_end);
    lemma_below(layer.tree, node, coarse, selection_end);
    let below = vertical(layer.tree, node as int, false, coarse, selection_end)->0;
    assert(layer.tree.range(below as int) == vertical_range(
        Some(layer),
        host,
        selection_end,
        false,
        coarse,
    )->0);
}

proof fn lemma_below(tree: SyntaxTree, node: usize, coarse: bool, selection_end: usize)
    requires
        tree.wf(),
        node < tree.spec_len(),
    ensures
        vertical(tree, node as int, false, coarse, selection_end) is Some ==> vertical(
            tree,
            node as int,
            false,
            coarse,
            selection_end,
        )->0 < tree.spec_len(),
    decreases tree.spec_len() - node,
{
    lemma_next_node(tree, node as int, false, coarse);
    if let Some(next) = next_node(tree, node as int, false, coarse) {
        lemma_below(tree, next, coarse, selection_end);
    }
}

/// Without a node that is selected, going up and going down select nothing.
pub proof fn law_nothing_is_selected_from_nowhere(
    layer: Option<Layer>,
    host: Option<Layer>,
    selection_end: usize,
    go_up: bool,
    coarse: bool,
)
    requires
        layer is None || layer->0.node is None,
    ensures
        vertical_range(layer, host, selection_end, go_up, coarse) is None,
{
}

/// Going to a sibling goes the way that is asked for: to the start it is the one before, to the end
/// the one behind, and with a name where one is asked for.
pub proof fn law_siblings_lie_in_their_direction(siblings: Siblings)
    ensures
        siblings.spec_towards(Direction::Start, false) == siblings.previous,
        siblings.spec_towards(Direction::End, false) == siblings.next,
        siblings.spec_towards(Direction::Start, true) == siblings.previous_named,
        siblings.spec_towards(Direction::End, true) == siblings.next_named,
{
}

/// Whether `picks` are positions in `nodes`, in their order, and just those of the nodes that
/// count: all of them, or those that have a name.
pub open spec fn are_picks(
    tree: SyntaxTree,
    nodes: Seq<usize>,
    named: bool,
    picks: Seq<int>,
) -> bool {
    &&& forall|i: int| 0 <= i < picks.len() ==> 0 <= #[trigger] picks[i] < nodes.len()
    &&& forall|i: int, j: int|
        0 <= i < j < picks.len() ==> (#[trigger] picks[i]) < (#[trigger] picks[j])
    &&& forall|k: int|
        0 <= k < nodes.len() ==> (picks.contains(k) <==> !named || tree.named(
            #[trigger] nodes[k] as int,
        ))
}

proof fn lemma_picks(tree: SyntaxTree, nodes: Seq<usize>) -> (picks: Seq<int>)
    ensures
        are_picks(tree, nodes, true, picks),
        named_among(tree, nodes) == picks.map_values(|k: int| nodes[k]),
    decreases nodes.len(),
{
    if nodes.len() == 0 {
        let picks = Seq::<int>::empty();
        assert(named_among(tree, nodes) =~= picks.map_values(|k: int| nodes[k]));
        picks
    } else {
        let rest = nodes.drop_last();
        let before = lemma_picks(tree, rest);
        let last: int = nodes.len() - 1;
        let picks = if tree.named(nodes[last] as int) {
            before.push(last)
        } else {
            before
        };
        assert(named_among(tree, nodes) =~= picks.map_values(|k: int| nodes[k]));
        assert forall|k: int| 0 <= k < nodes.len() implies (picks.contains(k) <==> tree.named(
            #[trigger] nodes[k] as int,
        )) by {
            if k < last {
                assert(rest[k] == nodes[k]);
                if before.contains(k) {
                    let i = choose|i: int| 0 <= i < before.len() && before[i] == k;
                    assert(picks[i] == k);
                }
                if picks.contains(k) {
                    let i = choose|i: int| 0 <= i < picks.len() && picks[i] == k;
                    assert(before[i] == k);
                }
            } else if tree.named(nodes[last] as int) {
                assert(picks[before.len() as int] == last);
            } else if picks.contains(k) {
                let i = choose|i: int| 0 <= i < picks.len() && picks[i] == k;
                assert(before[i] == k);
            }
        }
        picks
    }
}

/// What can be selected beside a node are the children of its parent, or just those that have a
/// name: all of them, in their order, and nothing else. A node without a parent has none beside it.
pub proof fn law_siblings_are_the_children_of_the_parent(layer: Layer, named: bool)
    requires
        layer.wf(),
        layer.node is Some,
    ensures
        layer.tree.parent(layer.node->0 as int) is None ==> family(layer, named).len() == 0,
        layer.tree.parent(layer.node->0 as int) is Some ==> {
            let children = layer.tree.children(
                layer.tree.parent(layer.node->0 as int)->0 as int,
            );
            exists|picks: Seq<int>| #[trigger]
                are_picks(layer.tree, children, named, picks) && family(layer, named)
                    == picks.map_values(|k: int| layer.tree.range(children[k] as int))
        },
{
    if let Some(parent) = layer.tree.parent(layer.node->0 as int) {
        let children = layer.tree.children(parent as int);
        let picks = if named {
            lemma_picks(layer.tree, children)
        } else {
            Seq::new(children.len(), |i: int| i)
        };
        if !named {
            assert forall|k: int| 0 <= k < children.len() implies picks.contains(k) by {
                assert(picks[k] == k);
            }
            assert(chosen_children(layer.tree, parent as int, named) =~= picks.map_values(
                |k: int| children[k],
            ));
        }
        assert(are_picks(layer.tree, children, named, picks));
        assert(family(layer, named) =~= picks.map_values(
            |k: int| layer.tree.range(children[k] as int),
        ));
    }
}

} // verus!
