use ki::syntax_node::{
    get_node, ByteRange, Direction, Layer, Siblings, SyntaxError, SyntaxNode, SyntaxTree,
};

fn add(tree: &mut SyntaxTree, node: tree_sitter::Node, parent: Option<usize>) {
    let range = node.byte_range();
    let number = tree.push(
        parent,
        ByteRange {
            start: range.start,
            end: range.end,
        },
        node.is_named(),
    );
    let mut cursor = node.walk();
    for child in node.children(&mut cursor) {
        add(tree, child, Some(number));
    }
}

/// The tree of a Rust text, with the outermost node that covers just `start..end` selected.
fn layer(source: &str, start: usize, end: usize) -> Layer {
    let mut parser = tree_sitter::Parser::new();
    parser
        .set_language(&tree_sitter_rust::LANGUAGE.into())
        .unwrap();
    let parsed = parser.parse(source, None).unwrap();
    let mut tree = SyntaxTree::new();
    add(&mut tree, parsed.root_node(), None);
    let mut nodes = Vec::new();
    collect(parsed.root_node(), &mut nodes);
    assert_eq!(nodes.len(), tree.len());
    let node = nodes
        .iter()
        .position(|node| node.byte_range() == (start..end));
    let selected = node.map(|number| nodes[number]);
    Layer {
        tree,
        node,
        siblings: Siblings {
            previous: covered(selected.and_then(|node| node.prev_sibling())),
            next: covered(selected.and_then(|node| node.next_sibling())),
            previous_named: covered(selected.and_then(|node| node.prev_named_sibling())),
            next_named: covered(selected.and_then(|node| node.next_named_sibling())),
        },
        is_injected: false,
    }
}

fn covered(node: Option<tree_sitter::Node>) -> Option<ByteRange> {
    node.map(|node| ByteRange {
        start: node.start_byte(),
        end: node.end_byte(),
    })
}

fn collect<'tree>(node: tree_sitter::Node<'tree>, nodes: &mut Vec<tree_sitter::Node<'tree>>) {
    nodes.push(node);
    let mut cursor = node.walk();
    for child in node.children(&mut cursor) {
        collect(child, nodes);
    }
}

fn texts<'a>(source: &'a str, ranges: &[ByteRange]) -> Vec<(core::ops::Range<usize>, &'a str)> {
    ranges
        .iter()
        .map(|range| (range.start..range.end, &source[range.start..range.end]))
        .collect()
}

#[test]
fn case_1() {
    let source = "fn main() { let x = X {z,b,c:d} }";
    let layer = layer(source, 23, 24);
    let mode = SyntaxNode { coarse: true };
    assert_eq!(
        texts(source, &mode.all_selections(Some(&layer)).unwrap()),
        vec![
            (22..23, "{"),
            (23..24, "z"),
            (24..25, ","),
            (25..26, "b"),
            (26..27, ","),
            (27..30, "c:d"),
            (30..31, "}"),
        ]
    );
    assert_eq!(
        texts(source, &mode.all_meaningful_selections(Some(&layer)).unwrap()),
        vec![(23..24, "z"), (25..26, "b"), (27..30, "c:d")]
    );
    assert_eq!(mode.iter_revealed(Some(&layer)).unwrap().len(), 3);
    assert_eq!(
        SyntaxNode { coarse: false }
            .iter_revealed(Some(&layer))
            .unwrap()
            .len(),
        7
    );
}

#[test]
fn case_2() {
    let source = "fn main() { let x = S(a); }";
    let layer = layer(source, 20, 21);
    assert_eq!(
        texts(
            source,
            &SyntaxNode { coarse: true }
                .all_selections(Some(&layer))
                .unwrap()
        ),
        vec![(20..21, "S"), (21..24, "(a)")]
    );
}

#[test]
fn parent() {
    let expected_parent: &str = "z.b";
    let source = "fn main() { let x = z.b(); }";
    assert_eq!(&source[20..21], "z");
    let layer = layer(source, 20, 21);
    let range = SyntaxNode { coarse: false }
        .expand(Some(&layer), None, 21)
        .unwrap();
    assert_eq!(&source[range.start..range.end], expected_parent);
}

#[test]
fn first_child() {
    fn test(coarse: bool, expected_child: &str) {
        let source = "fn main() { let x = {z}; }";
        assert_eq!(&source[20..23], "{z}");
        let layer = layer(source, 20, 23);
        let range = SyntaxNode { coarse }.down(Some(&layer), None, 23).unwrap();
        assert_eq!(&source[range.start..range.end], expected_child);
    }
    test(true, "z");
    test(false, "{");
}

#[test]
fn siblings_lead_back_and_forth() {
    let source = "fn f(x: X, y: Y, z: Z) {}";
    let mode = SyntaxNode { coarse: true };
    let first = layer(source, 5, 9);
    let right = mode.right(Some(&first)).unwrap().unwrap();
    assert_eq!(&source[right.start..right.end], "y: Y");
    let second = layer(source, right.start, right.end);
    let left = mode.left(Some(&second)).unwrap().unwrap();
    assert_eq!(&source[left.start..left.end], "x: X");
    assert_eq!(mode.left(Some(&first)).unwrap(), None);
    let next = mode.next(Some(&first)).unwrap().unwrap();
    assert_eq!(&source[next.start..next.end], ",");
    let previous = mode.previous(Some(&first)).unwrap().unwrap();
    assert_eq!(&source[previous.start..previous.end], "(");
}

#[test]
fn up_undoes_down() {
    let source = "fn main() { let x = z.b(); }";
    let mode = SyntaxNode { coarse: true };
    let call = layer(source, 20, 25);
    let down = mode.down(Some(&call), None, 25).unwrap();
    assert_eq!(&source[down.start..down.end], "z.b");
    let inner = layer(source, down.start, down.end);
    let up = mode.up(Some(&inner), None, down.end).unwrap();
    assert_eq!(&source[up.start..up.end], "z.b()");
}

#[test]
fn top_of_an_inner_language_leads_to_the_host() {
    let source = "fn main() {}";
    let mut inner = layer(source, 0, 12);
    let host = layer("fn main() { let x = z.b(); }", 20, 21);
    let mode = SyntaxNode { coarse: true };
    assert_eq!(mode.up(Some(&inner), Some(&host), 12), None);
    inner.is_injected = true;
    assert_eq!(
        mode.up(Some(&inner), Some(&host), 12),
        Some(ByteRange { start: 20, end: 23 })
    );
    assert_eq!(mode.up(Some(&inner), None, 12), None);
    assert_eq!(mode.select_vertical(None, Some(&host), 12, true), None);
}

#[test]
fn without_a_node_there_is_nothing_to_select() {
    let mode = SyntaxNode { coarse: true };
    let nowhere = layer("fn main() {}", 1, 2);
    assert!(nowhere.node.is_none());
    assert_eq!(mode.next(Some(&nowhere)), Err(SyntaxError::NoNode));
    assert_eq!(
        mode.navigate_sibling_nodes(None, Direction::End, true),
        Err(SyntaxError::NoNode)
    );
    assert!(mode.all_selections(Some(&nowhere)).is_err());
    assert_eq!(mode.down(Some(&nowhere), None, 2), None);
    let root = layer("fn main() {}", 0, 12);
    assert_eq!(root.node, Some(0));
    assert!(mode.iter_revealed(Some(&root)).unwrap().is_empty());
    assert_eq!(mode.right(Some(&root)).unwrap(), None);
    assert_eq!(get_node(&root.tree, 0, true, true), None);
    assert_eq!(get_node(&root.tree, 0, false, true), Some(1));
}

#[test]
fn nodes_that_end_too_early_are_passed_over() {
    let mut tree = SyntaxTree::new();
    let range = |start, end| ByteRange { start, end };
    let top = tree.push(None, range(0, 20), true);
    let middle = tree.push(Some(top), range(0, 5), true);
    let low = tree.push(Some(middle), range(0, 5), true);
    let leaf = tree.push(Some(low), range(0, 2), false);
    let layer = Layer {
        tree,
        node: Some(leaf),
        siblings: Siblings {
            previous: None,
            next: None,
            previous_named: None,
            next_named: None,
        },
        is_injected: false,
    };
    let mode = SyntaxNode { coarse: false };
    assert_eq!(mode.up(Some(&layer), None, 2), Some(range(0, 5)));
    assert_eq!(mode.up(Some(&layer), None, 8), Some(range(0, 20)));
    assert_eq!(mode.up(Some(&layer), None, 30), None);
}
