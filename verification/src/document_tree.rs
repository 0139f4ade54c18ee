//! The lines of a document tree as the command-line client shows it: each
//! document under its parent, indented by its depth.

use vstd::prelude::*;

verus! {

/// A document in the tree, with the documents under it.
#[derive(Debug)]
pub struct DocumentTreeNode {
    pub id: String,
    pub name: String,
    pub emoji: Option<String>,
    pub children: Vec<DocumentTreeNode>,
}

/// One shown line: the document's depth, its emoji (a page when it has
/// none), its name and its id.
#[derive(Debug, PartialEq, Eq)]
pub struct TreeLine {
    pub depth: usize,
    pub emoji: String,
    pub name: String,
    pub id: String,
}

/// A shown line by its contents.
pub struct LineView {
    pub depth: nat,
    pub emoji: Seq<char>,
    pub name: Seq<char>,
    pub id: Seq<char>,
}

/// The emoji shown for a document without one.
pub open spec fn default_emoji() -> Seq<char> {
    seq!['\u{1F4C4}']
}

/// The line of a document at depth `depth`.
pub open spec fn line_of(node: DocumentTreeNode, depth: nat) -> LineView {
    LineView {
        depth,
        emoji: match node.emoji {
            Some(e) => e@,
            None => default_emoji(),
        },
        name: node.name@,
        id: node.id@,
    }
}

/// The lines of documents at depth `depth`, each followed by the lines of
/// the documents under it, one level deeper.
pub open spec fn lines_of(nodes: Seq<DocumentTreeNode>, depth: nat) -> Seq<LineView>
    decreases nodes, 0nat,
{
    if nodes.len() == 0 {
        Seq::empty()
    } else {
        node_lines(nodes[0], depth) + lines_of(nodes.drop_first(), depth)
    }
}

/// The line of one document followed by the lines of the documents under it.
pub open spec fn node_lines(node: DocumentTreeNode, depth: nat) -> Seq<LineView>
    decreases node, 1nat,
{
    seq![line_of(node, depth)] + lines_of(node.children@, depth + 1)
}

/// How deep the tree goes below `nodes`: zero for no documents.
pub open spec fn height(nodes: Seq<DocumentTreeNode>) -> nat
    decreases nodes, 0nat,
{
    if nodes.len() == 0 {
        0
    } else {
        let first = node_height(nodes[0]);
        let rest = height(nodes.drop_first());
        if first > rest { first } else { rest }
    }
}

/// How deep the tree goes from one document: one more than its children.
pub open spec fn node_height(node: DocumentTreeNode) -> nat
    decreases node, 1nat,
{
    1 + height(node.children@)
}

/// The line views of shown lines.
pub open spec fn views(lines: Seq<TreeLine>) -> Seq<LineView> {
    lines.map_values(|l: TreeLine| LineView { depth: l.depth as nat, emoji: l.emoji@, name: l.name@, id: l.id@ })
}

/// The shown line of one document.
fn make_line(node: &DocumentTreeNode, depth: usize) -> (r: TreeLine)
    ensures
        r.depth == depth,
        r.emoji@ == line_of(*node, depth as nat).emoji,
        r.name@ == node.name@,
        r.id@ == node.id@,
{
    let emoji = match &node.emoji {
        Some(e) => e.clone(),
        None => String::from_str("\u{1F4C4}"),
    };
    proof {
        reveal_strlit("\u{1F4C4}");
    }
    TreeLine { depth, emoji, name: node.name.clone(), id: node.id.clone() }
}

/// Appends the lines of `nodes`, starting at depth `depth`, to `out`.
fn append_lines(nodes: &Vec<DocumentTreeNode>, depth: usize, out: &mut Vec<TreeLine>)
    requires
        depth + height(nodes@) <= usize::MAX,
    ensures
        views(final(out)@) == views(old(out)@) + lines_of(nodes@, depth as nat),
    decreases nodes@, 0nat,
{
    let mut i: usize = 0;
    while i < nodes.len()
        invariant
            i <= nodes.len(),
            depth + height(nodes@) <= usize::MAX,
            views(out@) == views(old(out)@) + lines_of(nodes@.take(i as int), depth as nat),
        decreases nodes.len() - i,
    {
        proof {
            lemma_height_of_member(nodes@, i as int);
            lemma_lines_push(nodes@.take(i as int), nodes@[i as int], depth as nat);
            assert(nodes@.take(i + 1) =~= nodes@.take(i as int).push(nodes@[i as int]));
        }
        let node = &nodes[i];
        let ghost before = out@;
        out.push(make_line(node, depth));
        assert(views(out@) =~= views(before).push(line_of(*node, depth as nat)));
        append_lines(&node.children, depth + 1, out);
        i += 1;
    }
    assert(nodes@.take(nodes.len() as int) =~= nodes@);
}

/// The lines of a document tree, top-level documents at depth zero.
pub fn tree_lines(nodes: &Vec<DocumentTreeNode>) -> (r: Vec<TreeLine>)
    requires
        height(nodes@) <= usize::MAX,
    ensures
        views(r@) == lines_of(nodes@, 0),
{
    let mut out: Vec<TreeLine> = Vec::new();
    append_lines(nodes, 0, &mut out);
    assert(views(out@) =~= Seq::<LineView>::empty() + lines_of(nodes@, 0));
    out
}

/// The lines of documents with one more document after them.
proof fn lemma_lines_push(nodes: Seq<DocumentTreeNode>, node: DocumentTreeNode, depth: nat)
    ensures
        lines_of(nodes.push(node), depth) == lines_of(nodes, depth) + node_lines(node, depth),
    decreases nodes.len(),
{
    if nodes.len() == 0 {
        let one = nodes.push(node);
        assert(one.drop_first() =~= Seq::<DocumentTreeNode>::empty());
        assert(one[0] == node);
        assert(lines_of(one.drop_first(), depth) == Seq::<LineView>::empty());
        assert(lines_of(one, depth) == node_lines(node, depth) + Seq::<LineView>::empty());
        assert(lines_of(one, depth) =~= node_lines(node, depth));
        assert(lines_of(nodes, depth) == Seq::<LineView>::empty());
        assert(lines_of(one, depth) =~= lines_of(nodes, depth) + node_lines(node, depth));
    } else {
        assert(nodes.push(node).drop_first() =~= nodes.drop_first().push(node));
        lemma_lines_push(nodes.drop_first(), node, depth);
        assert(lines_of(nodes.push(node), depth) =~= lines_of(nodes, depth) + node_lines(node, depth));
    }
}

/// A member's children reach one level less deep than the whole list.
proof fn lemma_height_of_member(nodes: Seq<DocumentTreeNode>, i: int)
    requires
        0 <= i < nodes.len(),
    ensures
        height(nodes[i].children@) + 1 <= height(nodes),
    decreases nodes.len(),
{
    assert(height(nodes) >= node_height(nodes[0]));
    assert(height(nodes) >= height(nodes.drop_first()));
    if i > 0 {
        assert(nodes.drop_first()[i - 1] == nodes[i]);
        lemma_height_of_member(nodes.drop_first(), i - 1);
    } else {
        assert(node_height(nodes[0]) == 1 + height(nodes[0].children@));
    }
}

} // verus!
