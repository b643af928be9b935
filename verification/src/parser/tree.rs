//! The document tree that the tokenizer walks: typed nodes, each with its
//! children in order.

use crate::text::push_char;
use crate::types::views;
use vstd::prelude::*;
use vstd::string::StringExecFns;

verus! {

/// What a node of the document tree is.
#[derive(Debug)]
pub enum NodeKind {
    /// The root of a document, or a node that the tokenizer passes through.
    Other,
    /// A fenced code block.
    CodeFence,
    /// An inline image.
    Image,
    /// A heading, with its level.
    Heading(u8),
    Paragraph,
    Blockquote,
    BulletList,
    OrderedList,
    ListItem,
    Table,
    TableRow,
    TableCell,
    /// Strong emphasis.
    Strong,
    /// Emphasis.
    Emphasis,
    /// A span of inline code.
    CodeInline,
    /// A link, with its address.
    Link(String),
    /// A run of text.
    Text(String),
    /// A line break inside a paragraph that is shown as a space.
    Softbreak,
}

/// The mathematical value of a [`NodeKind`].
pub enum KindView {
    Other,
    CodeFence,
    Image,
    Heading(u8),
    Paragraph,
    Blockquote,
    BulletList,
    OrderedList,
    ListItem,
    Table,
    TableRow,
    TableCell,
    Strong,
    Emphasis,
    CodeInline,
    Link(Seq<char>),
    Text(Seq<char>),
    Softbreak,
}

impl View for NodeKind {
    type V = KindView;

    open spec fn view(&self) -> KindView {
        match self {
            NodeKind::Other => KindView::Other,
            NodeKind::CodeFence => KindView::CodeFence,
            NodeKind::Image => KindView::Image,
            NodeKind::Heading(level) => KindView::Heading(*level),
            NodeKind::Paragraph => KindView::Paragraph,
            NodeKind::Blockquote => KindView::Blockquote,
            NodeKind::BulletList => KindView::BulletList,
            NodeKind::OrderedList => KindView::OrderedList,
            NodeKind::ListItem => KindView::ListItem,
            NodeKind::Table => KindView::Table,
            NodeKind::TableRow => KindView::TableRow,
            NodeKind::TableCell => KindView::TableCell,
            NodeKind::Strong => KindView::Strong,
            NodeKind::Emphasis => KindView::Emphasis,
            NodeKind::CodeInline => KindView::CodeInline,
            NodeKind::Link(address) => KindView::Link(address@),
            NodeKind::Text(content) => KindView::Text(content@),
            NodeKind::Softbreak => KindView::Softbreak,
        }
    }
}

/// A node of the document tree.
#[derive(Debug)]
pub struct DocNode {
    pub kind: NodeKind,
    pub children: Vec<DocNode>,
}

/// The mathematical value of a [`DocNode`]: a tree of kinds.
pub struct DocTree {
    pub kind: KindView,
    pub children: Seq<DocTree>,
}

/// The tree of a node.
pub open spec fn tree_of_node(node: DocNode) -> DocTree
    decreases node,
{
    DocTree { kind: node.kind@, children: trees_of_nodes(node.children@) }
}

/// The trees of nodes, in order.
pub open spec fn trees_of_nodes(nodes: Seq<DocNode>) -> Seq<DocTree>
    decreases nodes,
{
    if nodes.len() == 0 {
        Seq::empty()
    } else {
        trees_of_nodes(nodes.drop_last()).push(tree_of_node(nodes.last()))
    }
}

impl View for DocNode {
    type V = DocTree;

    open spec fn view(&self) -> DocTree {
        tree_of_node(*self)
    }
}

/// The trees of nodes are their views, one for one.
pub proof fn lemma_trees_are_views(nodes: Seq<DocNode>)
    ensures
        trees_of_nodes(nodes) == views(nodes),
    decreases nodes.len(),
{
    if nodes.len() > 0 {
        lemma_trees_are_views(nodes.drop_last());
        assert(nodes.drop_last().push(nodes.last()) =~= nodes);
        assert(views(nodes.drop_last()).push(nodes.last()@) =~= views(nodes));
    } else {
        assert(views(nodes) =~= Seq::<DocTree>::empty());
    }
}

/// The children of the tree of a node are the views of its children.
pub proof fn lemma_children_views(node: DocNode)
    ensures
        node@.children == views(node.children@),
        node@.kind == node.kind@,
{
    lemma_trees_are_views(node.children@);
}

/// The number of nodes of a tree, its root included.
pub open spec fn node_count(tree: DocTree) -> nat
    decreases tree,
{
    1 + count_all(tree.children)
}

/// The number of nodes of the trees.
pub open spec fn count_all(trees: Seq<DocTree>) -> nat
    decreases trees,
{
    if trees.len() == 0 {
        0
    } else {
        node_count(trees[0]) + count_all(trees.drop_first())
    }
}

/// Whether every heading of a tree has a level from one to six.
pub open spec fn levels_valid(tree: DocTree) -> bool
    decreases tree,
{
    &&& tree.kind matches KindView::Heading(level) ==> 1 <= level <= 6
    &&& all_levels_valid(tree.children)
}

/// Whether every heading of the trees has a level from one to six.
pub open spec fn all_levels_valid(trees: Seq<DocTree>) -> bool
    decreases trees,
{
    trees.len() == 0 || (levels_valid(trees[0]) && all_levels_valid(trees.drop_first()))
}

/// The text that a node itself holds.
pub open spec fn own_text(kind: KindView) -> Seq<char> {
    match kind {
        KindView::Text(content) => content,
        KindView::Softbreak => seq!['\n'],
        _ => Seq::empty(),
    }
}

/// The text of all the text nodes of a tree, in document order, with a
/// line feed for each soft break.
pub open spec fn collected_text(tree: DocTree) -> Seq<char>
    decreases tree,
{
    own_text(tree.kind) + collected_text_all(tree.children)
}

/// The text of all the text nodes of the trees, in document order.
pub open spec fn collected_text_all(trees: Seq<DocTree>) -> Seq<char>
    decreases trees,
{
    if trees.len() == 0 {
        Seq::empty()
    } else {
        collected_text(trees[0]) + collected_text_all(trees.drop_first())
    }
}

impl DocTree {
    /// A tree that can be tokenized: every heading has a level from one to
    /// six, and the number of nodes fits a `usize`.
    pub open spec fn wf(self) -> bool {
        levels_valid(self) && node_count(self) <= usize::MAX
    }
}

/// What one more tree adds to the count and to the validity of trees.
pub proof fn lemma_push_tree(trees: Seq<DocTree>, tree: DocTree)
    ensures
        count_all(trees.push(tree)) == count_all(trees) + node_count(tree),
        all_levels_valid(trees.push(tree)) == (all_levels_valid(trees) && levels_valid(tree)),
    decreases trees.len(),
{
    if trees.len() == 0 {
        assert(trees.push(tree).drop_first() =~= trees);
    } else {
        assert(trees.push(tree).drop_first() =~= trees.drop_first().push(tree));
        lemma_push_tree(trees.drop_first(), tree);
    }
}

/// The first `k` trees count no more than all of them, and are valid
/// where all of them are.
pub proof fn lemma_take_trees(trees: Seq<DocTree>, k: int)
    requires
        0 <= k <= trees.len(),
    ensures
        count_all(trees.take(k)) <= count_all(trees),
        all_levels_valid(trees) ==> all_levels_valid(trees.take(k)),
    decreases trees.len() - k,
{
    if k < trees.len() {
        lemma_take_trees(trees, k + 1);
        assert(trees.take(k + 1) =~= trees.take(k).push(trees[k]));
        lemma_push_tree(trees.take(k), trees[k]);
    } else {
        assert(trees.take(k) =~= trees);
    }
}

fn measure(node: &DocNode) -> (r: Option<usize>)
    ensures
        r matches Some(n) ==> levels_valid(node@) && n == node_count(node@),
        r is None ==> !(levels_valid(node@) && node_count(node@) <= usize::MAX),
    decreases *node,
{
    proof {
        lemma_children_views(*node);
    }
    match &node.kind {
        NodeKind::Heading(level) => {
            if *level < 1 || *level > 6 {
                return None;
            }
        },
        _ => {},
    }
    let ghost trees = views(node.children@);
    let mut total: usize = 1;
    let mut i: usize = 0;
    assert(trees.skip(0) =~= trees);
    while i < node.children.len()
        invariant
            i <= node.children.len(),
            trees == views(node.children@),
            trees == node@.children,
            total + count_all(trees.skip(i as int)) == node_count(node@),
            all_levels_valid(trees.skip(i as int)) == all_levels_valid(trees),
        decreases node.children.len() - i,
    {
        assert(trees.skip(i as int).drop_first() =~= trees.skip(i + 1));
        assert(trees.skip(i as int)[0] == node.children@[i as int]@);
        match measure(&node.children[i]) {
            None => {
                return None;
            },
            Some(n) => {
                if n > usize::MAX - total {
                    return None;
                }
                total = total + n;
            },
        }
        i = i + 1;
    }
    Some(total)
}

fn collect_into(node: &DocNode, out: &mut String)
    ensures
        final(out)@ == old(out)@ + collected_text(node@),
    decreases *node,
{
    proof {
        lemma_children_views(*node);
    }
    match &node.kind {
        NodeKind::Text(content) => {
            out.append(content.as_str());
        },
        NodeKind::Softbreak => {
            push_char(out, '\n');
            assert(out@ =~= old(out)@ + seq!['\n']);
        },
        _ => {
            assert(out@ =~= old(out)@ + Seq::<char>::empty());
        },
    }
    let ghost trees = views(node.children@);
    let mut i: usize = 0;
    assert(trees.skip(0) =~= trees);
    while i < node.children.len()
        invariant
            i <= node.children.len(),
            trees == views(node.children@),
            trees == node@.children,
            out@ + collected_text_all(trees.skip(i as int)) == old(out)@ + collected_text(node@),
        decreases node.children.len() - i,
    {
        assert(trees.skip(i as int).drop_first() =~= trees.skip(i + 1));
        assert(trees.skip(i as int)[0] == node.children@[i as int]@);
        let ghost before = out@;
        collect_into(&node.children[i], out);
        assert(out@ + collected_text_all(trees.skip(i + 1)) =~= before + collected_text_all(
            trees.skip(i as int),
        ));
        i = i + 1;
    }
    assert(out@ + collected_text_all(trees.skip(i as int)) =~= out@);
}

impl DocNode {
    /// A node of the given kind with the given children.
    pub fn new(kind: NodeKind, children: Vec<DocNode>) -> (node: DocNode)
        ensures
            node.kind == kind,
            node.children == children,
    {
        DocNode { kind, children }
    }

    /// A text node with the given content.
    pub fn text(content: &str) -> (node: DocNode)
        ensures
            node.kind matches NodeKind::Text(s) && s@ == content@,
            node.children@.len() == 0,
    {
        DocNode { kind: NodeKind::Text(String::from_str(content)), children: Vec::new() }
    }

    /// Whether this tree can be tokenized.
    pub fn check(&self) -> (ok: bool)
        ensures
            ok == self@.wf(),
    {
        measure(self).is_some()
    }

    /// Walk through the nodes of this tree and collect the content of all
    /// the text nodes into one string.
    pub fn collect_text(&self) -> (text: String)
        ensures
            text@ == collected_text(self@),
    {
        let mut text = String::new();
        collect_into(self, &mut text);
        assert(text@ =~= collected_text(self@));
        text
    }
}

} // verus!
