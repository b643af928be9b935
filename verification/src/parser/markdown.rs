//! The markdown parser: the document is parsed by `markdown_it`, its tree
//! is brought into the library's own, and that tree is tokenized.

use crate::parser::tokenizer::{tokenize, tokenized};
use crate::parser::traits::{DocumentParser, ParseError, ParsedDocument};
use crate::parser::tree::{
    all_levels_valid, count_all, lemma_children_views, lemma_push_tree, lemma_take_trees,
    levels_valid, node_count, DocNode, DocTree, KindView, NodeKind,
};
use crate::types::{lemma_views_push, views};
use markdown_it::parser::inline::Text;
use markdown_it::plugins::cmark::block::blockquote::Blockquote;
use markdown_it::plugins::cmark::block::fence::CodeFence;
use markdown_it::plugins::cmark::block::heading::ATXHeading;
use markdown_it::plugins::cmark::block::list::{BulletList, ListItem, OrderedList};
use markdown_it::plugins::cmark::block::paragraph::Paragraph;
use markdown_it::plugins::cmark::inline::backticks::CodeInline;
use markdown_it::plugins::cmark::inline::emphasis::{Em, Strong};
use markdown_it::plugins::cmark::inline::image::Image;
use markdown_it::plugins::cmark::inline::link::Link;
use markdown_it::plugins::cmark::inline::newline::Softbreak;
use markdown_it::plugins::extra::tables::{Table, TableCell, TableRow};
use markdown_it::{MarkdownIt, Node};
use vstd::prelude::*;
use vstd::string::StringExecFns;

pub use crate::parser::segment::{detect_callout_type, split_hyphenated_word, split_into_words};

verus! {

#[verifier::external_type_specification]
#[verifier::external_body]
pub struct ExMarkdownIt(markdown_it::MarkdownIt);

#[verifier::external_type_specification]
#[verifier::external_body]
pub struct ExNode(markdown_it::Node);

/// A set of rules that can be added to the markdown engine.
#[derive(Debug, Clone, Copy, PartialEq, Eq, Structural)]
pub enum Plugin {
    /// The rules of CommonMark.
    CommonMark,
    /// The rule for tables.
    Tables,
}

/// The plugins that an engine holds, in the order in which they were
/// added.
pub uninterp spec fn engine_plugins(md: MarkdownIt) -> Seq<Plugin>;

/// What a node of the engine's tree holds, in the library's terms: its
/// kind, with the level of a heading, the content of a text node and the
/// address of a link, and the trees of its children, in order.
pub uninterp spec fn tree_of(node: Node) -> DocTree;

/// The tree that the engine with CommonMark and tables gives for a
/// source.
pub uninterp spec fn markdown_tree(content: Seq<char>) -> DocTree;

/// The plugins of the engine that this library parses with.
pub open spec fn library_plugins() -> Seq<Plugin> {
    seq![Plugin::CommonMark, Plugin::Tables]
}

/// Whether a kind is one of the blocks without a payload.
pub open spec fn is_plain_block(kind: KindView) -> bool {
    kind is CodeFence || kind is Paragraph || kind is Blockquote || kind is BulletList
        || kind is OrderedList || kind is ListItem || kind is Table || kind is TableRow
        || kind is TableCell
}

/// Whether a kind is one of the inline nodes without a payload.
pub open spec fn is_plain_inline(kind: KindView) -> bool {
    kind is Image || kind is Strong || kind is Emphasis || kind is CodeInline || kind is Softbreak
}

/// `MarkdownIt::new`: an engine with the built-in rules only, no plugin.
#[verifier::external_body]
fn new_engine() -> (md: MarkdownIt)
    ensures
        engine_plugins(md) == Seq::<Plugin>::empty(),
{
    MarkdownIt::new()
}

/// `markdown_it::plugins::cmark::add`: adds the CommonMark rules to the
/// engine, after what it holds.
#[verifier::external_body]
fn add_commonmark(md: &mut MarkdownIt)
    ensures
        engine_plugins(*final(md)) == engine_plugins(*old(md)).push(Plugin::CommonMark),
{
    markdown_it::plugins::cmark::add(md)
}

/// `markdown_it::plugins::extra::tables::add`: adds the rule for tables
/// to the engine, after what it holds.
#[verifier::external_body]
fn add_tables(md: &mut MarkdownIt)
    ensures
        engine_plugins(*final(md)) == engine_plugins(*old(md)).push(Plugin::Tables),
{
    markdown_it::plugins::extra::tables::add(md)
}

/// `MarkdownIt::parse` with the engine that holds CommonMark and tables:
/// the tree of the source, which is a function of the source alone and
/// which this library names.
#[verifier::external_body]
fn parse_source(md: &MarkdownIt, source: &str) -> (root: Node)
    requires
        engine_plugins(*md) == library_plugins(),
    ensures
        tree_of(root) == markdown_tree(source@),
{
    md.parse(source)
}

/// The number of children of a node, from its field `children`.
#[verifier::external_body]
fn child_count(node: &Node) -> (n: usize)
    ensures
        n == tree_of(*node).children.len(),
{
    node.children.len()
}

/// The child of a node at index `i`, from its field `children`, if there
/// is one.
#[verifier::external_body]
fn child_at(node: &Node, i: usize) -> (child: Option<&Node>)
    ensures
        match child {
            Some(c) => i < tree_of(*node).children.len() && tree_of(*c) == tree_of(
                *node,
            ).children[i as int],
            None => i >= tree_of(*node).children.len(),
        },
{
    node.children.get(i)
}

/// `Node::is`, asked for each kind of block: the kind of a block node
/// without a payload, `None` for every other node.
#[verifier::external_body]
fn block_kind(node: &Node) -> (kind: Option<NodeKind>)
    ensures
        match kind {
            Some(k) => is_plain_block(k@) && k@ == tree_of(*node).kind,
            None => !is_plain_block(tree_of(*node).kind),
        },
{
    if node.is::<CodeFence>() { Some(NodeKind::CodeFence) }
    else if node.is::<Paragraph>() { Some(NodeKind::Paragraph) }
    else if node.is::<Blockquote>() { Some(NodeKind::Blockquote) }
    else if node.is::<BulletList>() { Some(NodeKind::BulletList) }
    else if node.is::<OrderedList>() { Some(NodeKind::OrderedList) }
    else if node.is::<ListItem>() { Some(NodeKind::ListItem) }
    else if node.is::<Table>() { Some(NodeKind::Table) }
    else if node.is::<TableRow>() { Some(NodeKind::TableRow) }
    else if node.is::<TableCell>() { Some(NodeKind::TableCell) }
    else { None }
}

/// `Node::is`, asked for each kind of inline node: the kind of an inline
/// node without a payload, `None` for every other node.
#[verifier::external_body]
fn inline_kind(node: &Node) -> (kind: Option<NodeKind>)
    ensures
        match kind {
            Some(k) => is_plain_inline(k@) && k@ == tree_of(*node).kind,
            None => !is_plain_inline(tree_of(*node).kind),
        },
{
    if node.is::<Image>() { Some(NodeKind::Image) }
    else if node.is::<Strong>() { Some(NodeKind::Strong) }
    else if node.is::<Em>() { Some(NodeKind::Emphasis) }
    else if node.is::<CodeInline>() { Some(NodeKind::CodeInline) }
    else if node.is::<Softbreak>() { Some(NodeKind::Softbreak) }
    else { None }
}

/// `Node::cast` to a heading: its level, `None` for every other node.
#[verifier::external_body]
fn heading_level(node: &Node) -> (level: Option<u8>)
    ensures
        match level {
            Some(l) => tree_of(*node).kind == KindView::Heading(l),
            None => !(tree_of(*node).kind is Heading),
        },
{
    node.cast::<ATXHeading>().map(|heading| heading.level)
}

/// `Node::cast` to a link: its address, `None` for every other node.
#[verifier::external_body]
fn link_url(node: &Node) -> (url: Option<String>)
    ensures
        match url {
            Some(address) => tree_of(*node).kind == KindView::Link(address@),
            None => !(tree_of(*node).kind is Link),
        },
{
    node.cast::<Link>().map(|link| link.url.clone())
}

/// `Node::cast` to a text node: its content, `None` for every other node.
#[verifier::external_body]
fn text_content(node: &Node) -> (text: Option<String>)
    ensures
        match text {
            Some(content) => tree_of(*node).kind == KindView::Text(content@),
            None => !(tree_of(*node).kind is Text),
        },
{
    node.cast::<Text>().map(|text| text.content.clone())
}

/// A kind that a query for kinds without a payload may give: a heading, a
/// link or a text node is known by its own query only, and counts as a
/// node that is passed through where another query names it.
pub open spec fn plain_kind(kind: NodeKind) -> NodeKind {
    match kind {
        NodeKind::Heading(_) | NodeKind::Link(_) | NodeKind::Text(_) => NodeKind::Other,
        _ => kind,
    }
}

/// The kind of a node, from what the parser's tree says of it: a heading
/// where it has a level, else a text node where it has content, else a
/// link where it has an address, else the block kind, else the inline
/// kind, else a node that is passed through.
pub open spec fn node_kind_of(
    heading: Option<u8>,
    text: Option<String>,
    url: Option<String>,
    block: Option<NodeKind>,
    inline: Option<NodeKind>,
) -> NodeKind {
    match heading {
        Some(level) => NodeKind::Heading(level),
        None => match text {
            Some(content) => NodeKind::Text(content),
            None => match url {
                Some(address) => NodeKind::Link(address),
                None => match block {
                    Some(kind) => plain_kind(kind),
                    None => match inline {
                        Some(kind) => plain_kind(kind),
                        None => NodeKind::Other,
                    },
                },
            },
        },
    }
}

/// Whether a heading is refused: it has a level that is not between one
/// and six.
pub open spec fn heading_refused(heading: Option<u8>) -> bool {
    heading matches Some(level) && !(1 <= level <= 6)
}

/// Whether `r` is what the answers of the parser's tree make of a node: its
/// kind, or for a refused heading the error that says so.
pub open spec fn is_classification(
    heading: Option<u8>,
    text: Option<String>,
    url: Option<String>,
    block: Option<NodeKind>,
    inline: Option<NodeKind>,
    r: Result<NodeKind, ParseError>,
) -> bool {
    match r {
        Ok(kind) => !heading_refused(heading) && kind == node_kind_of(
            heading,
            text,
            url,
            block,
            inline,
        ),
        Err(e) => {
            &&& heading_refused(heading)
            &&& e matches ParseError::ParseError(message)
            &&& message@ == "malformed document: a heading level is not between 1 and 6"@
        },
    }
}

/// The kind of a node in the library's terms, from what the parser's tree
/// says of it: the level of a heading, the content of a text node, the
/// address of a link, and its kind among the blocks and the inline nodes
/// without a payload. A heading whose level is not between one and six is
/// refused.
pub fn classify_node(
    heading: Option<u8>,
    text: Option<String>,
    url: Option<String>,
    block: Option<NodeKind>,
    inline: Option<NodeKind>,
) -> (r: Result<NodeKind, ParseError>)
    ensures
        is_classification(heading, text, url, block, inline, r),
{
    match heading {
        Some(level) => {
            if 1 <= level && level <= 6 {
                return Ok(NodeKind::Heading(level));
            } else {
                return Err(
                    ParseError::ParseError(
                        String::from_str("malformed document: a heading level is not between 1 and 6"),
                    ),
                );
            }
        },
        None => {},
    }
    match text {
        Some(content) => {
            return Ok(NodeKind::Text(content));
        },
        None => {},
    }
    match url {
        Some(address) => {
            return Ok(NodeKind::Link(address));
        },
        None => {},
    }
    let kind = match block {
        Some(kind) => kind,
        None => match inline {
            Some(kind) => kind,
            None => NodeKind::Other,
        },
    };
    match kind {
        NodeKind::Heading(_) | NodeKind::Link(_) | NodeKind::Text(_) => Ok(NodeKind::Other),
        _ => Ok(kind),
    }
}

/// The kind of a node of the engine's tree, in the library's terms: the
/// tree is asked for the level, the content, the address and the kind of
/// the node, and the answers are classified. A heading whose level is not
/// between one and six is refused.
fn kind_of(node: &Node) -> (r: Result<NodeKind, ParseError>)
    ensures
        match r {
            Ok(kind) => {
                &&& kind@ == tree_of(*node).kind
                &&& kind@ matches KindView::Heading(level) ==> 1 <= level <= 6
            },
            Err(e) => {
                &&& tree_of(*node).kind matches KindView::Heading(level)
                &&& !(1 <= level <= 6)
                &&& e matches ParseError::ParseError(message)
                &&& message@ == "malformed document: a heading level is not between 1 and 6"@
            },
        },
{
    let heading = heading_level(node);
    let text = text_content(node);
    let url = link_url(node);
    let block = block_kind(node);
    let inline = inline_kind(node);
    let r = classify_node(heading, text, url, block, inline);
    assert(is_classification(heading, text, url, block, inline, r));
    r
}

/// Bring a tree of the engine into the library's own, node by node. Each
/// node takes one from the budget; a tree with a refused heading, or with
/// more nodes than the budget allows, is refused.
fn import_node(node: &Node, budget: &mut usize) -> (r: Result<DocNode, ParseError>)
    ensures
        *final(budget) <= *old(budget),
        match r {
            Ok(tree) => {
                &&& tree@ == tree_of(*node)
                &&& levels_valid(tree@)
                &&& node_count(tree@) + *final(budget) == *old(budget)
            },
            Err(e) => {
                &&& e is ParseError
                &&& !(levels_valid(tree_of(*node)) && node_count(tree_of(*node)) <= *old(budget))
            },
        },
    decreases *old(budget),
{
    let ghost target = tree_of(*node);
    if *budget == 0 {
        return Err(
            ParseError::ParseError(String::from_str("malformed document: it has too many nodes")),
        );
    }
    *budget = *budget - 1;
    let kind = match kind_of(node) {
        Ok(kind) => kind,
        Err(e) => {
            return Err(e);
        },
    };
    let n = child_count(node);
    let mut children: Vec<DocNode> = Vec::new();
    let mut i: usize = 0;
    assert(views(children@) =~= target.children.take(0));
    while i < n
        invariant
            i <= n == target.children.len(),
            target == tree_of(*node),
            *budget < *old(budget),
            views(children@) == target.children.take(i as int),
            all_levels_valid(target.children.take(i as int)),
            count_all(target.children.take(i as int)) + *budget + 1 == *old(budget),
        decreases n - i,
    {
        proof {
            assert(target.children.take(i + 1) =~= target.children.take(i as int).push(
                target.children[i as int],
            ));
            lemma_push_tree(target.children.take(i as int), target.children[i as int]);
            lemma_take_trees(target.children, i + 1);
        }
        match child_at(node, i) {
            Some(child) => {
                match import_node(child, budget) {
                    Ok(tree) => {
                        proof {
                            lemma_views_push(children@, tree);
                        }
                        children.push(tree);
                    },
                    Err(e) => {
                        return Err(e);
                    },
                }
            },
            None => {},
        }
        i = i + 1;
    }
    let tree = DocNode { kind, children };
    proof {
        assert(target.children.take(n as int) =~= target.children);
        lemma_children_views(tree);
    }
    Ok(tree)
}

/// Markdown parser that extracts tokens for reading word by word.
pub struct MarkdownParser {
    md: MarkdownIt,
}

impl MarkdownParser {
    #[verifier::type_invariant]
    spec fn configured(&self) -> bool {
        engine_plugins(self.md) == library_plugins()
    }

    /// Create a new markdown parser with CommonMark and table support.
    #[must_use]
    pub fn new() -> Self {
        let mut md = new_engine();
        add_commonmark(&mut md);
        add_tables(&mut md);
        assert(engine_plugins(md) =~= library_plugins());
        MarkdownParser { md }
    }
}

impl Default for MarkdownParser {
    fn default() -> Self {
        MarkdownParser::new()
    }
}

impl DocumentParser for MarkdownParser {
    /// Parse markdown: the document is the tokenized form of the tree that
    /// the markdown engine gives for the content. A content whose tree is
    /// not well formed is refused.
    fn parse_str(&self, content: &str) -> (r: Result<ParsedDocument, ParseError>)
        ensures
            match r {
                Ok(doc) => {
                    &&& markdown_tree(content@).wf()
                    &&& views(doc.tokens@) == tokenized(markdown_tree(content@)).0
                    &&& views(doc.sections@) == tokenized(markdown_tree(content@)).1
                },
                Err(e) => !markdown_tree(content@).wf() && e is ParseError,
            },
    {
        proof {
            use_type_invariant(self);
        }
        let ast = parse_source(&self.md, content);
        let mut budget: usize = usize::MAX;
        match import_node(&ast, &mut budget) {
            Ok(tree) => tokenize(&tree),
            Err(e) => Err(e),
        }
    }
}

} // verus!
