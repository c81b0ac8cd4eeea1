//! The document tree that queries run against.
use vstd::prelude::*;

verus! {

/// The kind of a document node, with what selectors test besides its text.
#[derive(Clone, Copy, Debug, PartialEq, Eq, Structural, Hash)]
pub enum NodeKind {
    /// A section; its text is its title.
    Section,
    /// A list; its items are its children.
    List,
    /// An item of a list; `task` is `Some(checked)` for a task item.
    ListItem { ordered: bool, task: Option<bool> },
    /// A link or an image; its text is what it displays.
    Link { image: bool },
    BlockQuote,
    /// A fenced code block; its text is its language tag.
    CodeBlock,
    /// A front matter block; its text is its format (`toml` or `yaml`).
    FrontMatter,
    Html,
    Paragraph,
    Table,
    /// Anything else (text runs, breaks, table rows and cells).
    Other,
}

/// A node of a document. A document holds its nodes in pre-order, and a node
/// at index `i` covers the indices `i..end`: itself and its descendants.
#[derive(Clone, Debug, PartialEq, Eq, Hash)]
pub struct MdElem {
    pub kind: NodeKind,
    /// The text that a selector's text matcher is tested against.
    pub text: String,
    /// For a link, its destination; empty otherwise.
    pub url: String,
    /// The labels of the footnotes and link references that this node uses.
    pub refs: Vec<String>,
    /// One past the index of the node's last descendant.
    pub end: usize,
}

/// A footnote or link-reference definition.
#[derive(Clone, Debug, PartialEq, Eq, Hash)]
pub struct Definition {
    pub label: String,
    pub text: String,
}

/// A parsed document: its nodes in pre-order, and its reference definitions.
#[derive(Clone, Debug, PartialEq, Eq, Hash)]
pub struct MdDoc {
    pub nodes: Vec<MdElem>,
    pub definitions: Vec<Definition>,
}

/// Whether `nodes` is a forest in pre-order: every node covers itself and a
/// run of nodes that it wholly contains.
pub open spec fn is_forest(nodes: Seq<MdElem>) -> bool {
    &&& forall|i: int| 0 <= i < nodes.len() ==> i < #[trigger] nodes[i].end <= nodes.len()
    &&& forall|i: int, j: int|
        0 <= i < j < nodes[i].end && j < nodes.len() ==> #[trigger] nodes[j].end <= #[trigger] nodes[i].end
}

impl MdElem {
    /// A node without references, covering the indices up to `end`.
    pub fn new(kind: NodeKind, text: String, end: usize) -> (r: MdElem)
        ensures
            r.kind == kind,
            r.text == text,
            r.url@.len() == 0,
            r.refs@.len() == 0,
            r.end == end,
    {
        MdElem { kind, text, url: String::new(), refs: Vec::new(), end }
    }
}

impl MdDoc {
    /// A document of the given nodes and definitions, or `None` where the
    /// nodes are not a forest in pre-order.
    pub fn from_nodes(nodes: Vec<MdElem>, definitions: Vec<Definition>) -> (r: Option<MdDoc>)
        ensures
            r is Some <==> is_forest(nodes@),
            r is Some ==> r->0.nodes == nodes && r->0.definitions == definitions,
    {
        if forest_check(&nodes) {
            Some(MdDoc { nodes, definitions })
        } else {
            None
        }
    }

    /// The number of nodes.
    pub fn len(&self) -> (r: usize)
        ensures
            r == self.nodes@.len(),
    {
        self.nodes.len()
    }

    /// The indices of the top-level nodes, in order.
    pub fn roots(&self) -> (r: Vec<usize>)
        ensures
            r@ == roots_from(self.nodes@, 0),
    {
        let n = self.nodes.len();
        let mut out: Vec<usize> = Vec::new();
        let mut i: usize = 0;
        while i < n
            invariant
                n == self.nodes@.len(),
                i <= n,
                out@ + roots_from(self.nodes@, i as int) == roots_from(self.nodes@, 0),
            decreases n - i,
        {
            let e = self.nodes[i].end;
            if e <= i || e > n {
                assert(roots_from(self.nodes@, i as int) == Seq::<usize>::empty());
                assert(out@ =~= out@ + roots_from(self.nodes@, i as int));
                return out;
            }
            out.push(i);
            let ghost before = out@.drop_last();
            i = self.nodes[i].end;
            assert(out@ + roots_from(self.nodes@, i as int) =~= before + roots_from(
                self.nodes@,
                out@.last() as int,
            ));
        }
        assert(roots_from(self.nodes@, n as int) == Seq::<usize>::empty());
        assert(out@ =~= out@ + roots_from(self.nodes@, n as int));
        out
    }
}

/// Whether `nodes` is a forest in pre-order.
pub fn forest_check(nodes: &Vec<MdElem>) -> (r: bool)
    ensures
        r == is_forest(nodes@),
{
    let n = nodes.len();
    let mut i: usize = 0;
    while i < n
        invariant
            n == nodes@.len(),
            i <= n,
            forall|a: int| 0 <= a < i ==> a < #[trigger] nodes@[a].end <= n,
            forall|a: int, b: int|
                0 <= a < i && a < b < nodes@[a].end && b < n ==> #[trigger] nodes@[b].end
                    <= #[trigger] nodes@[a].end,
        decreases n - i,
    {
        let e = nodes[i].end;
        if e <= i || e > n {
            return false;
        }
        let mut j: usize = i + 1;
        while j < e
            invariant
                n == nodes@.len(),
                i < n,
                e == nodes@[i as int].end,
                i < j <= e <= n,
                forall|b: int| i < b < j ==> #[trigger] nodes@[b].end <= e,
            decreases e - j,
        {
            if nodes[j].end > e {
                return false;
            }
            j = j + 1;
        }
        i = i + 1;
    }
    true
}

/// The top-level nodes from index `i` on: `i`, then the node after its subtree, and so on.
pub open spec fn roots_from(nodes: Seq<MdElem>, i: int) -> Seq<usize>
    decreases nodes.len() - i,
{
    if i < 0 || i >= nodes.len() || nodes[i].end <= i || nodes[i].end > nodes.len() {
        Seq::empty()
    } else {
        seq![i as usize] + roots_from(nodes, nodes[i].end as int)
    }
}

} // verus!
