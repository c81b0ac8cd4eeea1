//! The matching engine: applies a selector chain to a document.
use crate::md_elem::{forest_check, is_forest, roots_from, Definition, MdDoc, MdElem, NodeKind};
use crate::query::selector::{ListItemTask, Selector, SelectorSpec, TextMatcher};
use crate::text::{
    chars_of, contains, is_infix, lower_of, lowercase, matches_at, occurs_at, regex_accepts,
    regex_finds, regex_is_match, regex_is_valid,
};
use vstd::prelude::*;

verus! {

/// Whether a literal matcher accepts `t`: case-insensitive containment, or a
/// prefix, suffix or whole match when anchored.
pub open spec fn literal_accepts(text: Seq<char>, anchor_start: bool, anchor_end: bool, t: Seq<
    char,
>) -> bool {
    let h = lower_of(t);
    let n = lower_of(text);
    if anchor_start && anchor_end {
        h == n
    } else if anchor_start {
        occurs_at(n, h, 0)
    } else if anchor_end {
        occurs_at(n, h, h.len() - n.len())
    } else {
        is_infix(n, h)
    }
}

/// Whether an optional text matcher accepts `t`; no matcher accepts everything.
pub open spec fn text_accepts(m: Option<TextMatcher>, t: Seq<char>) -> bool {
    match m {
        None => true,
        Some(TextMatcher::Literal { text, anchor_start, anchor_end }) => literal_accepts(
            text@,
            anchor_start,
            anchor_end,
            t,
        ),
        Some(TextMatcher::Regex { pattern, .. }) => regex_accepts(pattern@) && regex_finds(
            pattern@,
            t,
        ),
    }
}

/// Whether a list item's checkbox satisfies a task qualifier.
pub open spec fn task_accepts(q: ListItemTask, task: Option<bool>) -> bool {
    match q {
        ListItemTask::Selected => task == Some(true),
        ListItemTask::Unselected => task == Some(false),
        ListItemTask::Either => task is Some,
        ListItemTask::Unqualified => true,
    }
}

/// Whether a node is selected by a selector specification.
pub open spec fn node_selected(n: MdElem, s: SelectorSpec) -> bool {
    match s {
        SelectorSpec::Section { title } => n.kind == NodeKind::Section && text_accepts(
            title,
            n.text@,
        ),
        SelectorSpec::ListItem { ordered, task, text } => match n.kind {
            NodeKind::ListItem { ordered: o, task: t } => o == ordered && task_accepts(task, t)
                && text_accepts(text, n.text@),
            _ => false,
        },
        SelectorSpec::Link { image, text, url } => n.kind == (NodeKind::Link { image })
            && text_accepts(text, n.text@) && text_accepts(url, n.url@),
        SelectorSpec::BlockQuote { text } => n.kind == NodeKind::BlockQuote && text_accepts(
            text,
            n.text@,
        ),
        SelectorSpec::CodeBlock { language } => n.kind == NodeKind::CodeBlock && text_accepts(
            language,
            n.text@,
        ),
        SelectorSpec::FrontMatter { variant } => n.kind == NodeKind::FrontMatter
            && text_accepts(variant, n.text@),
        SelectorSpec::Html { text } => n.kind == NodeKind::Html && text_accepts(text, n.text@),
        SelectorSpec::Paragraph { text } => n.kind == NodeKind::Paragraph && text_accepts(
            text,
            n.text@,
        ),
        SelectorSpec::Table { text } => n.kind == NodeKind::Table && text_accepts(text, n.text@),
    }
}

/// Where a scan that stops at `stop` goes on after selecting node `i`: past its subtree.
pub open spec fn next_after(nodes: Seq<MdElem>, i: int, stop: int) -> int {
    if nodes[i].end > stop {
        stop
    } else if nodes[i].end > i {
        nodes[i].end as int
    } else {
        i + 1
    }
}

/// The selected nodes among the indices `i..stop`, in document order; the
/// search does not go into a node that is selected.
pub open spec fn scan(nodes: Seq<MdElem>, s: SelectorSpec, i: int, stop: int) -> Seq<usize>
    decreases stop - i,
{
    if i < 0 || i >= stop || i >= nodes.len() {
        Seq::empty()
    } else if node_selected(nodes[i], s) {
        seq![i as usize] + scan(nodes, s, next_after(nodes, i, stop), stop)
    } else {
        scan(nodes, s, i + 1, stop)
    }
}

/// One step of a chain: the selected nodes within the subtree of each node of
/// the working set, in order.
pub open spec fn step(nodes: Seq<MdElem>, ws: Seq<usize>, s: SelectorSpec) -> Seq<usize>
    decreases ws.len(),
{
    if ws.len() == 0 {
        Seq::empty()
    } else {
        step(nodes, ws.drop_last(), s) + scan(
            nodes,
            s,
            ws.last() as int,
            nodes[ws.last() as int].end as int,
        )
    }
}

/// The working set after each step of `specs` in turn.
pub open spec fn run_chain(nodes: Seq<MdElem>, ws: Seq<usize>, specs: Seq<SelectorSpec>) -> Seq<
    usize,
>
    decreases specs.len(),
{
    if specs.len() == 0 {
        ws
    } else {
        run_chain(nodes, step(nodes, ws, specs[0]), specs.drop_first())
    }
}

/// What a selector selects from a document.
pub open spec fn selected(doc: MdDoc, sel: Selector) -> Seq<usize> {
    run_chain(doc.nodes@, roots_from(doc.nodes@, 0), sel.specs@)
}

/// The reference labels that the nodes `i..stop` use, in order.
pub open spec fn labels_in(nodes: Seq<MdElem>, i: int, stop: int) -> Seq<Seq<char>>
    decreases stop - i,
{
    if i < 0 || i >= stop || i >= nodes.len() {
        Seq::empty()
    } else {
        nodes[i].refs@.map_values(|r: String| r@) + labels_in(nodes, i + 1, stop)
    }
}

/// The reference labels that the subtrees of `ws` use, in order.
pub open spec fn labels_used(nodes: Seq<MdElem>, ws: Seq<usize>) -> Seq<Seq<char>>
    decreases ws.len(),
{
    if ws.len() == 0 {
        Seq::empty()
    } else {
        labels_used(nodes, ws.drop_last()) + labels_in(
            nodes,
            ws.last() as int,
            nodes[ws.last() as int].end as int,
        )
    }
}

/// The index of the first definition of `label` at or after `k`.
pub open spec fn first_definition(defs: Seq<Definition>, label: Seq<char>, k: int) -> Option<int>
    decreases defs.len() - k,
{
    if k < 0 || k >= defs.len() {
        None
    } else if defs[k].label@ == label {
        Some(k)
    } else {
        first_definition(defs, label, k + 1)
    }
}

/// The definitions of `labels`, as indices, each once, in order of first use.
pub open spec fn context_of(defs: Seq<Definition>, labels: Seq<Seq<char>>) -> Seq<usize>
    decreases labels.len(),
{
    if labels.len() == 0 {
        Seq::empty()
    } else {
        let c = context_of(defs, labels.drop_last());
        match first_definition(defs, labels.last(), 0) {
            Some(k) => if c.contains(k as usize) {
                c
            } else {
                c.push(k as usize)
            },
            None => c,
        }
    }
}

/// The reference definitions that a selection needs to be rendered.
#[derive(Clone, Debug, PartialEq, Eq, Hash)]
pub struct SelectionContext {
    /// Indices into the document's definitions, each once, in order of first use.
    pub definitions: Vec<usize>,
}

/// A failure of the engine itself; an empty selection is no failure.
#[derive(Clone, Copy, Debug, PartialEq, Eq, Structural, Hash)]
pub enum MatchError {
    /// The document's nodes are not a forest in pre-order.
    MalformedDocument,
}

fn literal_matches(text: &String, anchor_start: bool, anchor_end: bool, t: &String) -> (r: bool)
    ensures
        r == literal_accepts(text@, anchor_start, anchor_end, t@),
{
    let h = chars_of(lowercase(t.as_str()).as_str());
    let n = chars_of(lowercase(text.as_str()).as_str());
    if anchor_start && anchor_end {
        if h.len() != n.len() {
            return false;
        }
        let r = matches_at(&n, &h, 0);
        if r {
            assert forall|k: int| 0 <= k < h@.len() implies h@[k] == n@[k] by {
                assert(h@[0 + k] == n@[k]);
            }
            assert(h@ =~= n@);
        }
        r
    } else if anchor_start {
        matches_at(&n, &h, 0)
    } else if anchor_end {
        if n.len() > h.len() {
            return false;
        }
        matches_at(&n, &h, h.len() - n.len())
    } else {
        contains(&h, &n)
    }
}

/// Whether an optional text matcher accepts `t`.
pub fn text_matches(m: &Option<TextMatcher>, t: &String) -> (r: bool)
    ensures
        r == text_accepts(*m, t@),
{
    match m {
        None => true,
        Some(TextMatcher::Literal { text, anchor_start, anchor_end }) => literal_matches(
            text,
            *anchor_start,
            *anchor_end,
            t,
        ),
        Some(TextMatcher::Regex { pattern, .. }) => {
            if regex_is_valid(pattern.as_str()) {
                regex_is_match(pattern.as_str(), t.as_str())
            } else {
                false
            }
        },
    }
}

/// Whether a node is selected by a selector specification.
pub fn is_selected(n: &MdElem, s: &SelectorSpec) -> (r: bool)
    ensures
        r == node_selected(*n, *s),
{
    match s {
        SelectorSpec::Section { title } => n.kind == NodeKind::Section && text_matches(
            title,
            &n.text,
        ),
        SelectorSpec::ListItem { ordered, task, text } => match n.kind {
            NodeKind::ListItem { ordered: o, task: t } => {
                let task_ok = match task {
                    ListItemTask::Selected => t == Some(true),
                    ListItemTask::Unselected => t == Some(false),
                    ListItemTask::Either => t.is_some(),
                    ListItemTask::Unqualified => true,
                };
                o == *ordered && task_ok && text_matches(text, &n.text)
            },
            _ => false,
        },
        SelectorSpec::Link { image, text, url } => n.kind == (NodeKind::Link { image: *image })
            && text_matches(text, &n.text) && text_matches(url, &n.url),
        SelectorSpec::BlockQuote { text } => n.kind == NodeKind::BlockQuote && text_matches(
            text,
            &n.text,
        ),
        SelectorSpec::CodeBlock { language } => n.kind == NodeKind::CodeBlock && text_matches(
            language,
            &n.text,
        ),
        SelectorSpec::FrontMatter { variant } => n.kind == NodeKind::FrontMatter && text_matches(
            variant,
            &n.text,
        ),
        SelectorSpec::Html { text } => n.kind == NodeKind::Html && text_matches(text, &n.text),
        SelectorSpec::Paragraph { text } => n.kind == NodeKind::Paragraph && text_matches(
            text,
            &n.text,
        ),
        SelectorSpec::Table { text } => n.kind == NodeKind::Table && text_matches(text, &n.text),
    }
}

/// Appends the selected nodes among the indices `from..stop`.
fn scan_into(nodes: &Vec<MdElem>, s: &SelectorSpec, from: usize, stop: usize, out: &mut Vec<
    usize,
>)
    requires
        is_forest(nodes@),
        from <= stop <= nodes@.len(),
    ensures
        final(out)@ == old(out)@ + scan(nodes@, *s, from as int, stop as int),
{
    let mut i = from;
    while i < stop
        invariant
            is_forest(nodes@),
            from <= i <= stop <= nodes@.len(),
            old(out)@ + scan(nodes@, *s, from as int, stop as int) == out@ + scan(
                nodes@,
                *s,
                i as int,
                stop as int,
            ),
        decreases stop - i,
    {
        if is_selected(&nodes[i], s) {
            let ghost before = out@;
            out.push(i);
            assert(before + scan(nodes@, *s, i as int, stop as int) =~= out@ + scan(
                nodes@,
                *s,
                next_after(nodes@, i as int, stop as int),
                stop as int,
            ));
            let e = nodes[i].end;
            if e >= stop {
                i = stop;
            } else {
                i = e;
            }
        } else {
            i = i + 1;
        }
    }
    assert(out@ =~= out@ + scan(nodes@, *s, i as int, stop as int));
}

/// One step of a chain over a working set.
fn step_exec(nodes: &Vec<MdElem>, ws: &Vec<usize>, s: &SelectorSpec) -> (r: Vec<usize>)
    requires
        is_forest(nodes@),
        forall|k: int| 0 <= k < ws@.len() ==> ws@[k] < nodes@.len(),
    ensures
        r@ == step(nodes@, ws@, *s),
{
    let mut out: Vec<usize> = Vec::new();
    let mut k: usize = 0;
    while k < ws.len()
        invariant
            is_forest(nodes@),
            forall|j: int| 0 <= j < ws@.len() ==> ws@[j] < nodes@.len(),
            k <= ws@.len(),
            out@ == step(nodes@, ws@.subrange(0, k as int), *s),
        decreases ws@.len() - k,
    {
        let w = ws[k];
        let e = nodes[w].end;
        scan_into(nodes, s, w, e, &mut out);
        let ghost pre = ws@.subrange(0, k + 1);
        assert(pre.drop_last() =~= ws@.subrange(0, k as int));
        k = k + 1;
    }
    assert(ws@.subrange(0, ws@.len() as int) =~= ws@);
    out
}

/// Every node that a scan selects lies in the scanned range.
proof fn lemma_scan_in_range(nodes: Seq<MdElem>, s: SelectorSpec, i: int, stop: int)
    requires
        nodes.len() <= usize::MAX,
    ensures
        forall|k: int|
            0 <= k < scan(nodes, s, i, stop).len() ==> i <= #[trigger] scan(nodes, s, i, stop)[k]
                < stop && scan(nodes, s, i, stop)[k] < nodes.len(),
    decreases stop - i,
{
    if i < 0 || i >= stop || i >= nodes.len() {
    } else if node_selected(nodes[i], s) {
        let rest = scan(nodes, s, next_after(nodes, i, stop), stop);
        lemma_scan_in_range(nodes, s, next_after(nodes, i, stop), stop);
        assert(scan(nodes, s, i, stop) == seq![i as usize] + rest);
        assert forall|k: int| 0 <= k < scan(nodes, s, i, stop).len() implies i <= #[trigger] scan(
            nodes,
            s,
            i,
            stop,
        )[k] < stop && scan(nodes, s, i, stop)[k] < nodes.len() by {
            if k > 0 {
                assert(scan(nodes, s, i, stop)[k] == rest[k - 1]);
            }
        }
    } else {
        lemma_scan_in_range(nodes, s, i + 1, stop);
        assert(scan(nodes, s, i, stop) == scan(nodes, s, i + 1, stop));
    }
}

/// Every node of a step lies in the document.
proof fn lemma_step_in_range(nodes: Seq<MdElem>, ws: Seq<usize>, s: SelectorSpec)
    requires
        is_forest(nodes),
        nodes.len() <= usize::MAX,
        forall|k: int| 0 <= k < ws.len() ==> ws[k] < nodes.len(),
    ensures
        forall|k: int|
            0 <= k < step(nodes, ws, s).len() ==> #[trigger] step(nodes, ws, s)[k] < nodes.len(),
    decreases ws.len(),
{
    if ws.len() > 0 {
        lemma_step_in_range(nodes, ws.drop_last(), s);
        let l = ws.last() as int;
        lemma_scan_in_range(nodes, s, l, nodes[l].end as int);
        let a = step(nodes, ws.drop_last(), s);
        let b = scan(nodes, s, l, nodes[l].end as int);
        assert forall|k: int| 0 <= k < (a + b).len() implies #[trigger] (a + b)[k] < nodes.len() by {
            if k >= a.len() {
                assert((a + b)[k] == b[k - a.len()]);
            }
        }
    }
}

impl Selector {
    /// Applies the selector chain to a document: the selected nodes, as indices
    /// in document order, and the reference definitions they need.
    pub fn find_nodes(&self, doc: &MdDoc) -> (r: Result<(Vec<usize>, SelectionContext), MatchError>)
        ensures
            r is Err <==> !is_forest(doc.nodes@),
            r matches Ok((found, ctx)) ==> found@ == selected(*doc, *self)
                && ctx.definitions@ == context_of(
                doc.definitions@,
                labels_used(doc.nodes@, selected(*doc, *self)),
            ),
    {
        if !doc_is_forest(doc) {
            return Err(MatchError::MalformedDocument);
        }
        let mut ws = doc.roots();
        proof {
            lemma_roots_in_range(doc.nodes@, 0);
        }
        let n = doc.nodes.len();
        assert(self.specs@.subrange(0, self.specs@.len() as int) =~= self.specs@);
        let mut k: usize = 0;
        while k < self.specs.len()
            invariant
                is_forest(doc.nodes@),
                n == doc.nodes@.len(),
                k <= self.specs@.len(),
                forall|j: int| 0 <= j < ws@.len() ==> ws@[j] < doc.nodes@.len(),
                run_chain(doc.nodes@, ws@, self.specs@.subrange(k as int, self.specs@.len() as int))
                    == selected(*doc, *self),
            decreases self.specs@.len() - k,
        {
            let ghost rest = self.specs@.subrange(k as int, self.specs@.len() as int);
            let next = step_exec(&doc.nodes, &ws, &self.specs[k]);
            proof {
                lemma_step_in_range(doc.nodes@, ws@, self.specs@[k as int]);
                assert(rest.drop_first() =~= self.specs@.subrange(k + 1, self.specs@.len() as int));
                assert(rest[0] == self.specs@[k as int]);
            }
            ws = next;
            k = k + 1;
        }
        proof {
            assert(self.specs@.subrange(k as int, self.specs@.len() as int) =~= Seq::<
                SelectorSpec,
            >::empty());
        }
        let definitions = context_exec(doc, &ws);
        Ok((ws, SelectionContext { definitions }))
    }
}

fn doc_is_forest(doc: &MdDoc) -> (r: bool)
    ensures
        r == is_forest(doc.nodes@),
{
    forest_check(&doc.nodes)
}

proof fn lemma_roots_in_range(nodes: Seq<MdElem>, i: int)
    ensures
        forall|k: int|
            0 <= k < roots_from(nodes, i).len() ==> #[trigger] roots_from(nodes, i)[k]
                < nodes.len(),
    decreases nodes.len() - i,
{
    if i < 0 || i >= nodes.len() || nodes[i].end <= i || nodes[i].end > nodes.len() {
    } else {
        let rest = roots_from(nodes, nodes[i].end as int);
        lemma_roots_in_range(nodes, nodes[i].end as int);
        assert forall|k: int| 0 < k < roots_from(nodes, i).len() implies #[trigger] roots_from(
            nodes,
            i,
        )[k] == rest[k - 1] by {}
    }
}

fn context_exec(doc: &MdDoc, ws: &Vec<usize>) -> (r: Vec<usize>)
    requires
        is_forest(doc.nodes@),
        forall|k: int| 0 <= k < ws@.len() ==> ws@[k] < doc.nodes@.len(),
    ensures
        r@ == context_of(doc.definitions@, labels_used(doc.nodes@, ws@)),
{
    let mut out: Vec<usize> = Vec::new();
    let ghost labels: Seq<Seq<char>> = Seq::empty();
    let mut k: usize = 0;
    while k < ws.len()
        invariant
            is_forest(doc.nodes@),
            forall|j: int| 0 <= j < ws@.len() ==> ws@[j] < doc.nodes@.len(),
            k <= ws@.len(),
            labels == labels_used(doc.nodes@, ws@.subrange(0, k as int)),
            out@ == context_of(doc.definitions@, labels),
        decreases ws@.len() - k,
    {
        let w = ws[k];
        let e = doc.nodes[w].end;
        proof {
            let pre = ws@.subrange(0, k + 1);
            assert(pre.drop_last() =~= ws@.subrange(0, k as int));
        }
        let mut i = w;
        while i < e
            invariant
                is_forest(doc.nodes@),
                w <= i <= e <= doc.nodes@.len(),
                labels + labels_in(doc.nodes@, i as int, e as int) == labels_used(
                    doc.nodes@,
                    ws@.subrange(0, k + 1),
                ),
                out@ == context_of(doc.definitions@, labels),
            decreases e - i,
        {
            let refs = &doc.nodes[i].refs;
            let ghost node_labels = refs@.map_values(|r: String| r@);
            let mut j: usize = 0;
            while j < refs.len()
                invariant
                    0 <= j <= refs@.len(),
                    node_labels == refs@.map_values(|r: String| r@),
                    labels + node_labels.subrange(j as int, node_labels.len() as int)
                        + labels_in(doc.nodes@, i + 1, e as int) == labels_used(
                        doc.nodes@,
                        ws@.subrange(0, k + 1),
                    ),
                    out@ == context_of(doc.definitions@, labels),
                decreases refs@.len() - j,
            {
                let ghost prev = labels;
                add_definition(&doc.definitions, &refs[j], &mut out, Ghost(prev));
                proof {
                    labels = labels.push(refs@[j as int]@);
                    assert(labels.drop_last() =~= prev);
                    assert(prev + node_labels.subrange(j as int, node_labels.len() as int)
                        =~= labels + node_labels.subrange(j + 1, node_labels.len() as int));
                }
                j = j + 1;
            }
            proof {
                assert(labels_in(doc.nodes@, i as int, e as int) == node_labels + labels_in(
                    doc.nodes@,
                    i + 1,
                    e as int,
                ));
                assert(node_labels.subrange(0, node_labels.len() as int) =~= node_labels);
                assert(node_labels.subrange(node_labels.len() as int, node_labels.len() as int)
                    =~= Seq::<Seq<char>>::empty());
                assert(labels + Seq::<Seq<char>>::empty() =~= labels);
            }
            i = i + 1;
        }
        proof {
            let pre = ws@.subrange(0, k + 1);
            assert(pre.drop_last() =~= ws@.subrange(0, k as int));
            assert(labels_in(doc.nodes@, e as int, e as int) == Seq::<Seq<char>>::empty());
            assert(labels + Seq::<Seq<char>>::empty() =~= labels);
        }
        k = k + 1;
    }
    assert(ws@.subrange(0, ws@.len() as int) =~= ws@);
    out
}

/// Adds the definition of `label`, if there is one and it is not there yet.
fn add_definition(
    defs: &Vec<Definition>,
    label: &String,
    out: &mut Vec<usize>,
    Ghost(labels): Ghost<Seq<Seq<char>>>,
)
    requires
        old(out)@ == context_of(defs@, labels),
    ensures
        final(out)@ == context_of(defs@, labels.push(label@)),
{
    let ghost ls = labels.push(label@);
    assert(ls.drop_last() =~= labels);
    let mut k: usize = 0;
    while k < defs.len()
        invariant
            k <= defs@.len(),
            ls == labels.push(label@),
            ls.drop_last() == labels,
            ls.last() == label@,
            out@ == context_of(defs@, labels),
            first_definition(defs@, label@, 0) == first_definition(defs@, label@, k as int),
        decreases defs@.len() - k,
    {
        if defs[k].label == *label {
            assert(first_definition(defs@, label@, k as int) == Some(k as int));
            assert(ls.last() == label@);
            let ghost c = context_of(defs@, labels);
            assert(context_of(defs@, ls) == (if c.contains(k) {
                c
            } else {
                c.push(k)
            }));
            let mut m: usize = 0;
            while m < out.len()
                invariant
                    m <= out@.len(),
                    forall|x: int| 0 <= x < m ==> out@[x] != k,
                    out@ == c,
                    ls == labels.push(label@),
                    context_of(defs@, ls) == (if c.contains(k) {
                        c
                    } else {
                        c.push(k)
                    }),
                decreases out@.len() - m,
            {
                if out[m] == k {
                    assert(out@.contains(k));
                    return;
                }
                m = m + 1;
            }
            assert(!out@.contains(k));
            out.push(k);
            return;
        }
        k = k + 1;
    }
    assert(first_definition(defs@, label@, k as int) == None::<int>);
    assert(ls.last() == label@);
    assert(context_of(defs@, ls) == context_of(defs@, labels));
}

/// Whether the nodes of `ws` lie in `lo..hi` with their subtrees, and each
/// comes after the subtree of the one before it.
pub open spec fn spaced(nodes: Seq<MdElem>, ws: Seq<usize>, lo: int, hi: int) -> bool {
    &&& forall|k: int|
        0 <= k < ws.len() ==> lo <= #[trigger] ws[k] && ws[k] < nodes[ws[k] as int].end <= hi
    &&& forall|a: int, b: int|
        0 <= a < b < ws.len() ==> nodes[#[trigger] ws[a] as int].end <= #[trigger] ws[b]
}

proof fn lemma_spaced_concat(
    nodes: Seq<MdElem>,
    a: Seq<usize>,
    b: Seq<usize>,
    lo: int,
    mid: int,
    hi: int,
)
    requires
        lo <= mid <= hi,
        spaced(nodes, a, lo, mid),
        spaced(nodes, b, mid, hi),
    ensures
        spaced(nodes, a + b, lo, hi),
{
    let c = a + b;
    assert forall|k: int| 0 <= k < c.len() implies lo <= #[trigger] c[k] && c[k] < nodes[c[k] as int].end
        <= hi by {
        if k < a.len() {
            assert(c[k] == a[k]);
        } else {
            assert(c[k] == b[k - a.len()]);
        }
    }
    assert forall|x: int, y: int| 0 <= x < y < c.len() implies nodes[#[trigger] c[x] as int].end
        <= #[trigger] c[y] by {
        if y < a.len() {
            assert(c[x] == a[x] && c[y] == a[y]);
        } else if x >= a.len() {
            assert(c[x] == b[x - a.len()] && c[y] == b[y - a.len()]);
        } else {
            assert(c[x] == a[x] && c[y] == b[y - a.len()]);
        }
    }
}

proof fn lemma_scan_spaced(nodes: Seq<MdElem>, s: SelectorSpec, i: int, stop: int)
    requires
        is_forest(nodes),
        nodes.len() <= usize::MAX,
        0 <= i <= stop <= nodes.len(),
        forall|j: int| i <= j < stop ==> #[trigger] nodes[j].end <= stop,
    ensures
        spaced(nodes, scan(nodes, s, i, stop), i, stop),
    decreases stop - i,
{
    if i >= stop {
    } else if node_selected(nodes[i], s) {
        let e = nodes[i].end as int;
        assert(next_after(nodes, i, stop) == e);
        lemma_scan_spaced(nodes, s, e, stop);
        let rest = scan(nodes, s, e, stop);
        let head = seq![i as usize];
        assert(spaced(nodes, head, i, e));
        lemma_spaced_concat(nodes, head, rest, i, e, stop);
        assert(scan(nodes, s, i, stop) == head + rest);
    } else {
        lemma_scan_spaced(nodes, s, i + 1, stop);
    }
}

proof fn lemma_step_spaced(nodes: Seq<MdElem>, ws: Seq<usize>, s: SelectorSpec, lo: int, hi: int)
    requires
        is_forest(nodes),
        nodes.len() <= usize::MAX,
        0 <= lo,
        hi <= nodes.len(),
        spaced(nodes, ws, lo, hi),
    ensures
        spaced(nodes, step(nodes, ws, s), lo, hi),
    decreases ws.len(),
{
    if ws.len() > 0 {
        let l = ws.last() as int;
        let pre = ws.drop_last();
        assert forall|k: int| 0 <= k < pre.len() implies lo <= #[trigger] pre[k] && pre[k]
            < nodes[pre[k] as int].end <= l by {
            assert(pre[k] == ws[k]);
            assert(nodes[ws[k] as int].end <= ws[ws.len() - 1]);
        }
        assert forall|x: int, y: int| 0 <= x < y < pre.len() implies nodes[#[trigger] pre[x] as int].end
            <= #[trigger] pre[y] by {
            assert(pre[x] == ws[x] && pre[y] == ws[y]);
        }
        lemma_step_spaced(nodes, pre, s, lo, l);
        let e = nodes[l].end as int;
        assert(ws[ws.len() - 1] == l);
        assert forall|j: int| l <= j < e implies #[trigger] nodes[j].end <= e by {
            if j > l {
                assert(nodes[j].end <= nodes[l].end);
            }
        }
        lemma_scan_spaced(nodes, s, l, e);
        lemma_spaced_concat(nodes, step(nodes, pre, s), scan(nodes, s, l, e), lo, l, hi);
    }
}

proof fn lemma_roots_spaced(nodes: Seq<MdElem>, i: int)
    requires
        is_forest(nodes),
        nodes.len() <= usize::MAX,
        0 <= i <= nodes.len(),
    ensures
        spaced(nodes, roots_from(nodes, i), i, nodes.len() as int),
    decreases nodes.len() - i,
{
    if i < nodes.len() {
        let e = nodes[i].end as int;
        lemma_roots_spaced(nodes, e);
        let head = seq![i as usize];
        assert(spaced(nodes, head, i, e));
        lemma_spaced_concat(nodes, head, roots_from(nodes, e), i, e, nodes.len() as int);
        assert(roots_from(nodes, i) == head + roots_from(nodes, e));
    }
}

proof fn lemma_chain_spaced(nodes: Seq<MdElem>, ws: Seq<usize>, specs: Seq<SelectorSpec>)
    requires
        is_forest(nodes),
        nodes.len() <= usize::MAX,
        spaced(nodes, ws, 0, nodes.len() as int),
    ensures
        spaced(nodes, run_chain(nodes, ws, specs), 0, nodes.len() as int),
    decreases specs.len(),
{
    if specs.len() > 0 {
        lemma_step_spaced(nodes, ws, specs[0], 0, nodes.len() as int);
        lemma_chain_spaced(nodes, step(nodes, ws, specs[0]), specs.drop_first());
    }
}

/// Applying the same selector to the same document gives the same nodes and
/// the same reference context every time.
pub proof fn lemma_selection_deterministic(
    doc: MdDoc,
    sel: Selector,
    found1: Seq<usize>,
    ctx1: Seq<usize>,
    found2: Seq<usize>,
    ctx2: Seq<usize>,
)
    requires
        found1 == selected(doc, sel),
        ctx1 == context_of(doc.definitions@, labels_used(doc.nodes@, found1)),
        found2 == selected(doc, sel),
        ctx2 == context_of(doc.definitions@, labels_used(doc.nodes@, found2)),
    ensures
        found1 == found2,
        ctx1 == ctx2,
{
}

/// The selected nodes keep document order: their indices in the pre-order
/// sequence of nodes strictly increase, so no node comes twice and none is
/// moved before one that precedes it in the document.
pub proof fn lemma_selection_in_document_order(doc: MdDoc, sel: Selector)
    requires
        is_forest(doc.nodes@),
        doc.nodes@.len() <= usize::MAX,
    ensures
        forall|k: int|
            0 <= k < selected(doc, sel).len() ==> #[trigger] selected(doc, sel)[k]
                < doc.nodes@.len(),
        forall|a: int, b: int|
            0 <= a < b < selected(doc, sel).len() ==> #[trigger] selected(doc, sel)[a]
                < #[trigger] selected(doc, sel)[b],
{
    let nodes = doc.nodes@;
    lemma_roots_spaced(nodes, 0);
    lemma_chain_spaced(nodes, roots_from(nodes, 0), sel.specs@);
    let r = selected(doc, sel);
    assert forall|a: int, b: int| 0 <= a < b < r.len() implies #[trigger] r[a] < #[trigger] r[b] by {
        assert(r[a] < nodes[r[a] as int].end);
        assert(nodes[r[a] as int].end <= r[b]);
    }
}

proof fn lemma_chain_of_empty(nodes: Seq<MdElem>, specs: Seq<SelectorSpec>)
    ensures
        run_chain(nodes, Seq::empty(), specs) == Seq::<usize>::empty(),
    decreases specs.len(),
{
    if specs.len() > 0 {
        assert(step(nodes, Seq::empty(), specs[0]) == Seq::<usize>::empty());
        lemma_chain_of_empty(nodes, specs.drop_first());
    }
}

proof fn lemma_chain_split(nodes: Seq<MdElem>, ws: Seq<usize>, specs: Seq<SelectorSpec>, k: int)
    requires
        0 <= k <= specs.len(),
    ensures
        run_chain(nodes, ws, specs) == run_chain(
            nodes,
            run_chain(nodes, ws, specs.take(k)),
            specs.skip(k),
        ),
    decreases k,
{
    if k == 0 {
        assert(specs.take(0) =~= Seq::<SelectorSpec>::empty());
        assert(specs.skip(0) =~= specs);
    } else {
        let next = step(nodes, ws, specs[0]);
        lemma_chain_split(nodes, next, specs.drop_first(), k - 1);
        assert(specs.take(k).drop_first() =~= specs.drop_first().take(k - 1));
        assert(specs.take(k)[0] == specs[0]);
        assert(specs.drop_first().skip(k - 1) =~= specs.skip(k));
    }
}

/// Once a step of a chain selects nothing, every later step selects nothing
/// and so does the whole chain; an empty selection is no error.
pub proof fn lemma_empty_step_stays_empty(doc: MdDoc, sel: Selector, k: int)
    requires
        0 <= k <= sel.specs@.len(),
        run_chain(doc.nodes@, roots_from(doc.nodes@, 0), sel.specs@.take(k)) == Seq::<
            usize,
        >::empty(),
    ensures
        forall|j: int|
            k <= j <= sel.specs@.len() ==> #[trigger] run_chain(
                doc.nodes@,
                roots_from(doc.nodes@, 0),
                sel.specs@.take(j),
            ) == Seq::<usize>::empty(),
        selected(doc, sel) == Seq::<usize>::empty(),
{
    let nodes = doc.nodes@;
    let roots = roots_from(nodes, 0);
    assert forall|j: int| k <= j <= sel.specs@.len() implies #[trigger] run_chain(
        nodes,
        roots,
        sel.specs@.take(j),
    ) == Seq::<usize>::empty() by {
        let prefix = sel.specs@.take(j);
        lemma_chain_split(nodes, roots, prefix, k);
        assert(prefix.take(k) =~= sel.specs@.take(k));
        lemma_chain_of_empty(nodes, prefix.skip(k));
    }
    assert(sel.specs@.take(sel.specs@.len() as int) =~= sel.specs@);
}

} // verus!
