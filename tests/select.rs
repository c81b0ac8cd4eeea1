use mdq::md_elem::{Definition, MdDoc, MdElem, NodeKind};
use mdq::query::selector::{ListItemTask, Selector, SelectorSpec, TextMatcher};
use mdq::select::{is_selected, text_matches, MatchError};

fn item(text: &str, end: usize) -> MdElem {
    MdElem::new(NodeKind::ListItem { ordered: false, task: None }, text.to_string(), end)
}

/// Two sections, "First section" with items "hello" and "world", and
/// "Second section" with items "foo" and "bar".
fn two_sections() -> MdDoc {
    let nodes = vec![
        MdElem::new(NodeKind::Section, "First section".to_string(), 6),
        MdElem::new(NodeKind::List, String::new(), 6),
        item("hello", 4),
        MdElem::new(NodeKind::Paragraph, "hello".to_string(), 4),
        item("world", 6),
        MdElem::new(NodeKind::Paragraph, "world".to_string(), 6),
        MdElem::new(NodeKind::Section, "Second section".to_string(), 12),
        MdElem::new(NodeKind::List, String::new(), 12),
        item("foo", 10),
        MdElem::new(NodeKind::Paragraph, "foo".to_string(), 10),
        item("bar", 12),
        MdElem::new(NodeKind::Paragraph, "bar".to_string(), 12),
    ];
    MdDoc::from_nodes(nodes, Vec::new()).unwrap()
}

fn texts(doc: &MdDoc, found: &[usize]) -> Vec<String> {
    found.iter().map(|i| doc.nodes[*i].text.clone()).collect()
}

#[test]
fn second_section_list_items() {
    let doc = two_sections();
    let selector = Selector::try_parse("# second | - *").unwrap();
    let (found, ctx) = selector.find_nodes(&doc).unwrap();
    assert_eq!(texts(&doc, &found), vec!["foo".to_string(), "bar".to_string()]);
    assert!(ctx.definitions.is_empty());
}

#[test]
fn find_nodes_twice_gives_the_same() {
    let doc = two_sections();
    let selector = Selector::try_parse("- *").unwrap();
    let first = selector.find_nodes(&doc).unwrap();
    let second = selector.find_nodes(&doc).unwrap();
    assert_eq!(first, second);
    assert_eq!(first.0, vec![2, 4, 8, 10]);
}

#[test]
fn selection_keeps_document_order() {
    let doc = two_sections();
    let selector = Selector::try_parse("P: *").unwrap();
    let (found, _) = selector.find_nodes(&doc).unwrap();
    assert_eq!(found, vec![3, 5, 9, 11]);
    assert!(found.windows(2).all(|w| w[0] < w[1]));
}

#[test]
fn empty_step_empties_the_chain() {
    let doc = two_sections();
    let selector = Selector::try_parse("# third | - * | P: *").unwrap();
    let (found, ctx) = selector.find_nodes(&doc).unwrap();
    assert!(found.is_empty());
    assert!(ctx.definitions.is_empty());
}

#[test]
fn selected_node_is_not_searched_again() {
    let nodes = vec![
        MdElem::new(NodeKind::BlockQuote, "outer".to_string(), 2),
        MdElem::new(NodeKind::BlockQuote, "inner".to_string(), 2),
    ];
    let doc = MdDoc::from_nodes(nodes, Vec::new()).unwrap();
    let (found, _) = Selector::try_parse("> *").unwrap().find_nodes(&doc).unwrap();
    assert_eq!(found, vec![0]);
    let (found, _) = Selector::try_parse("> inner").unwrap().find_nodes(&doc).unwrap();
    assert_eq!(found, vec![1]);
}

#[test]
fn malformed_document_is_an_error() {
    let doc = MdDoc {
        nodes: vec![MdElem::new(NodeKind::Paragraph, "x".to_string(), 5)],
        definitions: Vec::new(),
    };
    assert!(MdDoc::from_nodes(doc.nodes.clone(), Vec::new()).is_none());
    let selector = Selector::try_parse("P: *").unwrap();
    assert_eq!(selector.find_nodes(&doc), Err(MatchError::MalformedDocument));
}

#[test]
fn context_holds_used_definitions_once() {
    let mut a = MdElem::new(NodeKind::Paragraph, "see [1] and [2]".to_string(), 1);
    a.refs = vec!["1".to_string(), "2".to_string()];
    let mut b = MdElem::new(NodeKind::Paragraph, "again [2] and [9]".to_string(), 2);
    b.refs = vec!["2".to_string(), "9".to_string()];
    let defs = vec![
        Definition { label: "2".to_string(), text: "two".to_string() },
        Definition { label: "1".to_string(), text: "one".to_string() },
        Definition { label: "3".to_string(), text: "three".to_string() },
    ];
    let doc = MdDoc::from_nodes(vec![a, b], defs).unwrap();
    let (found, ctx) = Selector::try_parse("P: *").unwrap().find_nodes(&doc).unwrap();
    assert_eq!(found, vec![0, 1]);
    assert_eq!(ctx.definitions, vec![1, 0]);
    let (_, ctx) = Selector::try_parse("P: again").unwrap().find_nodes(&doc).unwrap();
    assert_eq!(ctx.definitions, vec![0]);
}

#[test]
fn literal_matching_is_case_insensitive() {
    let t = "Second Section".to_string();
    let lit = |text: &str, s: bool, e: bool| {
        Some(TextMatcher::Literal { text: text.to_string(), anchor_start: s, anchor_end: e })
    };
    assert!(text_matches(&lit("second", false, false), &t));
    assert!(text_matches(&lit("SECTION", false, false), &t));
    assert!(!text_matches(&lit("third", false, false), &t));
    assert!(text_matches(&lit("second", true, false), &t));
    assert!(!text_matches(&lit("section", true, false), &t));
    assert!(text_matches(&lit("section", false, true), &t));
    assert!(!text_matches(&lit("second", false, true), &t));
    assert!(text_matches(&lit("second section", true, true), &t));
    assert!(!text_matches(&lit("second", true, true), &t));
    assert!(text_matches(&None, &t));
}

#[test]
fn regex_matching() {
    let t = "version 42".to_string();
    let re = |p: &str| Some(TextMatcher::Regex { pattern: p.to_string(), replacement: None });
    assert!(text_matches(&re("[0-9]+"), &t));
    assert!(!text_matches(&re("^[0-9]"), &t));
    assert!(!text_matches(&re("("), &t));
}

#[test]
fn task_and_kind_matching() {
    let checked = MdElem::new(NodeKind::ListItem { ordered: false, task: Some(true) }, "done".to_string(), 1);
    let open = MdElem::new(NodeKind::ListItem { ordered: false, task: Some(false) }, "todo".to_string(), 1);
    let ordered = MdElem::new(NodeKind::ListItem { ordered: true, task: None }, "first".to_string(), 1);
    let spec = |task| SelectorSpec::ListItem { ordered: false, task, text: None };
    assert!(is_selected(&checked, &spec(ListItemTask::Selected)));
    assert!(!is_selected(&open, &spec(ListItemTask::Selected)));
    assert!(is_selected(&open, &spec(ListItemTask::Unselected)));
    assert!(is_selected(&open, &spec(ListItemTask::Either)));
    assert!(!is_selected(&ordered, &spec(ListItemTask::Either)));
    assert!(!is_selected(&ordered, &spec(ListItemTask::Unqualified)));
    let ordered_spec = SelectorSpec::ListItem { ordered: true, task: ListItemTask::Unqualified, text: None };
    assert!(is_selected(&ordered, &ordered_spec));
    let mut link = MdElem::new(NodeKind::Link { image: false }, "docs".to_string(), 1);
    link.url = "https://example.com".to_string();
    let sel = Selector::try_parse("[docs](example)").unwrap();
    assert!(is_selected(&link, &sel.specs[0]));
    let sel = Selector::try_parse("![docs]").unwrap();
    assert!(!is_selected(&link, &sel.specs[0]));
}
