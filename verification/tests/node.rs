use data_source_node::text::{copy_texts, str_eq, texts_contain, texts_eq};
use data_source_node::{Node, NodeType};

fn names(items: &[&str]) -> Vec<String> {
    items.iter().map(|item| item.to_string()).collect()
}

fn report() -> Node {
    Node::new(
        "ds1",
        "doc42",
        NodeType::Document,
        1700000000000,
        "Report.pdf",
        "application/pdf",
        names(&["doc-folder-1"]),
    )
}

#[test]
fn new_keeps_every_part() {
    let node = report();
    assert_eq!(node.data_source_id(), "ds1");
    assert_eq!(node.node_id(), "doc42");
    assert_eq!(node.node_type(), NodeType::Document);
    assert_eq!(node.timestamp(), 1700000000000);
    assert_eq!(node.title(), "Report.pdf");
    assert_eq!(node.mime_type(), "application/pdf");
    assert_eq!(node.parents(), &names(&["doc-folder-1"]));
}

#[test]
fn new_tests_nothing() {
    let node = Node::new("", "", NodeType::Folder, 0, "", "", names(&["", ""]));
    assert_eq!(node.data_source_id(), "");
    assert_eq!(node.node_id(), "");
    assert_eq!(node.node_type(), NodeType::Folder);
    assert_eq!(node.timestamp(), 0);
    assert_eq!(node.title(), "");
    assert_eq!(node.mime_type(), "");
    assert_eq!(node.parents(), &names(&["", ""]));
}

#[test]
fn new_accepts_a_node_among_its_own_parents() {
    let node = Node::new("ds", "n", NodeType::Folder, 1, "t", "", names(&["n"]));
    assert_eq!(node.parents(), &names(&["n"]));
}

#[test]
fn new_copies_its_texts() {
    let mut title = String::from("Report.pdf");
    let node = Node::new("ds1", "doc42", NodeType::Document, 1, &title, "m", Vec::new());
    title.push_str(" (old)");
    assert_eq!(node.title(), "Report.pdf");
}

#[test]
fn timestamp_spans_all_of_u64() {
    let node = Node::new("ds", "n", NodeType::Table, u64::MAX, "t", "m", Vec::new());
    assert_eq!(node.timestamp(), 18446744073709551615);
}

#[test]
fn nodes_with_the_same_parts_are_equal() {
    assert!(report() == report());
    let a = Node::new("ds", "n", NodeType::Table, 7, "t", "m", names(&["a", "b", "c"]));
    let b = Node::new("ds", "n", NodeType::Table, 7, "t", "m", names(&["a", "b", "c"]));
    assert!(a == b);
    assert!(b == a);
}

#[test]
fn a_change_to_any_one_part_makes_nodes_unequal() {
    let parents = || names(&["doc-folder-1"]);
    let base = report();
    let kind = NodeType::Document;
    let at = 1700000000000;
    let changed = vec![
        Node::new("ds2", "doc42", kind, at, "Report.pdf", "application/pdf", parents()),
        Node::new("ds1", "doc43", kind, at, "Report.pdf", "application/pdf", parents()),
        Node::new("ds1", "doc42", NodeType::Table, at, "Report.pdf", "application/pdf", parents()),
        Node::new("ds1", "doc42", kind, at + 1, "Report.pdf", "application/pdf", parents()),
        Node::new("ds1", "doc42", kind, at, "Report2.pdf", "application/pdf", parents()),
        Node::new("ds1", "doc42", kind, at, "Report.pdf", "text/plain", parents()),
        Node::new("ds1", "doc42", kind, at, "Report.pdf", "application/pdf", names(&["doc-folder-2"])),
        Node::new("ds1", "doc42", kind, at, "Report.pdf", "application/pdf", Vec::new()),
        Node::new(
            "ds1",
            "doc42",
            kind,
            at,
            "Report.pdf",
            "application/pdf",
            names(&["doc-folder-1", "doc-folder-0"]),
        ),
    ];
    for other in &changed {
        assert!(base != *other);
        assert!(*other != base);
    }
}

#[test]
fn the_same_item_at_another_time_is_another_node() {
    let earlier = Node::new("ds1", "doc42", NodeType::Document, 10, "Report", "m", Vec::new());
    let later = Node::new("ds1", "doc42", NodeType::Document, 11, "Report", "m", Vec::new());
    assert_eq!(earlier.data_source_id(), later.data_source_id());
    assert_eq!(earlier.node_id(), later.node_id());
    assert!(earlier != later);
}

#[test]
fn the_order_of_parents_counts() {
    let a = Node::new("ds", "n", NodeType::Document, 1, "t", "m", names(&["a", "b"]));
    let b = Node::new("ds", "n", NodeType::Document, 1, "t", "m", names(&["b", "a"]));
    assert!(a != b);
}

#[test]
fn a_root_differs_from_a_node_below_a_folder() {
    let root = Node::new("ds", "n", NodeType::Folder, 1, "t", "", Vec::new());
    let below = Node::new("ds", "n", NodeType::Folder, 1, "t", "", names(&["top"]));
    assert!(root.parents().is_empty());
    assert!(root != below);
}

#[test]
fn text_is_compared_by_characters() {
    let plain = Node::new("ds", "n", NodeType::Document, 1, "Résumé", "m", Vec::new());
    let same = Node::new("ds", "n", NodeType::Document, 1, "Résumé", "m", Vec::new());
    let other = Node::new("ds", "n", NodeType::Document, 1, "Resume", "m", Vec::new());
    let upper = Node::new("ds", "n", NodeType::Document, 1, "RÉSUMÉ", "m", Vec::new());
    assert!(plain == same);
    assert!(plain != other);
    assert!(plain != upper);
}

#[test]
fn clone_gives_an_equal_node_of_its_own() {
    let node = report();
    let copy = node.clone();
    assert!(copy == node);
    drop(node);
    assert_eq!(copy.data_source_id(), "ds1");
    assert_eq!(copy.node_id(), "doc42");
    assert_eq!(copy.node_type(), NodeType::Document);
    assert_eq!(copy.timestamp(), 1700000000000);
    assert_eq!(copy.title(), "Report.pdf");
    assert_eq!(copy.mime_type(), "application/pdf");
    assert_eq!(copy.parents(), &names(&["doc-folder-1"]));
}

#[test]
fn node_type_is_copied_and_compared() {
    let kind = NodeType::Table;
    let copy = kind;
    assert_eq!(kind, copy);
    assert_ne!(NodeType::Document, NodeType::Table);
    assert_ne!(NodeType::Table, NodeType::Folder);
    assert_ne!(NodeType::Folder, NodeType::Document);
}

#[test]
fn node_type_names() {
    assert_eq!(NodeType::Document.name(), "Document");
    assert_eq!(NodeType::Table.name(), "Table");
    assert_eq!(NodeType::Folder.name(), "Folder");
}

#[test]
fn node_type_is_read_from_its_name() {
    assert_eq!(NodeType::from_name("Document"), Some(NodeType::Document));
    assert_eq!(NodeType::from_name("Table"), Some(NodeType::Table));
    assert_eq!(NodeType::from_name("Folder"), Some(NodeType::Folder));
    for kind in [NodeType::Document, NodeType::Table, NodeType::Folder] {
        assert_eq!(NodeType::from_name(kind.name()), Some(kind));
    }
}

#[test]
fn node_type_is_read_from_nothing_else() {
    for name in ["Spreadsheet", "", "document", "FOLDER", "Table ", " Table", "Tabl", "Tables", "Document\0"] {
        assert_eq!(NodeType::from_name(name), None);
    }
}

#[test]
fn str_eq_compares_characters() {
    assert!(str_eq("", ""));
    assert!(str_eq("node_id", "node_id"));
    assert!(str_eq("日本語", "日本語"));
    assert!(!str_eq("node_id", "node_ie"));
    assert!(!str_eq("node_id", "node_i"));
    assert!(!str_eq("", "a"));
    assert!(!str_eq("parents", "node_id"));
    assert!(!str_eq("é", "e\u{301}"));
}

#[test]
fn texts_eq_compares_lists_in_order() {
    assert!(texts_eq(&names(&[]), &names(&[])));
    assert!(texts_eq(&names(&["a", "b"]), &names(&["a", "b"])));
    assert!(!texts_eq(&names(&["a", "b"]), &names(&["b", "a"])));
    assert!(!texts_eq(&names(&["a"]), &names(&["a", "a"])));
    assert!(!texts_eq(&names(&["a", "b"]), &names(&["a", "c"])));
    assert!(!texts_eq(&names(&[]), &names(&[""])));
}

#[test]
fn copy_texts_copies_every_text() {
    assert_eq!(copy_texts(&names(&[])), names(&[]));
    assert_eq!(copy_texts(&names(&["a", "", "日本語"])), names(&["a", "", "日本語"]));
}

#[test]
fn texts_contain_finds_a_text() {
    assert!(texts_contain(&names(&["a", "b"]), "b"));
    assert!(texts_contain(&names(&["a", ""]), ""));
    assert!(!texts_contain(&names(&["a", "b"]), "c"));
    assert!(!texts_contain(&names(&["ab"]), "a"));
    assert!(!texts_contain(&names(&[]), ""));
}

#[test]
fn a_node_is_well_formed_with_identifiers_and_foreign_parents() {
    assert!(report().is_well_formed());
    assert!(Node::new("d", "n", NodeType::Folder, 0, "", "", Vec::new()).is_well_formed());
    assert!(Node::new("d", "n", NodeType::Folder, 0, "", "", names(&["a", "a", ""])).is_well_formed());
}

#[test]
fn a_node_without_an_identifier_is_not_well_formed() {
    assert!(!Node::new("", "n", NodeType::Document, 1, "t", "m", Vec::new()).is_well_formed());
    assert!(!Node::new("d", "", NodeType::Document, 1, "t", "m", Vec::new()).is_well_formed());
    assert!(!Node::new("", "", NodeType::Document, 1, "t", "m", Vec::new()).is_well_formed());
}

#[test]
fn a_node_among_its_own_parents_is_not_well_formed() {
    assert!(!Node::new("d", "n", NodeType::Folder, 1, "t", "", names(&["n"])).is_well_formed());
    assert!(!Node::new("d", "n", NodeType::Folder, 1, "t", "", names(&["a", "b", "n"])).is_well_formed());
    assert!(!Node::new("d", "n", NodeType::Folder, 1, "t", "", names(&["n", "a"])).is_well_formed());
    assert!(Node::new("d", "n", NodeType::Folder, 1, "t", "", names(&["N", "nn", "d"])).is_well_formed());
}

#[test]
fn is_root_tells_an_empty_chain() {
    assert!(Node::new("d", "n", NodeType::Folder, 1, "t", "", Vec::new()).is_root());
    assert!(!Node::new("d", "n", NodeType::Folder, 1, "t", "", names(&[""])).is_root());
    assert!(!report().is_root());
}

#[test]
fn same_item_goes_by_data_source_and_identifier() {
    let node = report();
    let later = Node::new("ds1", "doc42", NodeType::Table, 5, "Renamed", "", Vec::new());
    let elsewhere = Node::new("ds2", "doc42", NodeType::Document, 1700000000000, "Report.pdf", "application/pdf", names(&["doc-folder-1"]));
    let sibling = Node::new("ds1", "doc43", NodeType::Document, 1700000000000, "Report.pdf", "application/pdf", names(&["doc-folder-1"]));
    let crossed = Node::new("doc42", "ds1", NodeType::Document, 1700000000000, "Report.pdf", "application/pdf", names(&["doc-folder-1"]));
    assert!(node.same_item(&node));
    assert!(node.same_item(&later));
    assert!(later.same_item(&node));
    assert!(node != later);
    assert!(!node.same_item(&elsewhere));
    assert!(!node.same_item(&sibling));
    assert!(!node.same_item(&crossed));
}
