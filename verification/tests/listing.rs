use markdown_files::listing::{
    arrange, is_hidden_name, is_listed_item, is_markdown_key, is_shown, key_goes_before,
    list_entries, Entry, FileNode, Keyed,
};

fn file(name: &str) -> Entry {
    Entry { name: name.to_string(), path: format!("/docs/{}", name), is_dir: false }
}

fn dir(name: &str) -> Entry {
    Entry { name: name.to_string(), path: format!("/docs/{}", name), is_dir: true }
}

fn node(entry: &Entry) -> FileNode {
    FileNode {
        name: entry.name.clone(),
        path: entry.path.clone(),
        is_dir: entry.is_dir,
        children: None,
    }
}

fn names(nodes: &[FileNode]) -> Vec<String> {
    nodes.iter().map(|n| n.name.clone()).collect()
}

fn chars(text: &str) -> Vec<char> {
    text.chars().collect()
}

#[test]
fn directories_first_then_markdown_files() {
    let entries = vec![file("b.md"), dir("A"), file(".hidden.md"), file("notes.txt"), dir("B")];
    let nodes = list_entries(&entries);
    assert_eq!(nodes, vec![node(&dir("A")), node(&dir("B")), node(&file("b.md"))]);
}

#[test]
fn an_empty_directory_lists_nothing() {
    assert_eq!(list_entries(&[]), Vec::<FileNode>::new());
}

#[test]
fn nodes_keep_name_path_and_kind_and_have_no_children() {
    let entries = vec![
        Entry { name: "x.md".to_string(), path: "C:\\notes\\x.md".to_string(), is_dir: false },
        Entry { name: "sub".to_string(), path: "C:\\notes\\sub".to_string(), is_dir: true },
    ];
    let nodes = list_entries(&entries);
    assert_eq!(nodes.len(), 2);
    assert_eq!(nodes[0].name, "sub");
    assert_eq!(nodes[0].path, "C:\\notes\\sub");
    assert!(nodes[0].is_dir);
    assert_eq!(nodes[0].children, None);
    assert_eq!(nodes[1].name, "x.md");
    assert_eq!(nodes[1].path, "C:\\notes\\x.md");
    assert!(!nodes[1].is_dir);
    assert_eq!(nodes[1].children, None);
}

#[test]
fn names_are_ordered_without_regard_to_case() {
    let entries = vec![file("Zeta.md"), file("alpha.md"), file("Beta.MD"), file("g.Markdown")];
    assert_eq!(names(&list_entries(&entries)), ["alpha.md", "Beta.MD", "g.Markdown", "Zeta.md"]);
}

#[test]
fn directories_are_ordered_without_regard_to_case() {
    let entries = vec![dir("src"), dir("Docs"), dir("assets"), dir("Zoo")];
    assert_eq!(names(&list_entries(&entries)), ["assets", "Docs", "src", "Zoo"]);
}

#[test]
fn every_directory_precedes_every_file() {
    let entries = vec![file("a.md"), dir("zz"), file("0.md"), dir("a")];
    assert_eq!(names(&list_entries(&entries)), ["a", "zz", "0.md", "a.md"]);
}

#[test]
fn extensions_match_in_any_case() {
    let entries = vec![file("README.MD"), file("Guide.MarkDown"), file("x.Md")];
    assert_eq!(names(&list_entries(&entries)), ["Guide.MarkDown", "README.MD", "x.Md"]);
}

#[test]
fn other_files_are_left_out() {
    let entries = vec![
        file("notes.txt"),
        file("md"),
        file("markdown"),
        file("a.mdx"),
        file("a.md.bak"),
        file("a.markdown2"),
        file("amd"),
        file(""),
    ];
    assert_eq!(list_entries(&entries), Vec::<FileNode>::new());
}

#[test]
fn hidden_entries_are_left_out() {
    let entries = vec![dir(".git"), file(".notes.md"), file(".md"), dir("."), dir("..")];
    assert_eq!(list_entries(&entries), Vec::<FileNode>::new());
}

#[test]
fn a_dot_inside_a_name_does_not_hide_it() {
    let entries = vec![file("a.b.md"), dir("v1.2")];
    assert_eq!(names(&list_entries(&entries)), ["v1.2", "a.b.md"]);
}

#[test]
fn a_directory_needs_no_extension_and_a_file_named_like_one_is_shown() {
    let entries = vec![dir("plain"), dir("odd.txt"), file("x.markdown")];
    assert_eq!(names(&list_entries(&entries)), ["odd.txt", "plain", "x.markdown"]);
}

#[test]
fn names_that_differ_in_case_only_stay_as_they_were_read() {
    let entries = vec![file("B.md"), file("a.MD"), file("A.md"), file("b.md"), file("a.md")];
    assert_eq!(names(&list_entries(&entries)), ["a.MD", "A.md", "a.md", "B.md", "b.md"]);
    let entries = vec![file("a.md"), file("A.md"), file("a.MD")];
    assert_eq!(names(&list_entries(&entries)), ["a.md", "A.md", "a.MD"]);
}

#[test]
fn a_shorter_name_precedes_its_extensions() {
    let entries = vec![dir("ab"), dir("a"), dir("abc")];
    assert_eq!(names(&list_entries(&entries)), ["a", "ab", "abc"]);
}

#[test]
fn names_beyond_ascii() {
    let entries = vec![file("\u{c9}t\u{e9}.md"), file("zebra.md"), file("\u{4e2d}\u{6587}.md")];
    assert_eq!(
        names(&list_entries(&entries)),
        ["zebra.md", "\u{c9}t\u{e9}.md", "\u{4e2d}\u{6587}.md"]
    );
}

#[test]
fn arrange_goes_by_the_keys_it_is_given() {
    let items = vec![
        Keyed { entry: file("one.md"), key: "c.md".to_string() },
        Keyed { entry: file("two.md"), key: "a.md".to_string() },
        Keyed { entry: file("three.md"), key: "b.txt".to_string() },
        Keyed { entry: dir("four"), key: "z".to_string() },
        Keyed { entry: file(".five.md"), key: "0.md".to_string() },
    ];
    assert_eq!(names(&arrange(&items)), ["four", "two.md", "one.md"]);
}

#[test]
fn arrange_keeps_equal_keys_as_given() {
    let items = vec![
        Keyed { entry: file("first.md"), key: "k.md".to_string() },
        Keyed { entry: file("second.md"), key: "k.md".to_string() },
        Keyed { entry: file("third.md"), key: "a.md".to_string() },
        Keyed { entry: file("fourth.md"), key: "k.md".to_string() },
    ];
    assert_eq!(names(&arrange(&items)), ["third.md", "first.md", "second.md", "fourth.md"]);
}

#[test]
fn hidden_names() {
    assert!(is_hidden_name(".git"));
    assert!(is_hidden_name("."));
    assert!(!is_hidden_name(""));
    assert!(!is_hidden_name("a.b"));
    assert!(!is_hidden_name("\u{3002}x"));
}

#[test]
fn markdown_keys() {
    assert!(is_markdown_key(&chars("a.md")));
    assert!(is_markdown_key(&chars("a.markdown")));
    assert!(is_markdown_key(&chars(".md")));
    assert!(!is_markdown_key(&chars("a.MD")));
    assert!(!is_markdown_key(&chars("a.mark")));
    assert!(!is_markdown_key(&chars("")));
}

#[test]
fn shown_entries() {
    assert!(is_shown("a.MD", false, &chars("a.md")));
    assert!(is_shown("dir", true, &chars("dir")));
    assert!(!is_shown(".dir", true, &chars(".dir")));
    assert!(!is_shown("a.txt", false, &chars("a.txt")));
    assert!(is_listed_item(&Keyed { entry: file("A.MD"), key: "a.md".to_string() }));
    assert!(!is_listed_item(&Keyed { entry: file("A.MD"), key: "A.MD".to_string() }));
    assert!(is_listed_item(&Keyed { entry: dir("A"), key: "a".to_string() }));
    assert!(!is_listed_item(&Keyed { entry: dir(".A"), key: ".a".to_string() }));
}

#[test]
fn the_order_of_kinds_and_keys() {
    assert!(key_goes_before(true, &chars("z"), false, &chars("a")));
    assert!(!key_goes_before(false, &chars("a"), true, &chars("z")));
    assert!(key_goes_before(true, &chars("a"), true, &chars("b")));
    assert!(!key_goes_before(true, &chars("b"), true, &chars("a")));
    assert!(key_goes_before(false, &chars("a"), false, &chars("b")));
    assert!(!key_goes_before(false, &chars("a"), false, &chars("a")));
    assert!(!key_goes_before(true, &chars("a"), true, &chars("a")));
}

#[test]
fn a_listing_is_the_same_whatever_the_order_of_distinct_entries() {
    let one = vec![file("c.md"), dir("b"), file("a.md"), dir("d")];
    let other = vec![dir("d"), file("a.md"), file("c.md"), dir("b")];
    assert_eq!(list_entries(&one), list_entries(&other));
    assert_eq!(names(&list_entries(&one)), ["b", "d", "a.md", "c.md"]);
}

#[test]
fn a_copy_of_a_node_is_the_same_tree() {
    let leaf = node(&file("a.md"));
    assert_eq!(leaf.clone(), leaf);
    let tree = FileNode {
        name: "docs".to_string(),
        path: "/docs".to_string(),
        is_dir: true,
        children: Some(vec![
            node(&file("a.md")),
            FileNode {
                name: "sub".to_string(),
                path: "/docs/sub".to_string(),
                is_dir: true,
                children: Some(vec![node(&file("b.md"))]),
            },
            FileNode {
                name: "empty".to_string(),
                path: "/docs/empty".to_string(),
                is_dir: true,
                children: Some(Vec::new()),
            },
        ]),
    };
    let copy = tree.clone();
    assert_eq!(copy, tree);
    assert_eq!(copy.children.as_ref().unwrap().len(), 3);
    assert_eq!(copy.children.as_ref().unwrap()[2].children, Some(Vec::new()));
}
