use sas_kit::coder::EncodingType;
use sas_kit::collector::{loadable, Collector, FsEntry, TreeNode};
use sas_kit::list_files;

fn file(dir: &str, label: &str, content: &[u8]) -> FsEntry {
    FsEntry {
        label: label.to_string(),
        path: format!("{}/{}", dir, label),
        is_file: true,
        content: content.to_vec(),
        children: Vec::new(),
    }
}

fn dir(parent: &str, label: &str, children: Vec<FsEntry>) -> FsEntry {
    FsEntry {
        label: label.to_string(),
        path: format!("{}/{}", parent, label),
        is_file: false,
        content: Vec::new(),
        children,
    }
}

fn labels(nodes: &[TreeNode]) -> Vec<String> {
    let mut found = Vec::new();
    for node in nodes {
        found.push(node.label.clone());
    }
    found
}

fn windows_tree(path: &str, label: &str) -> FsEntry {
    FsEntry {
        label: label.to_string(),
        path: path.to_string(),
        is_file: false,
        content: Vec::new(),
        children: vec![
            file(path, "attrib_base_spec.sas", b"%macro attrib_base_spec;\n%mend;\n"),
            file(path, "readme.txt", b"notes"),
            dir(path, "empty", Vec::new()),
        ],
    }
}

#[test]
fn collect_test() {
    let root_dir = windows_tree(r"D:\Studies\ak112\303\stats\CSR", "CSR");
    let extention = "sas";
    let collector = Collector::new(extention);
    let result = collector.collect(&root_dir);
    println!("{:?}", result);
}

#[test]
fn list_files_test() {
    let path = windows_tree(r"D:\Studies\ak112\303\stats\CSR\product\program\macros", "macros");
    let result = list_files(&path);
    println!("{:?}", result);
}

#[test]
fn list_files_keeps_sas_files_only() {
    let root = windows_tree(r"D:\Studies\ak112\303\stats\CSR\product\program\macros", "macros");
    let tree = list_files(&root);
    assert_eq!(tree.label, "macros");
    assert_eq!(tree.path, r"D:\Studies\ak112\303\stats\CSR\product\program\macros");
    assert!(!tree.is_file);
    assert_eq!(labels(&tree.children), vec!["attrib_base_spec.sas"]);
    assert_eq!(tree.children[0].encoding, EncodingType::UTF8);
}

#[test]
fn one_matching_file_beside_another_file() {
    let root = dir(
        "",
        "proj",
        vec![file("/proj", "a.sas", b"data a; run;"), file("/proj", "b.txt", b"anything")],
    );
    let tree = Collector::new("sas").collect(&root);
    assert_eq!(tree.label, "proj");
    assert_eq!(tree.path, "/proj");
    assert!(!tree.is_file);
    assert_eq!(tree.encoding, EncodingType::Other);
    assert_eq!(tree.children.len(), 1);
    let child = &tree.children[0];
    assert_eq!(child.label, "a.sas");
    assert_eq!(child.path, "/proj/a.sas");
    assert!(child.is_file);
    assert!(child.children.is_empty());
    assert_eq!(child.encoding, EncodingType::UTF8);
}

#[test]
fn directory_without_matches_is_collected_empty() {
    let root = dir(
        "",
        "proj",
        vec![
            file("/proj", "b.txt", b"text"),
            dir("/proj", "empty", Vec::new()),
            file("/proj", "sas", b"no dot"),
            file("/proj", "c.sas7bdat", b"data"),
            dir("/proj", "also_empty", Vec::new()),
        ],
    );
    let tree = Collector::new("sas").collect(&root);
    assert_eq!(tree.label, "proj");
    assert!(!tree.is_file);
    assert!(tree.children.is_empty());
}

#[test]
fn directories_that_keep_nothing_are_pruned_at_every_depth() {
    let root = dir(
        "",
        "proj",
        vec![dir(
            "/proj",
            "a",
            vec![dir("/proj/a", "b", vec![file("/proj/a/b", "notes.txt", b"text")])],
        )],
    );
    let tree = Collector::new("sas").collect(&root);
    assert!(tree.children.is_empty());
}

#[test]
fn file_nested_two_levels_deep_is_reached() {
    let root = dir(
        "",
        "proj",
        vec![
            file("/proj", "top.txt", b"text"),
            dir("/proj", "void", Vec::new()),
            dir(
                "/proj",
                "a",
                vec![
                    dir("/proj/a", "hollow", Vec::new()),
                    dir(
                        "/proj/a",
                        "b",
                        vec![
                            file("/proj/a/b", "skip.log", b"log"),
                            file("/proj/a/b", "deep.sas", &[0xEF, 0xBB, 0xBF, 0x41]),
                        ],
                    ),
                    file("/proj/a", "side.txt", b"text"),
                ],
            ),
        ],
    );
    let tree = Collector::new("sas").collect(&root);
    assert_eq!(labels(&tree.children), vec!["a"]);
    let a = &tree.children[0];
    assert!(!a.is_file);
    assert_eq!(a.path, "/proj/a");
    assert_eq!(a.encoding, EncodingType::Other);
    assert_eq!(labels(&a.children), vec!["b"]);
    let b = &a.children[0];
    assert_eq!(b.path, "/proj/a/b");
    assert_eq!(labels(&b.children), vec!["deep.sas"]);
    let deep = &b.children[0];
    assert!(deep.is_file);
    assert_eq!(deep.path, "/proj/a/b/deep.sas");
    assert_eq!(deep.encoding, EncodingType::UTF8BOM);
    assert!(deep.children.is_empty());
}

#[test]
fn children_keep_the_order_of_the_listing() {
    let root = dir(
        "",
        "proj",
        vec![
            file("/proj", "z.sas", b"z"),
            file("/proj", "m.txt", b"m"),
            dir("/proj", "k", vec![file("/proj/k", "k.sas", b"k")]),
            file("/proj", "a.sas", b"a"),
            dir("/proj", "e", Vec::new()),
            file("/proj", "b.sas", b"b"),
        ],
    );
    let tree = Collector::new("sas").collect(&root);
    assert_eq!(labels(&tree.children), vec!["z.sas", "k", "a.sas", "b.sas"]);
}

#[test]
fn root_file_is_returned_whether_it_matches_or_not() {
    let collector = Collector::new("sas");
    let matching = collector.collect(&file("/proj", "a.sas", b"AB"));
    assert!(matching.is_file);
    assert_eq!(matching.label, "a.sas");
    assert_eq!(matching.path, "/proj/a.sas");
    assert_eq!(matching.encoding, EncodingType::UTF8);
    assert!(matching.children.is_empty());
    let other = collector.collect(&file("/proj", "b.txt", b"AB"));
    assert!(other.is_file);
    assert_eq!(other.label, "b.txt");
    assert_eq!(other.encoding, EncodingType::Other);
    assert!(other.children.is_empty());
}

#[test]
fn content_of_other_files_is_not_classified() {
    let root = dir(
        "",
        "proj",
        vec![file("/proj", "a.sas", &[0xD6, 0xD0, 0xCE, 0xC4]), file("/proj", "b.sas", b"")],
    );
    let tree = Collector::new("sas").collect(&root);
    assert_eq!(tree.children[0].encoding, EncodingType::Other);
    assert_eq!(tree.children[1].encoding, EncodingType::Other);
    let tree = Collector::new("txt").collect(&file("/proj", "a.txt", &[0xEF, 0xBB, 0xBF]));
    assert_eq!(tree.encoding, EncodingType::UTF8BOM);
}

#[test]
fn entries_of_a_file_are_ignored() {
    let mut odd = file("/proj", "a.sas", b"AB");
    odd.children.push(file("/proj/a.sas", "inner.sas", b"AB"));
    let tree = Collector::new("sas").collect(&odd);
    assert!(tree.is_file);
    assert!(tree.children.is_empty());
}

#[test]
fn matches_wants_the_dot_and_the_whole_extension() {
    let collector = Collector::new("sas");
    assert!(collector.matches("a.sas"));
    assert!(collector.matches(".sas"));
    assert!(collector.matches("a.b.sas"));
    assert!(collector.matches("数据.sas"));
    assert!(!collector.matches("sas"));
    assert!(!collector.matches("asas"));
    assert!(!collector.matches("a.SAS"));
    assert!(!collector.matches("a.sas "));
    assert!(!collector.matches("a.sa"));
    assert!(!collector.matches("a.sas7bdat"));
    assert!(!collector.matches(""));
    assert!(!collector.matches("as"));
}

#[test]
fn matches_with_other_extensions() {
    assert!(Collector::new("").matches("a."));
    assert!(!Collector::new("").matches("a"));
    assert!(Collector::new("tar.gz").matches("x.tar.gz"));
    assert!(!Collector::new("tar.gz").matches("x.gz"));
    assert!(Collector::new("数据").matches("a.数据"));
    assert!(!Collector::new("数据").matches("a.据"));
}

#[test]
fn default_node_is_an_empty_directory() {
    let node = TreeNode::default();
    assert_eq!(node.label, "");
    assert_eq!(node.path, "");
    assert!(!node.is_file);
    assert!(node.children.is_empty());
    assert_eq!(node.encoding, EncodingType::Other);
}

#[test]
fn trees_of_ordinary_files_are_loadable() {
    assert!(loadable(&file("/proj", "a.sas", b"AB")));
    assert!(loadable(&dir("", "proj", Vec::new())));
    assert!(loadable(&windows_tree(r"D:\Studies", "Studies")));
    let deep = dir(
        "",
        "proj",
        vec![dir("/proj", "a", vec![file("/proj/a", "big.sas", &vec![0x41; 1 << 16])])],
    );
    assert!(loadable(&deep));
}
