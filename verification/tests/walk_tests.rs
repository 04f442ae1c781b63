use entropy_scan::walk::{collect_targets, DirTree};

fn file(path: &str) -> DirTree {
    DirTree::File { path: path.to_string() }
}

#[test]
fn file_root_is_its_own_target() {
    let tree = file("notes.txt");
    assert_eq!(collect_targets(&tree), vec!["notes.txt".to_string()]);
}

#[test]
fn empty_directory_yields_no_targets() {
    let tree = DirTree::Dir { entries: vec![] };
    let targets = collect_targets(&tree);
    assert!(targets.is_empty());
}

#[test]
fn nested_empty_directories_yield_no_targets() {
    let inner = DirTree::Dir { entries: vec![] };
    let middle = DirTree::Dir { entries: vec![inner] };
    let tree = DirTree::Dir { entries: vec![middle, DirTree::Dir { entries: vec![] }] };
    let targets = collect_targets(&tree);
    assert!(targets.is_empty());
}

#[test]
fn nested_files_are_all_collected_in_order() {
    let deep = DirTree::Dir { entries: vec![file("a/b/c/3.bin")] };
    let sub = DirTree::Dir { entries: vec![file("a/b/2.bin"), deep, DirTree::Dir { entries: vec![] }] };
    let tree = DirTree::Dir { entries: vec![file("a/1.bin"), sub, file("a/4.bin")] };
    let targets = collect_targets(&tree);
    assert_eq!(
        targets,
        vec![
            "a/1.bin".to_string(),
            "a/b/2.bin".to_string(),
            "a/b/c/3.bin".to_string(),
            "a/4.bin".to_string(),
        ]
    );
}
