use mewtui::filetree::{build_tree, read_dir_sorted, DirEntryInfo, DirListing, FileEntry, FileTree};

fn entry(dir: &str, name: &str, is_dir: bool) -> DirEntryInfo {
    DirEntryInfo { name: name.to_string(), path: format!("{dir}/{name}"), is_dir }
}

fn listing(dir: &str, entries: &[(&str, bool)]) -> DirListing {
    DirListing {
        path: dir.to_string(),
        entries: entries.iter().map(|(n, d)| entry(dir, n, *d)).collect(),
    }
}

fn snapshot() -> Vec<DirListing> {
    vec![
        listing(
            "/p",
            &[
                ("zeta.rs", false),
                ("src", true),
                (".git", true),
                ("Alpha.md", false),
                ("assets", true),
                (".env", false),
                ("beta.txt", false),
            ],
        ),
        listing("/p/src", &[("main.rs", false), ("lib", true)]),
        listing("/p/src/lib", &[("mod.rs", false)]),
        listing("/p/assets", &[("logo.png", false)]),
    ]
}

fn names(entries: &[FileEntry]) -> Vec<String> {
    entries.iter().map(|e| format!("{}{}", "  ".repeat(e.depth), e.name)).collect()
}

#[test]
fn listing_puts_directories_first_and_skips_hidden() {
    let snap = snapshot();
    let entries = read_dir_sorted(&snap[0].entries, 0);
    assert_eq!(names(&entries), vec!["assets", "src", "Alpha.md", "beta.txt", "zeta.rs"]);
    assert!(entries[0].is_dir && entries[1].is_dir);
    assert!(entries.iter().all(|e| !e.expanded && e.depth == 0));
    assert_eq!(entries[1].path, "/p/src");
}

#[test]
fn names_are_ordered_without_regard_to_case() {
    // By code point "B" comes before "a"; lowercased, "a" comes first.
    let raw = vec![entry("/d", "B", false), entry("/d", "a", false), entry("/d", "C", false)];
    let entries = read_dir_sorted(&raw, 2);
    assert_eq!(names(&entries), vec!["    a", "    B", "    C"]);
}

#[test]
fn equal_names_keep_their_order() {
    let raw = vec![
        DirEntryInfo { name: "Read".to_string(), path: "/d/first".to_string(), is_dir: false },
        DirEntryInfo { name: "read".to_string(), path: "/d/second".to_string(), is_dir: false },
    ];
    let entries = read_dir_sorted(&raw, 0);
    assert_eq!(entries[0].path, "/d/first");
    assert_eq!(entries[1].path, "/d/second");
}

#[test]
fn empty_directory_lists_nothing() {
    let entries = read_dir_sorted(&Vec::new(), 0);
    assert!(entries.is_empty());
}

#[test]
fn new_tree_lists_root_with_first_entry_selected() {
    let tree = FileTree::new("/p".to_string(), &snapshot());
    assert_eq!(tree.root, "/p");
    assert_eq!(tree.selected, 0);
    assert_eq!(names(&tree.entries), vec!["assets", "src", "Alpha.md", "beta.txt", "zeta.rs"]);
    assert_eq!(tree.selected_entry().map(|e| e.name.clone()), Some("assets".to_string()));
}

#[test]
fn unread_root_gives_empty_tree() {
    let tree = FileTree::new("/elsewhere".to_string(), &snapshot());
    assert!(tree.entries.is_empty());
    assert!(tree.selected_entry().is_none());
}

#[test]
fn moving_stops_at_both_ends() {
    let mut tree = FileTree::new("/p".to_string(), &snapshot());
    tree.move_up();
    assert_eq!(tree.selected, 0);
    for _ in 0..10 {
        tree.move_down();
    }
    assert_eq!(tree.selected, 4);
    tree.move_up();
    assert_eq!(tree.selected, 3);
    tree.move_down();
    assert_eq!(tree.selected, 4);
}

#[test]
fn moving_in_empty_tree_stays_put() {
    let mut tree = FileTree::new("/none".to_string(), &snapshot());
    tree.move_down();
    tree.move_up();
    assert_eq!(tree.selected, 0);
}

#[test]
fn toggle_expand_shows_and_hides_children() {
    let snap = snapshot();
    let mut tree = FileTree::new("/p".to_string(), &snap);
    tree.move_down();
    tree.toggle_expand(&snap);
    assert_eq!(
        names(&tree.entries),
        vec!["assets", "src", "  lib", "  main.rs", "Alpha.md", "beta.txt", "zeta.rs"]
    );
    assert!(tree.entries[1].expanded);
    assert_eq!(tree.selected, 1);
    tree.move_down();
    tree.toggle_expand(&snap);
    assert_eq!(
        names(&tree.entries),
        vec!["assets", "src", "  lib", "    mod.rs", "  main.rs", "Alpha.md", "beta.txt", "zeta.rs"]
    );
    tree.move_up();
    tree.toggle_expand(&snap);
    assert_eq!(names(&tree.entries), vec!["assets", "src", "Alpha.md", "beta.txt", "zeta.rs"]);
}

#[test]
fn toggle_on_a_file_does_nothing() {
    let snap = snapshot();
    let mut tree = FileTree::new("/p".to_string(), &snap);
    tree.move_down();
    tree.move_down();
    tree.toggle_expand(&snap);
    assert_eq!(tree.entries.len(), 5);
    assert!(!tree.entries[2].expanded);
}

#[test]
fn refresh_keeps_expansion_and_pulls_selection_back() {
    let snap = snapshot();
    let mut tree = FileTree::new("/p".to_string(), &snap);
    tree.toggle_expand(&snap);
    assert_eq!(names(&tree.entries)[..2], ["assets".to_string(), "  logo.png".to_string()]);
    for _ in 0..10 {
        tree.move_down();
    }
    assert_eq!(tree.selected, 5);
    let smaller = vec![listing("/p", &[("assets", true)]), listing("/p/assets", &[("logo.png", false)])];
    tree.refresh(&smaller);
    assert_eq!(names(&tree.entries), vec!["assets", "  logo.png"]);
    assert_eq!(tree.selected, 1);
    tree.refresh(&Vec::new());
    assert!(tree.entries.is_empty());
    assert_eq!(tree.selected, 0);
}

#[test]
fn build_tree_expands_named_directories() {
    let snap = snapshot();
    let expanded = vec!["/p/src".to_string(), "/p/src/lib".to_string()];
    let entries = build_tree(&"/p".to_string(), 0, &expanded, &snap);
    assert_eq!(
        names(&entries),
        vec!["assets", "src", "  lib", "    mod.rs", "  main.rs", "Alpha.md", "beta.txt", "zeta.rs"]
    );
    assert!(entries[1].expanded && entries[2].expanded && !entries[0].expanded);
}

#[test]
fn dirs_to_read_name_root_expanded_and_selected() {
    let snap = snapshot();
    let mut tree = FileTree::new("/p".to_string(), &snap);
    assert_eq!(tree.dirs_to_read(), vec!["/p".to_string(), "/p/assets".to_string()]);
    tree.toggle_expand(&snap);
    tree.move_down();
    tree.move_down();
    assert_eq!(tree.entries[2].name, "src");
    assert_eq!(tree.dirs_to_read(), vec!["/p".to_string(), "/p/assets".to_string(), "/p/src".to_string()]);
    tree.move_down();
    assert_eq!(tree.dirs_to_read(), vec!["/p".to_string(), "/p/assets".to_string()]);
}

#[test]
fn listings_of_dirs_to_read_are_enough_to_toggle() {
    let full = snapshot();
    let mut a = FileTree::new("/p".to_string(), &full);
    a.move_down();
    a.toggle_expand(&full);
    a.move_down();
    let mut b = FileTree::new("/p".to_string(), &full);
    b.move_down();
    b.toggle_expand(&full);
    b.move_down();
    let needed: Vec<DirListing> = a
        .dirs_to_read()
        .iter()
        .map(|d| full.iter().find(|l| &l.path == d).map(|l| listing_copy(l)).unwrap_or(DirListing { path: d.clone(), entries: vec![] }))
        .collect();
    assert_eq!(needed.len(), 3);
    a.toggle_expand(&full);
    b.toggle_expand(&needed);
    assert_eq!(names(&a.entries), names(&b.entries));
    assert_eq!(names(&b.entries), vec!["assets", "src", "  lib", "    mod.rs", "  main.rs", "Alpha.md", "beta.txt", "zeta.rs"]);
}

fn listing_copy(l: &DirListing) -> DirListing {
    DirListing {
        path: l.path.clone(),
        entries: l
            .entries
            .iter()
            .map(|e| DirEntryInfo { name: e.name.clone(), path: e.path.clone(), is_dir: e.is_dir })
            .collect(),
    }
}
