use reborn::tsrg_trie::{read_tsrg_lines, TsrgTrie};

#[test]
fn class_lines_add_their_path_parts_once() {
    let lines: Vec<String> = [
        "a net/minecraft/client/Main",
        "\tb field_1",
        "c net/minecraft/world/World",
        "no_slash_here x",
        "d net/minecraft/client/Other",
    ]
    .iter()
    .map(|s| s.to_string())
    .collect();
    let trie = read_tsrg_lines(&lines);
    let keys: Vec<&str> = trie.children.iter().map(|c| c.key.as_str()).collect();
    assert_eq!(keys, vec!["net", "minecraft", "client", "Main", "world", "World", "Other"]);
    assert!(trie.children.iter().all(|c| c.children.is_empty()));
    assert_eq!(trie.key, "");
}

#[test]
fn ensure_child_adds_once() {
    let mut t = TsrgTrie::new();
    t.ensure_child("a");
    t.ensure_child("b");
    t.ensure_child("a");
    assert_eq!(t.children.len(), 2);
    t.create_child("a");
    assert_eq!(t.children.len(), 3);
    t.add_child(TsrgTrie::new());
    assert_eq!(t.children.len(), 4);
}

#[test]
fn class_lines_need_a_space() {
    assert!(reborn::tsrg_trie::class_line_has_space("a b/c"));
    assert!(!reborn::tsrg_trie::class_line_has_space("b/c"));
    assert!(reborn::tsrg_trie::class_line_has_space("\tb/c"));
    assert!(reborn::tsrg_trie::class_line_has_space("no slash"));
}
