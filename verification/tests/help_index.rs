use leon::cmd_tree::{leaf, namespace, Flag, Node};
use leon::help_index::{alias_list_lines, help_all_lines};

fn flag(short: char, long: &'static str) -> Flag {
    Flag { short, long, value: false, doc: "" }
}

fn tree() -> Node<u8> {
    let log = namespace(
        "log",
        "Boot log",
        vec!["l"],
        Vec::new(),
        vec![
            leaf("show", "Show", vec!["s", "cat"], vec![flag('p', "path")], 1),
            leaf("clear", "Clear", Vec::new(), Vec::new(), 2),
        ],
    );
    let fs = namespace(
        "fs",
        "Files",
        Vec::new(),
        Vec::new(),
        vec![leaf("show", "Show", Vec::new(), vec![flag('a', "all"), flag('j', "json")], 3)],
    );
    namespace("tool", "Root", Vec::new(), Vec::new(), vec![log, fs, leaf("version", "Version", vec!["v"], Vec::new(), 4)])
}

#[test]
fn help_all_sorts_leaves_and_aligns_flags() {
    let lines = help_all_lines(&tree(), "tool 1.0");
    assert_eq!(
        lines,
        vec![
            "tool 1.0",
            "",
            "  clear",
            "  show     -a/--all -j/--json",
            "  show     -p/--path",
            "  version",
        ]
    );
}

#[test]
fn alias_list_shows_paths_and_count() {
    let lines = alias_list_lines(&tree());
    assert_eq!(
        lines,
        vec!["  log       l", "  log show  s, cat", "  version   v", "", "3 commands have aliases"]
    );
}

#[test]
fn alias_list_of_a_tree_without_aliases() {
    let t = namespace("t", "", Vec::new(), Vec::new(), vec![leaf("a", "", Vec::new(), Vec::new(), 0u8)]);
    assert_eq!(alias_list_lines(&t), vec!["no aliases declared"]);
}
