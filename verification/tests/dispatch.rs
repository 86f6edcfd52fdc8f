use leon::cli_args::{parse_checked, Action};
use leon::lbt_dispatch::{dispatch, LbtCommand};
use leon::lbt_tree::root;

fn toks(v: &[&str]) -> Vec<String> {
    v.iter().map(|s| s.to_string()).collect()
}

#[test]
fn discover_flag_reaches_the_command() {
    let r = root();
    match parse_checked(&r, toks(&["discover", "--json"])).unwrap().unwrap() {
        Action::Run(node, parsed) => match dispatch(node, &parsed).unwrap() {
            LbtCommand::Discover { json } => assert!(json),
            _ => panic!("wrong command"),
        },
        Action::Help(_) => panic!("expected a command"),
    }
}

#[test]
fn image_values_reach_the_command() {
    let r = root();
    match parse_checked(&r, toks(&["w", "iso", "--rootfs", "/r", "--out=o.iso"])).unwrap().unwrap() {
        Action::Run(node, parsed) => match dispatch(node, &parsed).unwrap() {
            LbtCommand::ImageIso { rootfs, out, label } => {
                assert_eq!(rootfs.as_deref(), Some("/r"));
                assert_eq!(out.as_deref(), Some("o.iso"));
                assert_eq!(label, None);
            }
            _ => panic!("wrong command"),
        },
        Action::Help(_) => panic!("expected a command"),
    }
}

#[test]
fn a_namespace_is_not_a_command() {
    let r = root();
    match parse_checked(&r, toks(&["w"])).unwrap().unwrap() {
        Action::Help(node) => {
            let parsed = leon::cli_args::Parsed {
                path: vec!["w"],
                values: Vec::new(),
                bools: Vec::new(),
                positional: Vec::new(),
            };
            match dispatch(node, &parsed) {
                Err(e) => assert_eq!(e, "`w` is a namespace, not a command"),
                Ok(_) => panic!("a namespace ran"),
            }
        }
        Action::Run(..) => panic!("expected help"),
    }
}
