use server_core::chat::{find_command, route, split_command};

#[test]
fn a_command_is_split_at_its_first_space() {
    let cmd = split_command("tp 10 20");
    assert_eq!(cmd.keyword, "tp");
    assert_eq!(cmd.args, "10 20");
}

#[test]
fn a_command_without_a_space_has_no_arguments() {
    let cmd = split_command("help");
    assert_eq!(cmd.keyword, "help");
    assert_eq!(cmd.args, "");
    let empty = split_command("");
    assert_eq!(empty.keyword, "");
    assert_eq!(empty.args, "");
}

#[test]
fn spaces_at_the_edges_are_kept() {
    let lead = split_command(" x");
    assert_eq!(lead.keyword, "");
    assert_eq!(lead.args, "x");
    let trail = split_command("say ");
    assert_eq!(trail.keyword, "say");
    assert_eq!(trail.args, "");
    let double = split_command("a  b");
    assert_eq!(double.keyword, "a");
    assert_eq!(double.args, " b");
}

#[test]
fn text_beyond_ascii_is_split_by_characters() {
    let cmd = split_command("grüße wörld ünd");
    assert_eq!(cmd.keyword, "grüße");
    assert_eq!(cmd.args, "wörld ünd");
}

#[test]
fn a_slash_and_more_is_a_command() {
    let cmd = route("/alias bob the builder").unwrap();
    assert_eq!(cmd.keyword, "alias");
    assert_eq!(cmd.args, "bob the builder");
    let bare = route("/x").unwrap();
    assert_eq!(bare.keyword, "x");
    assert_eq!(bare.args, "");
}

#[test]
fn anything_else_is_talk() {
    assert!(route("/").is_none());
    assert!(route("").is_none());
    assert!(route("hello /there").is_none());
    assert!(route(" /tp").is_none());
}

#[test]
fn a_keyword_is_found_where_it_first_stands() {
    let known = vec!["help".to_string(), "tp".to_string(), "alias".to_string(), "tp".to_string()];
    assert_eq!(find_command(&known, "help"), Some(0));
    assert_eq!(find_command(&known, "tp"), Some(1));
    assert_eq!(find_command(&known, "alias"), Some(2));
    assert_eq!(find_command(&known, "TP"), None);
    assert_eq!(find_command(&known, ""), None);
    assert_eq!(find_command(&Vec::new(), "help"), None);
}
