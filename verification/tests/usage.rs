use reattach::usage::usage;

#[test]
fn usage_block_has_three_lines() {
    assert_eq!(
        usage("reattach", "0.1.0", "Runs a command in the console of the parent"),
        "reattach 0.1.0\nRuns a command in the console of the parent.\nUsage: reattach [command]\n"
    );
}

#[test]
fn usage_block_of_empty_parts() {
    assert_eq!(usage("", "", ""), " \n.\nUsage:  [command]\n");
}

#[test]
fn usage_block_keeps_text_beyond_ascii() {
    assert_eq!(usage("d\u{e9}marre", "2", "\u{2192} lance"), "d\u{e9}marre 2\n\u{2192} lance.\nUsage: d\u{e9}marre [command]\n");
}
