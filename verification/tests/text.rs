use edgerouter_scripts::text::trimmed;

#[test]
fn trimmed_drops_surrounding_whitespace() {
    assert_eq!(trimmed("  a b \n"), "a b");
    assert_eq!(trimmed("\t\u{3000}x\u{a0}"), "x");
    assert_eq!(trimmed("   "), "");
}
