use kleos::text::trim_str;

#[test]
fn trimming_matches_str_trim_and_is_idempotent() {
    for s in ["", " ", "a", " a ", "\t\n a b \r\n", "\u{3000}x\u{2009}", "\u{85}\u{a0}y\u{1680}", "\u{200b}z\u{200b}", "é "] {
        let once = trim_str(s);
        assert_eq!(once, s.trim(), "text {:?}", s);
        assert_eq!(trim_str(&once), once);
    }
}
