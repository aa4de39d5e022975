use inifrs::Inif;
use inifrs::InifTokens;

const SENTINEL: &str = "\"\"";

fn store(text: &str) -> Inif {
    let mut s = Inif::default();
    s.parse(text.to_string());
    s
}

fn get(s: &Inif, category: &str, key: &str) -> String {
    s.get(category.to_string(), key.to_string())
}

#[test]
fn end_to_end() {
    let s = store("[name]\nname=inifrs\n[projects]\ntest=ok\n");
    assert_eq!(get(&s, "name", "name"), "inifrs");
    assert_eq!(get(&s, "projects", "test"), "ok");
    assert_eq!(get(&s, "not", "found"), SENTINEL);
}

#[test]
fn unseen_pair_returns_sentinel() {
    let s = store("[a]\nx=1\n");
    assert_eq!(get(&s, "a", "x"), "1");
    assert_eq!(get(&s, "a", "y"), SENTINEL);
    assert_eq!(get(&s, "b", "x"), SENTINEL);
    assert_eq!(get(&s, "", ""), SENTINEL);
}

#[test]
fn empty_store_returns_sentinel() {
    let s = Inif::default();
    assert_eq!(get(&s, "a", "x"), SENTINEL);
}

#[test]
fn key_is_trimmed() {
    let s = store("[server]\n  port  =8080\n");
    assert_eq!(get(&s, "server", "port"), "8080");
}

#[test]
fn tab_trimmed_from_key() {
    let s = store("[a]\n\tk\t=v\n");
    assert_eq!(get(&s, "a", "k"), "v");
}

#[test]
fn trim_handles_unicode_white_space() {
    assert_eq!(inifrs::text::trim_string(&"\u{A0} k \u{3000}".to_string()), "k");
    assert_eq!(inifrs::text::trim_string(&"   ".to_string()), "");
    assert_eq!(inifrs::text::trim_string(&"ab".to_string()), "ab");
}

#[test]
fn unicode_space_trimmed_from_key_edges_only() {
    let s = store("[a]\n\u{A0}k\u{A0}=v\n");
    assert_eq!(get(&s, "a", "k"), "v");
    let t = store("[a]\nk\u{A0}m=w\n");
    assert_eq!(get(&t, "a", "k\u{a0}m"), "w");
    assert_eq!(get(&t, "a", "km"), SENTINEL);
}

#[test]
fn internal_key_spaces_stripped() {
    let s = store("[cat]\nmy key=v\n");
    assert_eq!(get(&s, "cat", "my key"), SENTINEL);
    assert_eq!(get(&s, "cat", "mykey"), "v");
}

#[test]
fn adjacent_same_name_merges() {
    let s = store("[a]\nx=1\n[a]\ny=2\n");
    assert_eq!(get(&s, "a", "x"), "1");
    assert_eq!(get(&s, "a", "y"), "2");
}

#[test]
fn separated_same_name_does_not_merge() {
    let s = store("[a]\nx=1\n[b]\nz=9\n[a]\ny=2\n");
    assert_eq!(get(&s, "a", "x"), "1");
    assert_eq!(get(&s, "b", "z"), "9");
    assert_eq!(get(&s, "a", "y"), SENTINEL);
}

#[test]
fn missing_trailing_newline_drops_entry() {
    let s = store("[a]\nx=1");
    assert_eq!(get(&s, "a", "x"), SENTINEL);
}

#[test]
fn parsing_twice_gives_equal_lookups() {
    let text = "[a]\nx=1\n[b]\ny= 2 \n[a]\nz=3\n";
    let s1 = store(text);
    let s2 = store(text);
    for (c, k) in [("a", "x"), ("a", "y"), ("a", "z"), ("b", "y"), ("b", "x"), ("c", "x")] {
        assert_eq!(get(&s1, c, k), get(&s2, c, k));
    }
}

#[test]
fn duplicate_key_overwrites() {
    let s = store("[a]\nk=1\nk=2\n");
    assert_eq!(get(&s, "a", "k"), "2");
}

#[test]
fn value_keeps_its_spaces() {
    let s = store("[a]\nk= v x \n");
    assert_eq!(get(&s, "a", "k"), " v x ");
}

#[test]
fn parse_accumulates_across_calls() {
    let mut s = Inif::default();
    s.parse("[a]\nx=1\n".to_string());
    s.parse("y=2\n".to_string());
    assert_eq!(s.get("a".to_string(), "x".to_string()), "1");
    assert_eq!(s.get("a".to_string(), "y".to_string()), "2");
}

#[test]
fn entries_before_any_category_are_dropped() {
    let s = store("x=1\n[a]\nk=v\n");
    assert_eq!(get(&s, "a", "k"), "v");
    assert_eq!(get(&s, "a", "x"), SENTINEL);
    assert_eq!(get(&s, "", "x"), SENTINEL);
}

#[test]
fn comment_marker_is_ordinary() {
    let s = store("[a]\n;c=1\n");
    assert_eq!(get(&s, "a", ";c"), "1");
    assert_eq!(get(&s, "a", "c"), SENTINEL);
}

#[test]
fn markers_inside_value_are_kept() {
    let s = store("[a]\nk=[v]=;\n");
    assert_eq!(get(&s, "a", "k"), "[v]=;");
}

#[test]
fn tokens_classify_characters() {
    assert!(matches!(InifTokens::to('['), InifTokens::CategoryStart));
    assert!(matches!(InifTokens::to(']'), InifTokens::CategoryEnd));
    assert!(matches!(InifTokens::to('='), InifTokens::Eq));
    assert!(matches!(InifTokens::to(';'), InifTokens::Comment));
    assert!(matches!(InifTokens::to('x'), InifTokens::Undef));
    assert!(matches!(InifTokens::to(' '), InifTokens::Undef));
    assert!(matches!(InifTokens::to('\n'), InifTokens::Undef));
}

#[test]
fn tokens_stand_for_characters() {
    assert_eq!(InifTokens::CategoryStart.val(), '[');
    assert_eq!(InifTokens::CategoryEnd.val(), ']');
    assert_eq!(InifTokens::Eq.val(), '=');
    assert_eq!(InifTokens::Comment.val(), ';');
    assert_eq!(InifTokens::Undef.val(), ' ');
    assert_eq!(InifTokens::to('q').val(), ' ');
}
