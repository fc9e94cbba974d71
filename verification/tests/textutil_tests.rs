use ltlive::parser::trim_code_block;
use ltlive::textutil::{parse_usize, render_dec, tokenize, trim, unsplit_ignoring_space};

#[test]
fn trim_strips_ascii_whitespace() {
    assert_eq!(trim("  a b \t\n"), "a b");
    assert_eq!(trim(""), "");
    assert_eq!(trim(" \t "), "");
}

#[test]
fn tokenize_drops_empty_and_whitespace_runs() {
    assert_eq!(tokenize("a  b"), vec!["a", "b"]);
    assert_eq!(tokenize(" a \t b "), vec!["a", "b"]);
    assert_eq!(tokenize(""), Vec::<String>::new());
    assert_eq!(tokenize("a\tb"), vec!["a\tb"]);
}

#[test]
fn unsplit_joins_with_single_spaces() {
    let toks: Vec<String> = vec!["a".to_string(), "b".to_string()];
    assert_eq!(unsplit_ignoring_space(&toks), "a b");
    assert_eq!(unsplit_ignoring_space(&[]), "");
}

#[test]
fn parse_usize_accepts_digits_only() {
    assert_eq!(parse_usize("0"), Some(0));
    assert_eq!(parse_usize("012"), Some(12));
    assert_eq!(parse_usize(""), None);
    assert_eq!(parse_usize("1a"), None);
    assert_eq!(parse_usize("-1"), None);
    assert_eq!(parse_usize("999999999999999999999999999999"), None);
}

#[test]
fn render_dec_writes_plain_decimal() {
    assert_eq!(render_dec(0), "0");
    assert_eq!(render_dec(42), "42");
    assert_eq!(render_dec(1000), "1000");
}

#[test]
fn trim_code_block_strips_fences_and_spaces() {
    assert_eq!(trim_code_block("``` hi ```"), "hi");
    assert_eq!(trim_code_block("```hi```"), "hi");
    assert_eq!(trim_code_block("``````"), "");
}
