//! The lexer splits text into words and quoted chunks.

use elb_log_parser::lex::{Lexer, Tok};

fn toks(input: &str) -> Vec<String> {
    let mut lx = Lexer::new(input);
    let mut out: Vec<String> = Vec::new();
    while let Some((_, Tok::Text(s), _)) = lx.next() {
        out.push(s.to_string());
    }
    out
}

fn t(input: &str, expected: &[&str]) {
    let want: Vec<String> = expected.iter().map(|s| s.to_string()).collect();
    assert_eq!(toks(input), want);
}

#[test]
fn test_lexer() {
    t("", &[]);
    t("hi", &["hi"]);
    t(r#" abc "Hello, world!" yo hoho"#, &["abc", "\"Hello, world!\"", "yo", "hoho"]);
    t(r#"word"word"#, &["word\"word"]);
    t(r#"yolo "Swa\g \" ho" "quo"#, &["yolo", r#""Swa\g \" ho""#, r#""quo"#]);
    t(r#"yo\lo "Swa\g \" ho" "quo\"#, &[r#"yo\lo"#, r#""Swa\g \" ho""#, r#""quo\"#]);
}
