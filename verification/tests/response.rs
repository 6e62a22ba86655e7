use neco::logic::response::strip_markdown_code_block;
use neco::text::{str_eq, trim, trim_start};

#[test]
fn test_strip_markdown_code_block_plain_unchanged() {
    let s = r#"{"x":1}"#;
    assert_eq!(strip_markdown_code_block(s), s);
}

#[test]
fn strip_removes_json_fence() {
    let wrapped = "```json\n{\"a\":1}\n```";
    assert_eq!(strip_markdown_code_block(wrapped), "{\"a\":1}");
}

#[test]
fn strip_removes_fence_without_tag() {
    assert_eq!(strip_markdown_code_block("```\nls -la\n```"), "ls -la");
}

#[test]
fn strip_tag_is_case_insensitive() {
    assert_eq!(strip_markdown_code_block("```JSON\n{}\n```"), "{}");
    assert_eq!(strip_markdown_code_block("```Json {}```"), "{}");
}

#[test]
fn strip_trims_surroundings() {
    assert_eq!(strip_markdown_code_block("  \n plain text \t\n"), "plain text");
    assert_eq!(strip_markdown_code_block("   ```json\n  x  \n```   "), "x");
}

#[test]
fn strip_uses_last_closing_fence_on_its_own_line() {
    let s = "```\na\n```\nb\n```";
    assert_eq!(strip_markdown_code_block(s), "a\n```\nb");
}

#[test]
fn strip_falls_back_to_first_bare_fence() {
    assert_eq!(strip_markdown_code_block("```json {\"k\":2}``` trailing"), "{\"k\":2}");
}

#[test]
fn strip_unclosed_fence_keeps_rest() {
    assert_eq!(strip_markdown_code_block("```json\n{\"k\":3}"), "{\"k\":3}");
}

#[test]
fn strip_handles_multibyte_text() {
    assert_eq!(strip_markdown_code_block("```json\n説明です\n```"), "説明です");
    assert_eq!(strip_markdown_code_block("　全角　"), "全角");
}

#[test]
fn strip_result_is_already_stripped() {
    let once = strip_markdown_code_block("```json\n  {\"v\":true}  \n```");
    assert_eq!(strip_markdown_code_block(once), once);
}

#[test]
fn trim_helpers_match_std() {
    for s in ["", "  ", " a b ", "\n\tx\r\n", "　x　", "abc"] {
        assert_eq!(trim(s), s.trim());
        assert_eq!(trim_start(s), s.trim_start());
    }
}

#[test]
fn str_eq_compares_characters() {
    assert!(str_eq("abc", "abc"));
    assert!(!str_eq("abc", "abd"));
    assert!(!str_eq("abc", "ab"));
    assert!(str_eq("", ""));
}

#[test]
fn strip_result_is_a_piece_of_the_input() {
    for s in ["```json\n{\"a\":1}\n```", "  x ", "```\n```", "```JSON  y``` z", "plain"] {
        assert!(s.contains(strip_markdown_code_block(s)));
    }
}

#[test]
fn strip_ignores_surrounding_whitespace() {
    for s in ["\n```json\n{}\n```\n", "  abc  ", "\t```\nq\n```"] {
        assert_eq!(strip_markdown_code_block(s.trim()), strip_markdown_code_block(s));
    }
}

#[test]
fn strip_never_returns_the_opening_fence() {
    let s = "```json\n{\"k\":1}\n```";
    let r = strip_markdown_code_block(s);
    assert!(!r.starts_with("```"));
    assert_eq!(r, "{\"k\":1}");
}

#[test]
fn strip_accepts_any_multibyte_text_after_the_fence() {
    assert_eq!(strip_markdown_code_block("```ab日"), "ab日");
    assert_eq!(strip_markdown_code_block("```あいう"), "あいう");
    assert_eq!(strip_markdown_code_block("```jsoあ\n```"), "jsoあ");
}

#[test]
fn whitespace_matches_std_for_every_char() {
    for u in 0u32..=0x10FFFF {
        if let Some(c) = char::from_u32(u) {
            assert_eq!(neco::text::is_whitespace(c), c.is_whitespace(), "{u:#x}");
        }
    }
}

#[test]
fn json_fence_round_trip() {
    for s in ["{\"a\":1}", "", "x\n```y", "多バイト"] {
        assert_eq!(strip_markdown_code_block(&format!("```json\n{s}\n```")), s);
    }
}

#[test]
fn text_after_closing_fence_is_ignored() {
    let s = "{\"b\":2}";
    for tail in ["", " trailing words", "\n\nmore ``` text", "``"] {
        assert_eq!(
            strip_markdown_code_block(&format!("```json\n{s}\n```{tail}")),
            strip_markdown_code_block(&format!("```json\n{s}\n```"))
        );
    }
}
