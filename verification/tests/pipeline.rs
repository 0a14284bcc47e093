use text_wrench::operations::text_operations::TextOperations;
use text_wrench::pipeline::{perform_conversions, trim_end};

fn run(source: &str, ids: &[&str]) -> String {
    let operations = TextOperations::new();
    perform_conversions(
        &operations,
        String::from(source),
        ids.iter().map(|id| String::from(*id)).collect(),
    )
}

#[test]
fn trim_end_removes_trailing_white_space_only() {
    for text in ["", " ", "abc", "abc \n\t", "  abc  ", "a b\u{3000}\u{a0}\u{2028}", "\u{200b} ", "x\u{85}"] {
        assert_eq!(trim_end(text), text.trim_end());
    }
    assert_eq!(trim_end("  abc \r\n"), "  abc");
}

#[test]
fn blank_input_gives_nothing() {
    assert_eq!(run("", &["TO_HEX"]), "");
    assert_eq!(run(" \n\t ", &["TO_HEX", "TO_BASE64"]), "");
    assert_eq!(run("\u{3000}", &["FROM_HEX"]), "");
    assert_eq!(run("  ", &[]), "");
}

#[test]
fn an_unknown_identifier_leaves_the_trimmed_input() {
    assert_eq!(run("abc  \n", &["some unknown operation type"]), "abc");
    assert_eq!(run("  abc", &["NONE"]), "  abc");
    assert_eq!(run("abc ", &[]), "abc");
}

#[test]
fn operations_run_from_left_to_right() {
    assert_eq!(run("ab\n", &["UPPER_CASE", "TO_HEX"]), "4142");
    assert_eq!(run("ab", &["TO_HEX", "UPPER_CASE"]), "6162");
    assert_eq!(run("6a", &["UPPER_CASE", "FROM_HEX", "TO_LONG_HEX"]), "0x6a");
    assert_eq!(run("a b", &["URL_ENCODE", "TO_BASE64", "FROM_BASE64", "URL_DECODE"]), "a b");
    assert_eq!(run("h\u{e9}", &["TO_HEX", "nothing", "FROM_HEX"]), "h\u{e9}");
    assert_eq!(run("av===> 1", &["TO_URL_BASE64"]), "YXY9PT0-IDE=");
}

#[test]
fn the_first_refusal_ends_the_run() {
    assert_eq!(run("4g", &["NONE", "FROM_HEX", "TO_HEX"]), "InvalidInputAtOffset(1)");
    assert_eq!(
        run("x4", &["LOWER_CASE", "FROM_HEX", "TO_BASE64"]),
        "InvalidInputError(\"invalid digit found in string\")"
    );
    let description = String::from_utf8(vec![0xff]).unwrap_err().to_string();
    assert_eq!(
        run("%ff", &["NONE", "URL_DECODE", "TO_HEX", "UPPER_CASE"]),
        format!("InvalidInputError({:?})", description)
    );
    assert_eq!(run("zz", &["FROM_HEX"]), "InvalidInputAtOffset(0)");
}

#[test]
fn base64_decode_never_ends_the_run() {
    assert_eq!(run("!!!!", &["FROM_BASE64", "UPPER_CASE"]), "INVALID SYMBOL 33, OFFSET 0.");
}
