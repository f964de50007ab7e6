use c_shell::tokenizer::tokenize;

fn words(items: &[&str]) -> Vec<String> {
    items.iter().map(|s| s.to_string()).collect()
}

#[test]
fn runs_of_spaces_separate_two_tokens() {
    assert_eq!(tokenize("  a   b  "), words(&["a", "b"]));
}

#[test]
fn empty_line_has_no_tokens() {
    assert_eq!(tokenize(""), words(&[]));
}

#[test]
fn blank_line_has_no_tokens() {
    assert_eq!(tokenize(" "), words(&[]));
    assert_eq!(tokenize(" \t \r\n"), words(&[]));
    assert_eq!(tokenize("\u{a0}\u{2003}\u{3000}"), words(&[]));
}

#[test]
fn single_word_is_one_token() {
    assert_eq!(tokenize("ls"), words(&["ls"]));
    assert_eq!(tokenize("ls\n"), words(&["ls"]));
    assert_eq!(tokenize("\tls"), words(&["ls"]));
}

#[test]
fn tokens_keep_their_order() {
    assert_eq!(tokenize("echo c b a"), words(&["echo", "c", "b", "a"]));
    assert_eq!(tokenize("gcc -o out main.c"), words(&["gcc", "-o", "out", "main.c"]));
}

#[test]
fn every_kind_of_white_space_separates() {
    assert_eq!(tokenize("a\tb\nc\rd\u{b}e\u{c}f"), words(&["a", "b", "c", "d", "e", "f"]));
    assert_eq!(tokenize("a\u{85}b\u{a0}c\u{1680}d"), words(&["a", "b", "c", "d"]));
    assert_eq!(tokenize("a\u{2000}b\u{200a}c\u{2028}d\u{2029}e"), words(&["a", "b", "c", "d", "e"]));
    assert_eq!(tokenize("a\u{202f}b\u{205f}c\u{3000}d"), words(&["a", "b", "c", "d"]));
}

#[test]
fn characters_that_only_look_like_space_do_not_separate() {
    assert_eq!(tokenize("a\u{200b}b"), words(&["a\u{200b}b"]));
    assert_eq!(tokenize("a\u{180e}b"), words(&["a\u{180e}b"]));
    assert_eq!(tokenize("a\u{feff}b"), words(&["a\u{feff}b"]));
    assert_eq!(tokenize("a\u{0}b"), words(&["a\u{0}b"]));
}

#[test]
fn quotes_are_ordinary_characters() {
    assert_eq!(tokenize("echo \"a b\" 'c d'"), words(&["echo", "\"a", "b\"", "'c", "d'"]));
}

#[test]
fn tokens_may_hold_any_other_character() {
    assert_eq!(tokenize(" héllo  wörld €"), words(&["héllo", "wörld", "€"]));
    assert_eq!(tokenize("$(X) a|b >c"), words(&["$(X)", "a|b", ">c"]));
}

#[test]
fn tokenize_agrees_with_the_standard_split() {
    let lines = [
        "",
        "a",
        " a",
        "a ",
        "  a   b  ",
        "\t\tx\ty\t",
        "one two three four five",
        " \u{2002}mixed\u{3000}width \u{a0} spaces\u{1680}",
        "tab\tand\nnewline\r\nand\u{c}feed",
        "no-break\u{a0}space",
        "trailing\u{85}",
    ];
    for line in lines {
        let expected: Vec<String> = line.split_whitespace().map(|s| s.to_string()).collect();
        assert_eq!(tokenize(line), expected, "line {:?}", line);
    }
}
