use maggedik::text::{range_eq, to_chars};
use maggedik::words::{line_contains, rewrite_line, word_end};

#[test]
fn contains_finds_the_keyword_anywhere() {
    let line = to_chars("concatenate");
    assert!(line_contains(&line, &to_chars("cat")));
    assert!(line_contains(&line, &to_chars("con")));
    assert!(line_contains(&line, &to_chars("nate")));
    assert!(line_contains(&line, &to_chars("concatenate")));
    assert!(!line_contains(&line, &to_chars("cats")));
    assert!(!line_contains(&line, &to_chars("concatenated")));
    assert!(!line_contains(&line, &to_chars("Cat")));
}

#[test]
fn contains_with_empty_texts() {
    assert!(line_contains(&to_chars("abc"), &to_chars("")));
    assert!(line_contains(&to_chars(""), &to_chars("")));
    assert!(!line_contains(&to_chars(""), &to_chars("a")));
}

#[test]
fn contains_finds_a_keyword_with_whitespace() {
    assert!(line_contains(&to_chars("the cat sat"), &to_chars("cat sat")));
    assert!(line_contains(&to_chars("aab"), &to_chars("ab")));
}

#[test]
fn range_eq_compares_a_stretch() {
    let line = to_chars("the cat");
    let cat = to_chars("cat");
    assert!(range_eq(&line, 4, 7, &cat));
    assert!(!range_eq(&line, 3, 7, &cat));
    assert!(!range_eq(&line, 4, 6, &cat));
    assert!(!range_eq(&line, 0, 3, &cat));
    assert!(range_eq(&line, 2, 2, &to_chars("")));
}

#[test]
fn word_end_stops_at_whitespace_or_at_the_end() {
    let line = to_chars("ab cd\tef");
    assert_eq!(word_end(&line, 0), 2);
    assert_eq!(word_end(&line, 1), 2);
    assert_eq!(word_end(&line, 2), 2);
    assert_eq!(word_end(&line, 3), 5);
    assert_eq!(word_end(&line, 6), 8);
    assert_eq!(word_end(&line, 8), 8);
}

#[test]
fn word_end_knows_the_five_whitespace_characters() {
    for gap in [' ', '\t', '\n', '\x0C', '\r'] {
        let line = vec!['a', gap, 'b'];
        assert_eq!(word_end(&line, 0), 1);
    }
    // A vertical tab and a no-break space are no ASCII whitespace.
    assert_eq!(word_end(&vec!['a', '\x0B', 'b'], 0), 3);
    assert_eq!(word_end(&vec!['a', '\u{A0}', 'b'], 0), 3);
}

#[test]
fn rewrite_exchanges_whole_words() {
    let kw = to_chars("cat");
    assert_eq!(rewrite_line(&to_chars("cat"), &kw, "dog"), "dog");
    assert_eq!(rewrite_line(&to_chars("a cat b"), &kw, "dog"), "a dog b");
    assert_eq!(rewrite_line(&to_chars("cat cat"), &kw, "dog"), "dog dog");
    assert_eq!(
        rewrite_line(&to_chars("cat concat cats cat"), &kw, "lion"),
        "lion concat cats lion"
    );
}

#[test]
fn rewrite_keeps_whitespace_as_it_is() {
    let kw = to_chars("cat");
    assert_eq!(
        rewrite_line(&to_chars("  cat \t cat\r"), &kw, "x"),
        "  x \t x\r"
    );
    assert_eq!(rewrite_line(&to_chars("   "), &kw, "x"), "   ");
    assert_eq!(rewrite_line(&to_chars(""), &kw, "x"), "");
}

#[test]
fn rewrite_without_a_whole_word_changes_nothing() {
    let kw = to_chars("cat");
    assert_eq!(rewrite_line(&to_chars("concatenate"), &kw, "dog"), "concatenate");
    assert_eq!(rewrite_line(&to_chars("cat,"), &kw, "dog"), "cat,");
    assert_eq!(rewrite_line(&to_chars("dogcat catdog"), &kw, "dog"), "dogcat catdog");
}

#[test]
fn rewrite_with_a_keyword_that_is_no_word() {
    assert_eq!(rewrite_line(&to_chars("a b"), &to_chars("a b"), "x"), "a b");
    assert_eq!(rewrite_line(&to_chars("a b"), &to_chars(""), "x"), "a b");
    assert_eq!(rewrite_line(&to_chars("a b"), &to_chars(" "), "x"), "a b");
}

#[test]
fn rewrite_to_nothing_and_to_more() {
    let kw = to_chars("cat");
    assert_eq!(rewrite_line(&to_chars("a cat b"), &kw, ""), "a  b");
    assert_eq!(rewrite_line(&to_chars("a cat b"), &kw, "cat\n"), "a cat\n b");
    assert_eq!(rewrite_line(&to_chars("a cat b"), &kw, "big cat"), "a big cat b");
}

#[test]
fn rewrite_to_the_keyword_changes_nothing() {
    let kw = to_chars("cat");
    assert_eq!(rewrite_line(&to_chars(" cat  cats cat"), &kw, "cat"), " cat  cats cat");
}

#[test]
fn rewrite_by_pieces_gives_the_rewritten_line() {
    let kw = to_chars("cat");
    let whole = rewrite_line(&to_chars("cat a \tcat"), &kw, "dog");
    let first = rewrite_line(&to_chars("cat a "), &kw, "dog");
    let second = rewrite_line(&to_chars("\tcat"), &kw, "dog");
    assert_eq!(whole, first + &second);
}

#[test]
fn chars_of_a_string() {
    assert_eq!(to_chars("bête"), vec!['b', 'ê', 't', 'e']);
    assert_eq!(to_chars(""), Vec::<char>::new());
    assert_eq!(to_chars("a\tb\n"), vec!['a', '\t', 'b', '\n']);
}
