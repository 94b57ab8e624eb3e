use espresso::grammar::parser::{block, expr};
use espresso::grammar::scan::{chars_of, Source};

#[test]
fn characters_of_a_text() {
    assert_eq!(chars_of(""), Vec::<char>::new());
    assert_eq!(chars_of("a b"), vec!['a', ' ', 'b']);
    assert_eq!(chars_of("h\u{e9}!\u{4e16}"), vec!['h', '\u{e9}', '!', '\u{4e16}']);
}

#[test]
fn source_counts_characters_not_bytes() {
    let src = Source::new("h\u{e9}llo");
    assert_eq!(src.len(), 5);
    assert_eq!(src.at(1), '\u{e9}');
    assert_eq!(src.at(4), 'o');
    assert_eq!(src.slice(1, 3), "\u{e9}l");
    assert_eq!(src.slice(2, 2), "");
    let ascii = Source::new("hello");
    assert_eq!(ascii.len(), 5);
    assert_eq!(ascii.slice(1, 3), "el");
    assert_eq!(ascii.slice(0, 5), "hello");
}

#[test]
fn blanks_are_skipped_to_the_first_other_character() {
    let src = Source::new("  \n\t x ");
    assert_eq!(src.blanks(0), 5);
    assert_eq!(src.blanks(3), 5);
    assert_eq!(src.blanks(5), 5);
    assert_eq!(src.blanks(6), 7);
    assert_eq!(src.blanks(7), 7);
    // a carriage return is no blank
    assert_eq!(Source::new(" \r ").blanks(0), 1);
}

#[test]
fn letters_are_skipped_to_the_first_other_character() {
    let src = Source::new("ab_Z9c");
    assert_eq!(src.letters(0), 4);
    assert_eq!(src.letters(4), 4);
    assert_eq!(src.letters(5), 6);
    assert_eq!(src.letters(6), 6);
}

#[test]
fn symbol_matches_one_character() {
    let src = Source::new("(a)");
    assert_eq!(src.symbol(0, '('), Some(1));
    assert_eq!(src.symbol(0, ')'), None);
    assert_eq!(src.symbol(2, ')'), Some(3));
    assert_eq!(src.symbol(3, ')'), None);
}

#[test]
fn word_matches_all_its_characters() {
    let src = Source::new("if else");
    assert_eq!(src.word(0, "if"), Some(2));
    assert_eq!(src.word(0, "i"), Some(1));
    assert_eq!(src.word(0, "ix"), None);
    assert_eq!(src.word(3, "else"), Some(7));
    assert_eq!(src.word(4, "else"), None);
    assert_eq!(src.word(7, "e"), None);
    assert_eq!(src.word(7, ""), Some(7));
}

#[test]
fn ident_is_a_run_of_letters() {
    let src = Source::new("ab_c1 d");
    let (name, next) = src.ident(0).unwrap();
    assert_eq!(name.as_str(), "ab_c");
    assert_eq!(next, 4);
    assert!(src.ident(4).is_none());
    assert!(src.ident(5).is_none());
    let (name, next) = src.ident(6).unwrap();
    assert_eq!(name.as_str(), "d");
    assert_eq!(next, 7);
    assert!(src.ident(7).is_none());
}

#[test]
fn integer_is_a_run_of_digits_that_fits() {
    let src = Source::new("0 0012 9223372036854775807 9223372036854775808 x");
    assert_eq!(src.integer(0), Some((0, 1)));
    assert_eq!(src.integer(1), None);
    assert_eq!(src.integer(2), Some((12, 6)));
    assert_eq!(src.integer(7), Some((i64::MAX, 26)));
    assert_eq!(src.integer(27), None);
    assert_eq!(src.integer(45), Some((8, 46)));
    assert_eq!(src.integer(47), None);
}

#[test]
fn expression_is_read_up_to_what_does_not_belong_to_it() {
    let src = Source::new(" 1 + 2 ; rest");
    let (_, next) = expr(&src, 0).unwrap();
    assert_eq!(next, 7);
    assert!(expr(&src, 7).is_none());
    let src = Source::new("f(1) g");
    let (_, next) = expr(&src, 0).unwrap();
    assert_eq!(next, 5);
}

#[test]
fn block_is_read_from_brace_to_brace() {
    let src = Source::new("{ 1; 2 } x");
    let (b, next) = block(&src, 0).unwrap();
    assert_eq!(next, 8);
    assert_eq!(b.exprs.len(), 2);
    assert!(!b.trailing_semi);
    assert!(block(&src, 1).is_none());
    // blanks before the brace are not the block's
    assert!(block(&Source::new(" {}"), 0).is_none());
}
