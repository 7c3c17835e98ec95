use words_count::cursor::{Cursor, Ended, Span};
use words_count::CharKind;

fn nothing() -> Ended {
    Ended { word: None, unit: None }
}

#[test]
fn cursor_starts_between_words() {
    let cur = Cursor::start();
    assert_eq!(Cursor { in_word: false, dashes: 0, from: 0, pos: 0 }, cur);
    assert_eq!(None, cur.finish());
}

#[test]
fn plain_characters_open_a_word_and_the_end_closes_it() {
    let mut cur = Cursor::start();
    assert_eq!(nothing(), cur.advance(CharKind::Plain, 1));
    assert_eq!(nothing(), cur.advance(CharKind::Plain, 2));
    assert_eq!(Cursor { in_word: true, dashes: 0, from: 0, pos: 3 }, cur);
    assert_eq!(Some(Span { from: 0, to: 3 }), cur.finish());
}

#[test]
fn whitespace_closes_the_open_word() {
    let mut cur = Cursor::start();
    assert_eq!(nothing(), cur.advance(CharKind::Whitespace, 1));
    assert_eq!(nothing(), cur.advance(CharKind::Plain, 1));
    assert_eq!(
        Ended { word: Some(Span { from: 1, to: 2 }), unit: None },
        cur.advance(CharKind::Whitespace, 1)
    );
    assert_eq!(Cursor { in_word: false, dashes: 0, from: 3, pos: 3 }, cur);
    assert_eq!(None, cur.finish());
}

#[test]
fn a_single_dash_joins() {
    let mut cur = Cursor::start();
    assert_eq!(nothing(), cur.advance(CharKind::Plain, 1));
    assert_eq!(nothing(), cur.advance(CharKind::Dash, 1));
    assert_eq!(Cursor { in_word: true, dashes: 1, from: 0, pos: 2 }, cur);
    assert_eq!(nothing(), cur.advance(CharKind::Plain, 1));
    assert_eq!(Cursor { in_word: true, dashes: 0, from: 0, pos: 3 }, cur);
    assert_eq!(Some(Span { from: 0, to: 3 }), cur.finish());
}

#[test]
fn the_second_dash_closes_the_word_before_the_first() {
    let mut cur = Cursor::start();
    assert_eq!(nothing(), cur.advance(CharKind::Plain, 3));
    assert_eq!(nothing(), cur.advance(CharKind::Dash, 1));
    assert_eq!(
        Ended { word: Some(Span { from: 0, to: 3 }), unit: None },
        cur.advance(CharKind::Dash, 1)
    );
    assert_eq!(Cursor { in_word: false, dashes: 2, from: 5, pos: 5 }, cur);
    assert_eq!(nothing(), cur.advance(CharKind::Dash, 1));
    assert_eq!(Cursor { in_word: false, dashes: 3, from: 6, pos: 6 }, cur);
    assert_eq!(None, cur.finish());
    assert_eq!(nothing(), cur.advance(CharKind::Plain, 1));
    assert_eq!(Some(Span { from: 6, to: 7 }), cur.finish());
}

#[test]
fn a_cjk_character_closes_the_open_word_and_is_a_unit() {
    let mut cur = Cursor::start();
    assert_eq!(
        Ended { word: None, unit: Some(Span { from: 0, to: 3 }) },
        cur.advance(CharKind::Cjk, 3)
    );
    assert_eq!(nothing(), cur.advance(CharKind::Plain, 1));
    assert_eq!(nothing(), cur.advance(CharKind::Dash, 1));
    assert_eq!(
        Ended { word: Some(Span { from: 3, to: 5 }), unit: Some(Span { from: 5, to: 8 }) },
        cur.advance(CharKind::Cjk, 3)
    );
    assert_eq!(Cursor { in_word: false, dashes: 0, from: 8, pos: 8 }, cur);
}
