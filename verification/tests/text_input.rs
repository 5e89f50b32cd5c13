use grimoire::text_input::{
    next_word_boundary, previous_word_boundary, replace_content, Selection, TextInput,
};

fn range(start: usize, end: usize) -> Selection {
    Selection { start, end }
}

#[test]
fn stale_edit_range_is_clamped_after_submit() {
    let (content, cursor) = replace_content("", range(0, 20), "x");
    assert_eq!(content, "x");
    assert_eq!(cursor, 1);
    assert_eq!(replace_content("é", range(1, 2), "x").0, "x");
}

#[test]
fn word_navigation_crosses_unicode_and_whitespace() {
    let content = "hello  wørld";
    assert_eq!(previous_word_boundary(content, content.len()), 7);
    assert_eq!(previous_word_boundary(content, 7), 0);
    assert_eq!(next_word_boundary(content, 0), 7);
    assert_eq!(next_word_boundary(content, 7), content.len());
}

#[test]
fn typing_moves_the_cursor() {
    let mut line = TextInput::new("say something");
    assert_eq!(line.display(), "say something");
    line.replace_text_in_range(None, "héllo");
    assert_eq!(line.value(), "héllo");
    assert_eq!(line.cursor(), 6);
    line.left();
    line.left();
    line.backspace();
    assert_eq!(line.value(), "hélo");
    line.home();
    line.delete();
    assert_eq!(line.value(), "élo");
    line.right();
    assert_eq!(line.cursor(), 2);
    assert!(!line.is_char_boundary(1));
    line.end();
    assert_eq!(line.cursor(), 4);
}

#[test]
fn selections_are_replaced_copied_and_cut() {
    let mut line = TextInput::with_value("", "one two");
    line.select_all();
    assert_eq!(line.copied().as_deref(), Some("one two"));
    line.home();
    line.select_word_right();
    assert_eq!(line.cut().as_deref(), Some("one "));
    assert_eq!(line.value(), "two");
    assert_eq!(line.copied(), None);
    line.end();
    line.paste(" three");
    assert_eq!(line.value(), "two three");
    line.select_word_left();
    line.paste("four");
    assert_eq!(line.value(), "two four");
    line.select_home();
    line.backspace();
    assert_eq!(line.value(), "");
}

#[test]
fn what_is_undone_can_be_redone() {
    let mut line = TextInput::new("");
    line.paste("one");
    line.paste(" two");
    line.undo();
    assert_eq!(line.value(), "one");
    assert_eq!(line.cursor(), 3);
    line.undo();
    assert_eq!(line.value(), "");
    line.undo();
    assert_eq!(line.value(), "");
    line.redo();
    line.redo();
    assert_eq!(line.value(), "one two");
    line.undo();
    line.paste("!");
    line.redo();
    assert_eq!(line.value(), "one!");
}

#[test]
fn units_and_bytes_are_told_apart() {
    let line = TextInput::with_value("", "a😀é");
    let bytes = range(1, 5);
    let units = line.range_to_utf16(bytes);
    assert_eq!(units, range(1, 3));
    assert_eq!(line.range_from_utf16(units), bytes);
    assert_eq!(
        line.text_for_range(range(1, 3)),
        ("😀".to_owned(), range(1, 3))
    );
    assert_eq!(
        line.text_for_range(range(9, 4)),
        (String::new(), range(4, 4))
    );
}

#[test]
fn an_input_method_selects_in_what_it_composes() {
    let mut line = TextInput::with_value("", "ab");
    line.replace_and_mark_text_in_range(None, "kana", Some(range(1, 3)));
    assert_eq!(line.value(), "abkana");
    assert_eq!(line.marked, Some(range(2, 6)));
    assert_eq!(line.selected, range(3, 5));
    line.select_in_marked(range(0, 9));
    assert_eq!(line.selected, range(3, 5));
    line.select_in_marked(range(3, 1));
    assert_eq!(line.selected, range(3, 5));
    line.unmark_text();
    line.select_in_marked(range(0, 1));
    assert_eq!(line.selected, range(5, 6));
    line.select_in_marked(range(0, 0));
    assert_eq!(line.selected, range(6, 6));
}

#[test]
fn composed_text_stays_marked_until_it_is_done() {
    let mut line = TextInput::with_value("", "ab");
    line.replace_and_mark_text_in_range(None, "ka", None);
    assert_eq!(line.value(), "abka");
    assert_eq!(line.marked, Some(range(2, 4)));
    line.replace_and_mark_text_in_range(None, "か", None);
    assert_eq!(line.value(), "abか");
    assert_eq!(line.marked, Some(range(2, 5)));
    line.unmark_text();
    assert_eq!(line.marked, None);
}

#[test]
fn secrets_are_hidden() {
    let mut line = TextInput::password("passphrase");
    line.paste("sesam");
    assert_eq!(line.display(), "*****");
    line.select_all();
    assert_eq!(line.copied().as_deref(), Some("sesam"));
    assert_eq!(line.take(), "sesam");
    assert_eq!(line.value(), "");
}

#[test]
fn the_mouse_finds_the_character_that_it_is_over() {
    let mut empty = TextInput::new("a placeholder");
    empty.mouse_down(5);
    assert_eq!(empty.selected, range(0, 0));
    assert!(empty.selecting);
    let mut line = TextInput::with_value("", "aé😀");
    line.mouse_down(2);
    assert_eq!(line.selected, range(1, 1));
    line.mouse_move(6);
    assert_eq!(line.selected, range(1, 3));
    line.mouse_move(90);
    assert_eq!(line.selected, range(1, 7));
}

#[test]
fn the_mouse_selects_while_it_is_down() {
    let mut line = TextInput::with_value("", "hello");
    line.mouse_down(1);
    line.mouse_move(4);
    assert_eq!(line.selected, range(1, 4));
    line.mouse_up();
    line.mouse_move(0);
    assert_eq!(line.selected, range(1, 4));
    line.move_to(2);
    line.select_to(0);
    assert_eq!(line.selected, range(0, 2));
    assert_eq!(line.cursor(), 0);
    line.select_right();
    assert_eq!(line.selected, range(1, 2));
}
