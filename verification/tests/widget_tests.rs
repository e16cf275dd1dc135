use gruff_plot::widgets::bag::{widget_under_pointer, WidgetBag, WidgetKind};
use gruff_plot::widgets::cursor::{char_len, move_to, settle, TextCursor};
use gruff_plot::widgets::mouse::{MouseButtonId, MouseEvent, MouseInput, MouseTracker};
use gruff_plot::widgets::text_box::{deletion_bounds, KeyInput, TextBoxWidget};
use gruff_plot::widgets::zoom_axis::ZoomAxis;

fn bag(kinds: &[WidgetKind]) -> WidgetBag {
    let mut b = WidgetBag::new();
    for k in kinds {
        match k {
            WidgetKind::TextBox => { b.add_text_box(); }
            WidgetKind::Plot => { b.add_plot(); }
            WidgetKind::Button => { b.add_button(); }
            WidgetKind::Label => { b.add_label(); }
        }
    }
    b
}

#[test]
fn focus_moves_to_next_text_box() {
    let mut b = bag(&[WidgetKind::TextBox, WidgetKind::Button, WidgetKind::TextBox, WidgetKind::Plot]);
    b.advance_focus(1);
    assert_eq!(b.focus, 2);
    b.advance_focus(1);
    assert_eq!(b.focus, 0);
    b.advance_focus(-1);
    assert_eq!(b.focus, 2);
}

#[test]
fn focus_stays_without_other_text_box() {
    let mut b = bag(&[WidgetKind::Button, WidgetKind::TextBox, WidgetKind::Label]);
    b.focus = 1;
    b.advance_focus(1);
    assert_eq!(b.focus, 1);
    let mut empty = WidgetBag::new();
    empty.advance_focus(1);
    assert_eq!(empty.focus, 0);
}

#[test]
fn focus_forward_then_back_returns() {
    let mut b = bag(&[WidgetKind::TextBox, WidgetKind::Plot, WidgetKind::TextBox, WidgetKind::TextBox]);
    b.focus = 2;
    b.advance_focus(1);
    b.advance_focus(-1);
    assert_eq!(b.focus, 2);
}

#[test]
fn click_focuses_first_hit_text_box() {
    let mut b = bag(&[WidgetKind::Button, WidgetKind::TextBox, WidgetKind::TextBox]);
    b.focus_clicked(&[true, false, true]);
    assert_eq!(b.focus, 2);
    b.focus_clicked(&[true, false, false]);
    assert_eq!(b.focus, 2);
}

#[test]
fn bag_add_and_pop() {
    let mut b = WidgetBag::new();
    assert_eq!(b.add_button(), 0);
    assert_eq!(b.add_text_box(), 1);
    assert_eq!(b.len(), 2);
    assert_eq!(b.kind(1), Some(WidgetKind::TextBox));
    assert_eq!(b.kind(2), None);
    assert_eq!(b.pop(), Some(WidgetKind::TextBox));
    assert_eq!(b.pop(), Some(WidgetKind::Button));
    assert_eq!(b.pop(), None);
    assert!(WidgetKind::TextBox.want_focus());
    assert!(!WidgetKind::Plot.want_focus());
}

#[test]
fn zoom_axis_cycles() {
    let z = ZoomAxis::Both;
    assert!(z.has_x() && z.has_y());
    assert_eq!(z.next().next().next(), z);
    assert!(z.next().has_x() != z.next().has_y());
}

#[test]
fn char_lengths() {
    assert_eq!(char_len('a'), 1);
    assert_eq!(char_len('é'), 2);
    assert_eq!(char_len('€'), 3);
    assert_eq!(char_len('😀'), 4);
}

#[test]
fn cursor_moves_by_grapheme() {
    // "e" followed by a combining acute accent is one glyph of three bytes.
    let text = "e\u{301}x";
    let mut c = TextCursor::new(text, 0);
    assert_eq!(c.move_glyph(text, 1), 3);
    assert_eq!(c.move_glyph(text, 1), 4);
    assert_eq!(c.move_glyph(text, 1), 4);
    assert_eq!(c.move_glyph(text, -1), 3);
    assert_eq!(c.move_glyph(text, -1), 0);
    assert_eq!(c.try_move_glyph(text, -1), Some(0));
}

#[test]
fn cursor_inside_cluster_moves_on() {
    let text = "e\u{301}x";
    let c = TextCursor::new(text, 1);
    assert_eq!(c.pos(), 3);
}

#[test]
fn cursor_skips_words() {
    let text = "foo, bar";
    let mut c = TextCursor::new(text, 0);
    assert_eq!(c.move_glyph_run(text, 1, true), 3);
    assert_eq!(c.move_glyph_run(text, 1, false), 5);
    assert_eq!(c.move_glyph_run(text, -1, false), 3);
    assert_eq!(c.move_glyph_run(text, -1, true), 0);
}

#[test]
fn text_box_starts_at_end() {
    let b = TextBoxWidget::new("hello");
    assert_eq!(b.get_text(), "hello");
    assert_eq!(b.cursor_pos(), 5);
    assert!(b.editable);
    assert!(b.want_focus());
    let r = TextBoxWidget::new("x").read_only();
    assert!(!r.editable);
    assert_eq!(r.get_text(), "x");
}

#[test]
fn insert_then_backspace_restores() {
    let mut b = TextBoxWidget::new("hello");
    b.move_cursor(-1);
    assert_eq!(b.cursor_pos(), 4);
    assert!(b.insert_char('X'));
    assert_eq!(b.get_text(), "hellXo");
    assert_eq!(b.cursor_pos(), 5);
    assert!(b.delete_char(-1));
    assert_eq!(b.get_text(), "hello");
    assert_eq!(b.cursor_pos(), 4);
}

#[test]
fn backspace_then_insert_restores() {
    let mut b = TextBoxWidget::new("abc");
    assert!(b.delete_char(-1));
    assert_eq!(b.get_text(), "ab");
    assert!(b.insert_char('c'));
    assert_eq!(b.get_text(), "abc");
    assert_eq!(b.cursor_pos(), 3);
}

#[test]
fn delete_forward_keeps_cursor() {
    let mut b = TextBoxWidget::new("abc");
    b.set_cursor_pos(1);
    assert!(b.delete_char(1));
    assert_eq!(b.get_text(), "ac");
    assert_eq!(b.cursor_pos(), 1);
}

#[test]
fn delete_at_the_ends_does_nothing() {
    let mut b = TextBoxWidget::new("abc");
    assert!(!b.delete_char(1));
    b.set_cursor_pos(0);
    assert!(!b.delete_char(-1));
    assert!(!b.delete_char(0));
    assert_eq!(b.get_text(), "abc");
    assert_eq!(b.cursor_pos(), 0);
}

#[test]
fn backspace_deletes_a_whole_glyph() {
    let mut b = TextBoxWidget::new("ae\u{301}");
    assert!(b.delete_char(-1));
    assert_eq!(b.get_text(), "a");
    assert_eq!(b.cursor_pos(), 1);
}

#[test]
fn insert_before_combining_mark_joins_it() {
    let mut b = TextBoxWidget::new("\u{301}");
    b.set_cursor_pos(0);
    assert!(b.insert_char('e'));
    assert_eq!(b.get_text(), "e\u{301}");
    assert_eq!(b.cursor_pos(), 3);
    assert!(b.delete_char(-1));
    assert_eq!(b.get_text(), "");
}

#[test]
fn move_right_then_left_returns() {
    let mut b = TextBoxWidget::new("ae\u{301}b");
    b.set_cursor_pos(1);
    b.move_cursor(1);
    assert_eq!(b.cursor_pos(), 4);
    b.move_cursor(-1);
    assert_eq!(b.cursor_pos(), 1);
}

#[test]
fn set_cursor_inside_cluster_moves_on() {
    let mut b = TextBoxWidget::new("e\u{301}x");
    b.set_cursor_pos(1);
    assert_eq!(b.cursor_pos(), 3);
}

#[test]
fn set_text_moves_cursor_to_end() {
    let mut b = TextBoxWidget::new("abc");
    b.set_cursor_pos(0);
    b.set_text("xy€");
    assert_eq!(b.get_text(), "xy€");
    assert_eq!(b.cursor_pos(), 5);
}

#[test]
fn word_moves() {
    let mut b = TextBoxWidget::new("foo bar, baz");
    b.move_cursor_word(-1);
    assert_eq!(b.cursor_pos(), 9);
    b.move_cursor_word(-1);
    assert_eq!(b.cursor_pos(), 4);
    b.move_cursor_word(1);
    assert_eq!(b.cursor_pos(), 7);
    b.move_cursor_word(1);
    assert_eq!(b.cursor_pos(), 12);
}

#[test]
fn paste_first_line() {
    let mut b = TextBoxWidget::new("abc");
    assert!(b.paste("de\nfg"));
    assert_eq!(b.get_text(), "abcde");
    assert_eq!(b.cursor_pos(), 5);
    b.set_cursor_pos(1);
    assert!(b.paste("€"));
    assert_eq!(b.get_text(), "a€bcde");
    assert_eq!(b.cursor_pos(), 4);
}

#[test]
fn paste_of_nothing() {
    let mut b = TextBoxWidget::new("abc");
    assert!(!b.paste(""));
    assert!(!b.paste("\r\nxyz"));
    assert_eq!(b.get_text(), "abc");
    assert_eq!(b.cursor_pos(), 3);
}

#[test]
fn focus_past_the_end_counts_round() {
    let mut b = bag(&[WidgetKind::Button, WidgetKind::TextBox, WidgetKind::TextBox]);
    b.focus = 7;
    b.advance_focus(1);
    assert_eq!(b.focus, 2);
    b.focus = 6;
    b.advance_focus(-1);
    assert_eq!(b.focus, 2);
}

#[test]
fn cursor_settling_and_moving() {
    assert_eq!(settle(4, true, Some(9)), 4);
    assert_eq!(settle(4, false, Some(9)), 9);
    assert_eq!(settle(4, false, None), 4);
    assert_eq!(move_to(3, Some(1)), 1);
    assert_eq!(move_to(3, None), 3);
}

#[test]
fn deletion_spans_by_direction() {
    assert_eq!(deletion_bounds(-1, 5, 2), (2, 5));
    assert_eq!(deletion_bounds(1, 5, 8), (5, 8));
}

fn input(left: bool, right: bool, moved: bool, wheel: bool) -> MouseInput {
    MouseInput { left_down: left, middle_down: false, right_down: right, moved, wheel_turned: wheel }
}

#[test]
fn mouse_press_drag_release() {
    let mut m = MouseTracker::new();
    assert_eq!(m.update(&input(true, true, false, false)), MouseEvent::Down(MouseButtonId::Left));
    assert_eq!(m.button_down, Some(MouseButtonId::Left));
    assert_eq!(m.update(&input(true, false, false, true)), MouseEvent::Nothing);
    assert_eq!(m.update(&input(true, false, true, false)), MouseEvent::Drag(MouseButtonId::Left));
    assert_eq!(m.update(&input(false, true, true, false)), MouseEvent::Up(MouseButtonId::Left));
    assert_eq!(m.button_down, None);
    assert_eq!(m.update(&input(false, true, false, false)), MouseEvent::Down(MouseButtonId::Right));
}

#[test]
fn mouse_wheel_only_without_buttons() {
    let mut m = MouseTracker::new();
    assert_eq!(m.update(&input(false, false, true, true)), MouseEvent::Wheel);
    assert_eq!(m.update(&input(false, false, true, false)), MouseEvent::Nothing);
    assert_eq!(m.button_down, None);
}

#[test]
fn cursor_moves_while_test_holds() {
    let text = "aae\u{301}bc";
    let mut c = TextCursor::new(text, 0);
    let vowel = |g: &str| g.starts_with('a') || g.starts_with('e');
    assert_eq!(c.move_glyph_while(text, 1, vowel), 5);
    assert_eq!(c.move_glyph_while(text, 0, vowel), 5);
    assert_eq!(c.move_glyph_while(text, -1, |g: &str| g.chars().count() == 2), 2);
    assert_eq!(c.move_glyph_while(text, -1, |_g: &str| true), 0);
    assert_eq!(c.move_glyph_while(text, 1, |_g: &str| true), text.len());
}

#[test]
fn control_characters_are_glyphs_of_their_own() {
    let mut b = TextBoxWidget::new("a\tb\nc");
    b.set_cursor_pos(2);
    assert!(b.insert_char('\x07'));
    assert_eq!(b.get_text(), "a\t\x07b\nc");
    assert_eq!(b.cursor_pos(), 3);
    assert!(b.delete_char(-1));
    assert_eq!(b.get_text(), "a\tb\nc");
    assert_eq!(b.cursor_pos(), 2);
}

#[test]
fn carriage_return_joins_line_feed() {
    let mut b = TextBoxWidget::new("a\r\n");
    b.move_cursor(-1);
    assert_eq!(b.cursor_pos(), 1);
}

#[test]
fn ascii_word_moves_skip_punctuation() {
    let mut b = TextBoxWidget::new("x = y1 + z");
    b.move_cursor_word(-1);
    assert_eq!(b.cursor_pos(), 9);
    b.move_cursor_word(-1);
    assert_eq!(b.cursor_pos(), 4);
}

#[test]
fn pointer_is_over_first_hit_widget() {
    assert_eq!(widget_under_pointer(&[false, true, true]), Some(1));
    assert_eq!(widget_under_pointer(&[false, false]), None);
    assert_eq!(widget_under_pointer(&[]), None);
}

fn no_keys() -> KeyInput {
    KeyInput {
        left: false, right: false, home: false, end: false,
        ctrl_left: false, ctrl_right: false, ctrl_a: false, ctrl_e: false, ctrl_d: false,
        backspace: false, delete: false, ch: None, ctrl_c: false, ctrl_v: false,
    }
}

#[test]
fn keys_edit_a_focused_box() {
    let mut b = TextBoxWidget::new("abc");
    let out = b.handle_keys(true, &KeyInput { left: true, ch: Some('X'), ..no_keys() }, None);
    assert!(out.changed);
    assert!(out.copied.is_none());
    assert_eq!(b.get_text(), "abXc");
    assert_eq!(b.cursor_pos(), 3);
    let out = b.handle_keys(true, &KeyInput { home: true, delete: true, ..no_keys() }, None);
    assert!(out.changed);
    assert_eq!(b.get_text(), "bXc");
    assert_eq!(b.cursor_pos(), 0);
}

#[test]
fn keys_ignored_unless_focused_and_editable() {
    let mut b = TextBoxWidget::new("abc");
    let out = b.handle_keys(false, &KeyInput { backspace: true, ..no_keys() }, None);
    assert!(!out.changed);
    assert_eq!(b.get_text(), "abc");
    let mut r = TextBoxWidget::new("abc").read_only();
    assert!(!r.handle_keys(true, &KeyInput { backspace: true, ..no_keys() }, None).changed);
    assert_eq!(r.get_text(), "abc");
}

#[test]
fn keys_copy_and_paste() {
    let mut b = TextBoxWidget::new("ab");
    let out = b.handle_keys(true, &KeyInput { ctrl_c: true, ctrl_v: true, ..no_keys() }, Some("cd\nef"));
    assert!(out.changed);
    assert_eq!(out.copied.as_deref(), Some("ab"));
    assert_eq!(b.get_text(), "abcd");
    assert_eq!(b.cursor_pos(), 4);
    let out = b.handle_keys(true, &KeyInput { ctrl_v: true, ctrl_e: true, ctrl_d: true, ..no_keys() }, Some("\nx"));
    assert!(!out.changed);
    assert_eq!(b.get_text(), "abcd");
}
