use perseval_app::components::button::{button, button_state};
use perseval_app::components::text_input::{
    marked_selection, normalize_range, offset_from_utf16, offset_to_utf16, single_line_text,
    truncate_boundary,
};
use perseval_app::components::TextInput;
use perseval_app::design::Theme;

#[test]
fn truncation_preserves_utf8_boundaries() {
    assert_eq!(truncate_boundary("aéz", 2), "a");
    assert_eq!(truncate_boundary("aéz", 3), "aé");
}

#[test]
fn platform_ranges_are_clamped_to_valid_utf8() {
    assert_eq!(normalize_range("", 19..19), 0..0);
    assert_eq!(normalize_range("aéz", 2..99), 1..4);
    assert_eq!(offset_from_utf16("🚀a", 1), 0);
    assert_eq!(offset_from_utf16("🚀a", 2), 4);
    assert_eq!(offset_from_utf16("🚀a", 99), 5);
}

#[test]
fn multiline_clipboard_text_is_made_safe_for_single_line_filters() {
    assert_eq!(
        single_line_text("alpha\r\nbeta\ngamma"),
        "alpha  beta gamma"
    );
}

#[test]
fn ime_selection_offsets_are_relative_to_the_inserted_utf16_text() {
    assert_eq!(marked_selection(4, "🚀é", 0..2), 4..8);
    assert_eq!(marked_selection(4, "🚀é", 2..3), 8..10);
    assert_eq!(marked_selection(4, "🚀é", 99..99), 10..10);
}

#[test]
fn paste_replaces_selection_and_escape_clears_before_parent_shortcuts() {
    let mut input = TextInput::new("Filter".into(), 64);
    input.replace_text_in_range(None, "alpha");
    input.select_all();
    input.paste("βeta\nline");
    assert_eq!(input.text(), "βeta line");

    assert!(!input.clear_or_dismiss());
    assert!(input.text().is_empty());
    assert!(input.clear_or_dismiss());
}

#[test]
fn composition_marks_text_and_unmark_preserves_the_committed_value() {
    let mut input = TextInput::new("Filter".into(), 64);
    input.set_text("go ");
    input.replace_and_mark_text_in_range(None, "🚀", Some(2..2));
    assert_eq!(input.marked_text_range(), Some(3..5));
    assert_eq!(input.selected_text_range().0, 5..5);
    input.unmark_text();
    assert_eq!(input.text(), "go 🚀");
    assert_eq!(input.marked_text_range(), None);
}

#[test]
fn offsets_are_read_back() {
    for (bytes, units) in [(0, 0), (4, 2), (5, 3)] {
        assert_eq!(offset_to_utf16("🚀a", bytes), units);
        assert_eq!(offset_from_utf16("🚀a", units), bytes);
    }
}

#[test]
fn the_caret_moves_over_whole_graphemes() {
    let mut input = TextInput::new("Filter".into(), 64);
    input.set_text("ae\u{301}🇩🇪z");
    assert_eq!(input.cursor_offset(), 13);
    input.left();
    assert_eq!(input.cursor_offset(), 12);
    input.left();
    assert_eq!(input.cursor_offset(), 4);
    input.left();
    assert_eq!(input.cursor_offset(), 1);
    input.right();
    assert_eq!(input.cursor_offset(), 4);
    input.backspace();
    assert_eq!(input.text(), "a🇩🇪z");
    input.delete();
    assert_eq!(input.text(), "az");
}

#[test]
fn inserted_text_stops_at_the_limit() {
    let mut input = TextInput::new("Filter".into(), 4);
    input.replace_text_in_range(None, "ab");
    input.replace_text_in_range(None, "éé");
    assert_eq!(input.text(), "abé");
    input.home();
    input.select_right();
    assert_eq!(input.copy(), Some("a".to_string()));
    assert_eq!(input.cut(), Some("a".to_string()));
    assert_eq!(input.text(), "bé");
    assert_eq!(input.copy(), None);
    input.paste("a");
    assert_eq!(input.text(), "abé");
}

#[test]
fn an_empty_field_shows_its_placeholder() {
    let mut input = TextInput::new("Filter".into(), 8);
    assert!(input.display_plan().shows_placeholder);
    input.set_text("x");
    assert!(!input.display_plan().shows_placeholder);
    assert_eq!(input.placeholder(), "Filter");
}

#[test]
fn active_buttons_stand_out_while_they_can_be_used() {
    let active = button("Save", true);
    assert_eq!((active.border, active.background), (Theme::FOCUS_RING, Theme::PRESSED_SURFACE));
    assert_eq!(active.label, "Save");
    let idle = button_state("Save", true, false);
    assert_eq!(
        (idle.border, idle.background, idle.text, idle.enabled),
        (Theme::BORDER, Theme::DISABLED_SURFACE, Theme::DIM, false)
    );
    let plain = button_state("Save", false, true);
    assert_eq!(plain.background, Theme::SECONDARY_ACTION_SURFACE);
}
