//! The look of buttons.

use crate::design::tokens::Theme;
use vstd::prelude::*;
use vstd::string::*;

verus! {

/// A button: what it says, how it is painted, and whether it can be used.
#[derive(Debug)]
pub struct ButtonView {
    pub label: String,
    pub border: u32,
    pub background: u32,
    pub text: u32,
    pub enabled: bool,
}

/// Whether a button looks as it should: an active one stands out while it
/// can be used.
pub open spec fn shows_button(
    view: ButtonView,
    label: Seq<char>,
    active: bool,
    enabled: bool,
) -> bool {
    &&& view.label@ == label
    &&& view.border == (if active && enabled {
        Theme::FOCUS_RING
    } else {
        Theme::BORDER
    })
    &&& view.background == (if !enabled {
        Theme::DISABLED_SURFACE
    } else if active {
        Theme::PRESSED_SURFACE
    } else {
        Theme::SECONDARY_ACTION_SURFACE
    })
    &&& view.text == (if enabled {
        Theme::TEXT
    } else {
        Theme::DIM
    })
    &&& view.enabled == enabled
}

/// A button that can be used.
pub fn button(label: &str, active: bool) -> (view: ButtonView)
    ensures
        shows_button(view, label@, active, true),
{
    button_state(label, active, true)
}

/// A button that can be used or not.
pub fn button_state(label: &str, active: bool, enabled: bool) -> (view: ButtonView)
    ensures
        shows_button(view, label@, active, enabled),
{
    let (border, background, text) = if !enabled {
        (Theme::BORDER, Theme::DISABLED_SURFACE, Theme::DIM)
    } else if active {
        (Theme::FOCUS_RING, Theme::PRESSED_SURFACE, Theme::TEXT)
    } else {
        (Theme::BORDER, Theme::SECONDARY_ACTION_SURFACE, Theme::TEXT)
    };
    ButtonView { label: label.to_owned(), border, background, text, enabled }
}

/// A button that cannot be used is dimmed, whether active or not; of those that
/// can be used only an active one is ringed and pressed.
pub proof fn disabled_buttons_are_dimmed(
    view: ButtonView,
    label: Seq<char>,
    active: bool,
    enabled: bool,
)
    requires
        shows_button(view, label, active, enabled),
    ensures
        view.label@ == label,
        view.enabled == enabled,
        !enabled ==> view.border == Theme::BORDER && view.background == Theme::DISABLED_SURFACE
            && view.text == Theme::DIM,
        enabled && active ==> view.border == Theme::CYAN && view.background
            == Theme::PRESSED_SURFACE && view.text == Theme::TEXT,
        enabled && !active ==> view.border == Theme::BORDER && view.background
            == Theme::ELEVATED_SURFACE && view.text == Theme::TEXT,
{
}

} // verus!
