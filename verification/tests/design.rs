use perseval_app::design::{Breakpoint, ExecutionRole, Theme};
use perseval_app::icons::{list, resolve, retint, tinted, AppIcon};

#[test]
fn breakpoint_contract_matches_the_ux_plan() {
    assert_eq!(Breakpoint::for_width(720), Breakpoint::Compact);
    assert_eq!(Breakpoint::for_width(959), Breakpoint::Compact);
    assert_eq!(Breakpoint::for_width(960), Breakpoint::Standard);
    assert_eq!(Breakpoint::for_width(1_359), Breakpoint::Standard);
    assert_eq!(Breakpoint::for_width(1_360), Breakpoint::Wide);
}

#[test]
fn semantic_foregrounds_meet_wcag_aa_on_dark_surfaces() {
    for (label, foreground) in [
        ("text", Theme::TEXT),
        ("muted", Theme::MUTED),
        ("dim", Theme::DIM),
        ("cyan", Theme::CYAN),
        ("purple", Theme::PURPLE),
        ("green", Theme::GREEN),
        ("amber", Theme::AMBER),
        ("red", Theme::RED),
    ] {
        assert!(
            contrast_ratio(foreground, Theme::PANEL_ALT) >= 4.5,
            "{label} must retain 4.5:1 contrast on the lightest dark panel"
        );
    }
}

#[test]
fn accent_foreground_meets_wcag_aa() {
    assert!(contrast_ratio(Theme::TEXT_ON_ACCENT, Theme::CYAN) >= 4.5);
}

#[test]
fn stateful_surface_foregrounds_meet_wcag_aa() {
    for (surface_label, surface) in [
        ("application", Theme::APPLICATION_BACKGROUND),
        ("panel", Theme::PANEL_SURFACE),
        ("elevated", Theme::ELEVATED_SURFACE),
        ("toolbar", Theme::TOOLBAR_SURFACE),
        ("inspector", Theme::INSPECTOR_SURFACE),
        ("row hover", Theme::ROW_HOVER),
        ("row selected", Theme::ROW_SELECTED),
        ("row selected strong", Theme::ROW_SELECTED_STRONG),
        ("evidence", Theme::EVIDENCE_SURFACE),
        ("evidence selected", Theme::EVIDENCE_SELECTED_SURFACE),
        ("disabled", Theme::DISABLED_SURFACE),
        ("selected", Theme::SELECTED),
        ("selected subtle", Theme::SELECTED_SUBTLE),
        ("information", Theme::INFO_SURFACE),
        ("success", Theme::SUCCESS_SURFACE),
        ("warning", Theme::WARNING_SURFACE),
        ("danger", Theme::DANGER_SURFACE),
        ("inset", Theme::INSET_SURFACE),
    ] {
        for (foreground_label, foreground) in [("text", Theme::TEXT), ("muted", Theme::MUTED)] {
            assert!(
                contrast_ratio(foreground, surface) >= 4.5,
                "{foreground_label} must retain 4.5:1 contrast on {surface_label} surfaces"
            );
        }
    }
}

#[test]
fn execution_role_tints_are_legible_on_their_surfaces() {
    for role in [
        ExecutionRole::Planner,
        ExecutionRole::Browser,
        ExecutionRole::Verifier,
        ExecutionRole::Tool,
        ExecutionRole::Model,
        ExecutionRole::Evidence,
        ExecutionRole::Failure,
        ExecutionRole::Success,
    ] {
        assert!(
            contrast_ratio(role.tint(), role.surface()) >= 4.5,
            "{role:?} must retain 4.5:1 contrast on its semantic surface"
        );
    }
}

#[test]
fn icon_paths_lead_back_to_their_icons() {
    for active in [false, true] {
        assert_eq!(resolve(AppIcon::Inbox.path(active)), Some((AppIcon::Inbox, active)));
    }
    assert_eq!(AppIcon::Inbox.path(true), "icons/active/inbox.svg");
    assert_eq!(resolve("icons/unknown.svg"), None);
    assert!(list("icons").contains(&"inbox.svg"));
    assert!(list("fonts").is_empty());
}

#[test]
fn active_icons_change_their_colour() {
    assert_eq!(retint("<p stroke=\"#93a0ad\"/>"), "<p stroke=\"#58c8d3\"/>");
    assert_eq!(tinted(b"#93a0ad", true), b"#58c8d3".to_vec());
    assert_eq!(tinted(b"#93a0ad", false), b"#93a0ad".to_vec());
    assert_eq!(tinted(b"\xff", true), "\u{fffd}".as_bytes().to_vec());
    let muted = b"<path fill=\"#93a0ad\"/><path stroke=\"#93a0ad\"/>".to_vec();
    let active = String::from_utf8(tinted(&muted, true)).expect("valid UTF-8");
    assert!(active.contains("#58c8d3") && !active.contains("#93a0ad"));
    assert_eq!(tinted(&muted, false), muted);
}

fn contrast_ratio(left: u32, right: u32) -> f32 {
    let (light, dark) = {
        let left = luminance(left);
        let right = luminance(right);
        if left >= right {
            (left, right)
        } else {
            (right, left)
        }
    };
    (light + 0.05) / (dark + 0.05)
}

fn luminance(color: u32) -> f32 {
    let red = ((color >> 16) & 0xff) as f32 / 255.0;
    let green = ((color >> 8) & 0xff) as f32 / 255.0;
    let blue = (color & 0xff) as f32 / 255.0;
    0.2126 * linear(red) + 0.7152 * linear(green) + 0.0722 * linear(blue)
}

fn linear(channel: f32) -> f32 {
    if channel <= 0.04045 {
        channel / 12.92
    } else {
        ((channel + 0.055) / 1.055).powf(2.4)
    }
}
