//! Design tokens: colours, sizes and layout breakpoints.
//!
//! Colours are `0xRRGGBB` values and sizes are whole pixels.

use vstd::prelude::*;

verus! {

/// Semantic palette shared by every Perseval screen.
pub struct Theme;

impl Theme {
    // Foundational surfaces. The short aliases below serve existing screens;
    // new components choose the role that matches their purpose.
    pub const APPLICATION_BACKGROUND: u32 = 0x101418;
    pub const PANEL_SURFACE: u32 = 0x151a20;
    pub const ELEVATED_SURFACE: u32 = 0x1a2027;
    pub const TOOLBAR_SURFACE: u32 = 0x12171c;
    pub const INSPECTOR_SURFACE: u32 = 0x13191f;
    pub const ROW_HOVER: u32 = 0x192128;
    pub const ROW_SELECTED: u32 = 0x173339;
    pub const ROW_SELECTED_STRONG: u32 = 0x1b3c42;
    pub const EVIDENCE_SURFACE: u32 = 0x2b2416;
    pub const EVIDENCE_SELECTED_SURFACE: u32 = 0x3a2d16;
    pub const DISABLED_SURFACE: u32 = 0x171b20;

    pub const BG: u32 = Theme::APPLICATION_BACKGROUND;
    pub const PANEL: u32 = Theme::PANEL_SURFACE;
    pub const PANEL_ALT: u32 = Theme::ELEVATED_SURFACE;
    pub const BORDER: u32 = 0x282e37;
    pub const TEXT: u32 = 0xe7e9ed;
    pub const MUTED: u32 = 0xaab2bf;
    pub const DIM: u32 = 0x7f8896;
    pub const CYAN: u32 = 0x54c7d9;
    pub const PURPLE: u32 = 0xa78bfa;
    pub const GREEN: u32 = 0x58d68d;
    pub const AMBER: u32 = 0xd9a851;
    pub const RED: u32 = 0xff6678;

    // Interactive and status surfaces. These names describe intent rather than
    // one screen's current treatment, so contrast and future themes stay
    // centralized.
    pub const TEXT_ON_ACCENT: u32 = 0x071014;
    pub const FOCUS_RING: u32 = Theme::CYAN;
    pub const PRIMARY_ACTION: u32 = Theme::CYAN;
    pub const SECONDARY_ACTION_SURFACE: u32 = Theme::ELEVATED_SURFACE;
    pub const PRESSED_SURFACE: u32 = 0x20424a;
    pub const ACCENT_MUTED: u32 = Theme::ROW_SELECTED;
    pub const SELECTED: u32 = Theme::ROW_SELECTED_STRONG;
    pub const SELECTED_SUBTLE: u32 = Theme::ROW_HOVER;
    pub const INFO_SURFACE: u32 = 0x10232b;
    pub const SUCCESS_SURFACE: u32 = 0x10231a;
    pub const WARNING_SURFACE: u32 = 0x2a2113;
    pub const DANGER_SURFACE: u32 = 0x2a1519;
    pub const INSET_SURFACE: u32 = Theme::INSPECTOR_SURFACE;
    pub const OVERLAY: u32 = 0x05090d;

    // Execution roles. These are categorical, not decorative: the same role
    // keeps the same tint in Investigation, Tree, Timeline, Compare, and the
    // inspector.
    pub const AGENT_PLANNER: u32 = 0xa78bfa;
    pub const AGENT_BROWSER: u32 = Theme::CYAN;
    pub const AGENT_VERIFIER: u32 = Theme::GREEN;
    pub const AGENT_TOOL: u32 = 0xaab2bf;
    pub const AGENT_MODEL: u32 = 0x8da4d8;
    pub const EXACT_EVIDENCE: u32 = Theme::AMBER;
    pub const FAILURE: u32 = Theme::RED;
    pub const VERIFIED_SUCCESS: u32 = Theme::GREEN;
}

/// The part a step plays in an execution.
#[derive(Debug, Clone, Copy, PartialEq, Eq, Structural)]
pub enum ExecutionRole {
    Planner,
    Browser,
    Verifier,
    Tool,
    Model,
    Evidence,
    Failure,
    Success,
}

impl ExecutionRole {
    /// The foreground colour of a role.
    #[verifier::allow_in_spec]
    pub fn tint(self) -> u32
        returns
            (match self {
                ExecutionRole::Planner => Theme::AGENT_PLANNER,
                ExecutionRole::Browser => Theme::AGENT_BROWSER,
                ExecutionRole::Verifier => Theme::AGENT_VERIFIER,
                ExecutionRole::Tool => Theme::AGENT_TOOL,
                ExecutionRole::Model => Theme::AGENT_MODEL,
                ExecutionRole::Evidence => Theme::EXACT_EVIDENCE,
                ExecutionRole::Failure => Theme::FAILURE,
                ExecutionRole::Success => Theme::VERIFIED_SUCCESS,
            }),
    {
        match self {
            ExecutionRole::Planner => Theme::AGENT_PLANNER,
            ExecutionRole::Browser => Theme::AGENT_BROWSER,
            ExecutionRole::Verifier => Theme::AGENT_VERIFIER,
            ExecutionRole::Tool => Theme::AGENT_TOOL,
            ExecutionRole::Model => Theme::AGENT_MODEL,
            ExecutionRole::Evidence => Theme::EXACT_EVIDENCE,
            ExecutionRole::Failure => Theme::FAILURE,
            ExecutionRole::Success => Theme::VERIFIED_SUCCESS,
        }
    }

    /// The background colour of a role.
    #[verifier::allow_in_spec]
    pub fn surface(self) -> u32
        returns
            (match self {
                ExecutionRole::Evidence => Theme::EVIDENCE_SURFACE,
                ExecutionRole::Failure => Theme::DANGER_SURFACE,
                ExecutionRole::Success | ExecutionRole::Verifier => Theme::SUCCESS_SURFACE,
                _ => Theme::ELEVATED_SURFACE,
            }),
    {
        match self {
            ExecutionRole::Evidence => Theme::EVIDENCE_SURFACE,
            ExecutionRole::Failure => Theme::DANGER_SURFACE,
            ExecutionRole::Success | ExecutionRole::Verifier => Theme::SUCCESS_SURFACE,
            _ => Theme::ELEVATED_SURFACE,
        }
    }
}

/// How much room a layout has.
#[derive(Debug, Clone, Copy, PartialEq, Eq, Structural)]
pub enum Breakpoint {
    Compact,
    Standard,
    Wide,
}

impl Breakpoint {
    /// The layout for a width in whole pixels; a fraction of a pixel does not
    /// reach the next breakpoint.
    pub fn for_width(width: u32) -> (breakpoint: Self)
        ensures
            breakpoint == (if width < 960 {
                Breakpoint::Compact
            } else if width < 1360 {
                Breakpoint::Standard
            } else {
                Breakpoint::Wide
            }),
    {
        if width < 960 {
            Breakpoint::Compact
        } else if width < 1360 {
            Breakpoint::Standard
        } else {
            Breakpoint::Wide
        }
    }
}

pub struct Spacing;

impl Spacing {
    pub const XS: u32 = 4;
    pub const SM: u32 = 8;
    pub const MD: u32 = 12;
    pub const LG: u32 = 16;
    pub const XL: u32 = 24;
    pub const XXL: u32 = 32;
    pub const XXXL: u32 = 48;
}

pub struct ControlSize;

impl ControlSize {
    pub const COMPACT: u32 = 28;
    pub const DEFAULT: u32 = 32;
    pub const PRIMARY: u32 = 36;
    pub const ROW: u32 = 40;
}

/// Repeated workbench geometry. One-off visualization dimensions stay local.
pub struct Geometry;

impl Geometry {
    pub const ACTIVITY_RAIL_WIDTH: u32 = 48;
    pub const TOP_BAR_HEIGHT: u32 = 44;
    pub const TAB_STRIP_HEIGHT: u32 = 40;
    pub const PAGE_GUTTER: u32 = 24;
    pub const TABLE_ROW_COMPACT: u32 = 36;
    pub const TABLE_ROW_STANDARD: u32 = 44;
    pub const TRACE_ROW: u32 = 48;
    pub const TOOLBAR_HEIGHT: u32 = 44;
    pub const STICKY_ACTION_BAR_HEIGHT: u32 = 60;
    pub const INSPECTOR_MIN_WIDTH: u32 = 280;
    pub const INSPECTOR_DEFAULT_WIDTH: u32 = 360;
    pub const INSPECTOR_MAX_WIDTH: u32 = 640;
    pub const TREE_INDENT: u32 = 18;
    pub const RADIUS_COMPACT: u32 = 4;
    pub const RADIUS_STANDARD: u32 = 6;
}

/// Fixed product-UI type roles. Explanations use the UI face; callers apply a
/// monospace face only to machine-readable values.
pub struct Typography;

impl Typography {
    pub const PAGE_TITLE: u32 = 20;
    pub const SCREEN_DESCRIPTION: u32 = 14;
    pub const SECTION_TITLE: u32 = 14;
    pub const BODY: u32 = 13;
    pub const TABLE_HEADER: u32 = 11;
    pub const TABLE_PRIMARY: u32 = 12;
    pub const TABLE_SECONDARY: u32 = 11;
    pub const METADATA: u32 = 11;
    pub const MACHINE_IDENTIFIER: u32 = 11;
}

/// Each status colour is the designed one, so that no two of them look alike.
pub proof fn status_colours_are_the_designed_ones()
    ensures
        Theme::RED == 0xff6678,
        Theme::AMBER == 0xd9a851,
        Theme::GREEN == 0x58d68d,
        Theme::CYAN == 0x54c7d9,
        Theme::PURPLE == 0xa78bfa,
        Theme::TEXT == 0xe7e9ed,
        Theme::MUTED == 0xaab2bf,
        Theme::DIM == 0x7f8896,
        Theme::BORDER == 0x282e37,
        Theme::BG == 0x101418,
        Theme::PANEL == 0x151a20,
        Theme::PANEL_ALT == 0x1a2027,
        Theme::SELECTED == 0x1b3c42,
        Theme::SELECTED_SUBTLE == 0x192128,
        Theme::INFO_SURFACE == 0x10232b,
        Theme::SUCCESS_SURFACE == 0x10231a,
        Theme::WARNING_SURFACE == 0x2a2113,
        Theme::DANGER_SURFACE == 0x2a1519,
        Theme::DISABLED_SURFACE == 0x171b20,
        Theme::PRESSED_SURFACE == 0x20424a,
        Theme::FOCUS_RING == 0x54c7d9,
        Theme::EVIDENCE_SURFACE == 0x2b2416,
{
}

/// Each role keeps its own tint and surface.
pub proof fn roles_keep_their_tint()
    ensures
        ExecutionRole::Planner.tint() == 0xa78bfa,
        ExecutionRole::Browser.tint() == 0x54c7d9,
        ExecutionRole::Verifier.tint() == 0x58d68d,
        ExecutionRole::Tool.tint() == 0xaab2bf,
        ExecutionRole::Model.tint() == 0x8da4d8,
        ExecutionRole::Evidence.tint() == 0xd9a851,
        ExecutionRole::Failure.tint() == 0xff6678,
        ExecutionRole::Success.tint() == 0x58d68d,
        ExecutionRole::Evidence.surface() == 0x2b2416,
        ExecutionRole::Failure.surface() == 0x2a1519,
        ExecutionRole::Success.surface() == 0x10231a,
        ExecutionRole::Verifier.surface() == 0x10231a,
        ExecutionRole::Planner.surface() == 0x1a2027,
        ExecutionRole::Browser.surface() == 0x1a2027,
        ExecutionRole::Tool.surface() == 0x1a2027,
        ExecutionRole::Model.surface() == 0x1a2027,
{
}

} // verus!
