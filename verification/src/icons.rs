//! Bundled icons: their paths and their two tints.

use crate::text::{self, lossy_text, replace_all, same_text};
use vstd::prelude::*;
use vstd::string::*;
use vstd::utf8::*;

verus! {

/// The icons of the workbench.
#[derive(Debug, Clone, Copy, PartialEq, Eq, Structural)]
pub enum AppIcon {
    Inbox,
    Runs,
    Compare,
    Evals,
    Sources,
    Settings,
    Database,
    Shield,
    Sparkles,
    Accessibility,
    ChevronDown,
    Plus,
    Pin,
}

/// The file name of an icon.
pub open spec fn file_name(icon: AppIcon) -> Seq<char> {
    match icon {
        AppIcon::Inbox => "inbox.svg"@,
        AppIcon::Runs => "runs.svg"@,
        AppIcon::Compare => "compare.svg"@,
        AppIcon::Evals => "evals.svg"@,
        AppIcon::Sources => "sources.svg"@,
        AppIcon::Settings => "settings.svg"@,
        AppIcon::Database => "database.svg"@,
        AppIcon::Shield => "shield.svg"@,
        AppIcon::Sparkles => "sparkles.svg"@,
        AppIcon::Accessibility => "accessibility.svg"@,
        AppIcon::ChevronDown => "chevron-down.svg"@,
        AppIcon::Plus => "plus.svg"@,
        AppIcon::Pin => "pin.svg"@,
    }
}

/// The path of an icon in its muted or its active tint.
pub open spec fn icon_path(icon: AppIcon, active: bool) -> Seq<char> {
    if active {
        "icons/active/"@ + file_name(icon)
    } else {
        "icons/"@ + file_name(icon)
    }
}

/// The icon with a file name.
pub open spec fn icon_named(name: Seq<char>) -> Option<AppIcon> {
    if name == "inbox.svg"@ {
        Some(AppIcon::Inbox)
    } else if name == "runs.svg"@ {
        Some(AppIcon::Runs)
    } else if name == "compare.svg"@ {
        Some(AppIcon::Compare)
    } else if name == "evals.svg"@ {
        Some(AppIcon::Evals)
    } else if name == "sources.svg"@ {
        Some(AppIcon::Sources)
    } else if name == "settings.svg"@ {
        Some(AppIcon::Settings)
    } else if name == "database.svg"@ {
        Some(AppIcon::Database)
    } else if name == "shield.svg"@ {
        Some(AppIcon::Shield)
    } else if name == "sparkles.svg"@ {
        Some(AppIcon::Sparkles)
    } else if name == "accessibility.svg"@ {
        Some(AppIcon::Accessibility)
    } else if name == "chevron-down.svg"@ {
        Some(AppIcon::ChevronDown)
    } else if name == "plus.svg"@ {
        Some(AppIcon::Plus)
    } else if name == "pin.svg"@ {
        Some(AppIcon::Pin)
    } else {
        None
    }
}

/// The icon that a path stands for, and whether in its active tint.
pub open spec fn resolved(path: Seq<char>) -> Option<(AppIcon, bool)> {
    let (name, active) = if "icons/active/"@.is_prefix_of(path) {
        (Some(path.skip("icons/active/"@.len() as int)), true)
    } else if "icons/"@.is_prefix_of(path) {
        (Some(path.skip("icons/"@.len() as int)), false)
    } else {
        (None, false)
    };
    match name {
        Some(name) => match icon_named(name) {
            Some(icon) => Some((icon, active)),
            None => None,
        },
        None => None,
    }
}

/// The muted tint in an icon's source.
pub const MUTED_TINT: u32 = 0x93a0ad;

/// The active tint in an icon's source.
pub const ACTIVE_TINT: u32 = 0x58c8d3;

impl AppIcon {
    /// The path of the icon in its muted or its active tint.
    pub fn path(self, active: bool) -> (path: &'static str)
        ensures
            path@ == icon_path(self, active),
    {
        let path: &'static str = match (self, active) {
            (AppIcon::Inbox, false) => "icons/inbox.svg",
            (AppIcon::Inbox, true) => "icons/active/inbox.svg",
            (AppIcon::Runs, false) => "icons/runs.svg",
            (AppIcon::Runs, true) => "icons/active/runs.svg",
            (AppIcon::Compare, false) => "icons/compare.svg",
            (AppIcon::Compare, true) => "icons/active/compare.svg",
            (AppIcon::Evals, false) => "icons/evals.svg",
            (AppIcon::Evals, true) => "icons/active/evals.svg",
            (AppIcon::Sources, false) => "icons/sources.svg",
            (AppIcon::Sources, true) => "icons/active/sources.svg",
            (AppIcon::Settings, false) => "icons/settings.svg",
            (AppIcon::Settings, true) => "icons/active/settings.svg",
            (AppIcon::Database, false) => "icons/database.svg",
            (AppIcon::Database, true) => "icons/active/database.svg",
            (AppIcon::Shield, false) => "icons/shield.svg",
            (AppIcon::Shield, true) => "icons/active/shield.svg",
            (AppIcon::Sparkles, false) => "icons/sparkles.svg",
            (AppIcon::Sparkles, true) => "icons/active/sparkles.svg",
            (AppIcon::Accessibility, false) => "icons/accessibility.svg",
            (AppIcon::Accessibility, true) => "icons/active/accessibility.svg",
            (AppIcon::ChevronDown, false) => "icons/chevron-down.svg",
            (AppIcon::ChevronDown, true) => "icons/active/chevron-down.svg",
            (AppIcon::Plus, false) => "icons/plus.svg",
            (AppIcon::Plus, true) => "icons/active/plus.svg",
            (AppIcon::Pin, false) => "icons/pin.svg",
            (AppIcon::Pin, true) => "icons/active/pin.svg",
        };
        proof {
            reveal_strlit("icons/");
            reveal_strlit("icons/active/");
            reveal_strlit("inbox.svg");
            reveal_strlit("icons/inbox.svg");
            reveal_strlit("icons/active/inbox.svg");
            reveal_strlit("runs.svg");
            reveal_strlit("icons/runs.svg");
            reveal_strlit("icons/active/runs.svg");
            reveal_strlit("compare.svg");
            reveal_strlit("icons/compare.svg");
            reveal_strlit("icons/active/compare.svg");
            reveal_strlit("evals.svg");
            reveal_strlit("icons/evals.svg");
            reveal_strlit("icons/active/evals.svg");
            reveal_strlit("sources.svg");
            reveal_strlit("icons/sources.svg");
            reveal_strlit("icons/active/sources.svg");
            reveal_strlit("settings.svg");
            reveal_strlit("icons/settings.svg");
            reveal_strlit("icons/active/settings.svg");
            reveal_strlit("database.svg");
            reveal_strlit("icons/database.svg");
            reveal_strlit("icons/active/database.svg");
            reveal_strlit("shield.svg");
            reveal_strlit("icons/shield.svg");
            reveal_strlit("icons/active/shield.svg");
            reveal_strlit("sparkles.svg");
            reveal_strlit("icons/sparkles.svg");
            reveal_strlit("icons/active/sparkles.svg");
            reveal_strlit("accessibility.svg");
            reveal_strlit("icons/accessibility.svg");
            reveal_strlit("icons/active/accessibility.svg");
            reveal_strlit("chevron-down.svg");
            reveal_strlit("icons/chevron-down.svg");
            reveal_strlit("icons/active/chevron-down.svg");
            reveal_strlit("plus.svg");
            reveal_strlit("icons/plus.svg");
            reveal_strlit("icons/active/plus.svg");
            reveal_strlit("pin.svg");
            reveal_strlit("icons/pin.svg");
            reveal_strlit("icons/active/pin.svg");
            assert(path@ =~= icon_path(self, active));
        }
        path
    }

    /// The colour that the icon is painted in.
    pub fn tint(active: bool) -> (tint: u32)
        ensures
            tint == (if active {
                ACTIVE_TINT
            } else {
                MUTED_TINT
            }),
    {
        if active {
            ACTIVE_TINT
        } else {
            MUTED_TINT
        }
    }
}

fn named_icon(name: &str) -> (icon: Option<AppIcon>)
    ensures
        icon == icon_named(name@),
{
    if same_text(name, "inbox.svg") {
        Some(AppIcon::Inbox)
    } else if same_text(name, "runs.svg") {
        Some(AppIcon::Runs)
    } else if same_text(name, "compare.svg") {
        Some(AppIcon::Compare)
    } else if same_text(name, "evals.svg") {
        Some(AppIcon::Evals)
    } else if same_text(name, "sources.svg") {
        Some(AppIcon::Sources)
    } else if same_text(name, "settings.svg") {
        Some(AppIcon::Settings)
    } else if same_text(name, "database.svg") {
        Some(AppIcon::Database)
    } else if same_text(name, "shield.svg") {
        Some(AppIcon::Shield)
    } else if same_text(name, "sparkles.svg") {
        Some(AppIcon::Sparkles)
    } else if same_text(name, "accessibility.svg") {
        Some(AppIcon::Accessibility)
    } else if same_text(name, "chevron-down.svg") {
        Some(AppIcon::ChevronDown)
    } else if same_text(name, "plus.svg") {
        Some(AppIcon::Plus)
    } else if same_text(name, "pin.svg") {
        Some(AppIcon::Pin)
    } else {
        None
    }
}

/// The icon that a path stands for, and whether in its active tint.
pub fn resolve(path: &str) -> (found: Option<(AppIcon, bool)>)
    ensures
        found == resolved(path@),
{
    let (rest, active) = match text::strip_prefix(path, "icons/active/") {
        Some(rest) => (rest, true),
        None => match text::strip_prefix(path, "icons/") {
            Some(rest) => (rest, false),
            None => {
                return None;
            },
        },
    };
    match named_icon(rest) {
        Some(icon) => Some((icon, active)),
        None => None,
    }
}

/// The source of an icon in the wanted tint, from its muted source.
pub open spec fn tinted_source(source: Seq<u8>, active: bool) -> Seq<u8> {
    if active {
        encode_utf8(text::replaced_all(text::lossy_text_of(source), "#93a0ad"@, "#58c8d3"@))
    } else {
        source
    }
}

/// The source of an icon in the wanted tint, from its muted source.
pub fn tinted(source: &[u8], active: bool) -> (bytes: Vec<u8>)
    ensures
        bytes@ == tinted_source(source@, active),
{
    if active {
        let plain = lossy_text(source);
        proof {
            reveal_strlit("#93a0ad");
        }
        retint(plain.as_str()).as_str().as_bytes_vec()
    } else {
        vstd::slice::slice_to_vec(source)
    }
}

/// An icon's source text in its active tint.
pub fn retint(source: &str) -> (active: String)
    ensures
        active@ == text::replaced_all(source@, "#93a0ad"@, "#58c8d3"@),
{
    proof {
        reveal_strlit("#93a0ad");
    }
    replace_all(source, "#93a0ad", "#58c8d3")
}

/// The file names under a directory of the bundle.
pub fn list(path: &str) -> (names: Vec<&'static str>)
    ensures
        path@ != "icons"@ ==> names@.len() == 0,
        path@ == "icons"@ ==> names@.map_values(|name: &'static str| name@) == seq![
            "inbox.svg"@,
            "runs.svg"@,
            "compare.svg"@,
            "evals.svg"@,
            "sources.svg"@,
            "settings.svg"@,
            "database.svg"@,
            "shield.svg"@,
            "sparkles.svg"@,
            "accessibility.svg"@,
            "chevron-down.svg"@,
            "plus.svg"@,
            "pin.svg"@,
        ],
{
    if !same_text(path, "icons") {
        return Vec::new();
    }
    let names = vec![
        "inbox.svg",
        "runs.svg",
        "compare.svg",
        "evals.svg",
        "sources.svg",
        "settings.svg",
        "database.svg",
        "shield.svg",
        "sparkles.svg",
        "accessibility.svg",
        "chevron-down.svg",
        "plus.svg",
        "pin.svg",
    ];
    assert(names@.map_values(|name: &'static str| name@) =~= seq![
        "inbox.svg"@,
        "runs.svg"@,
        "compare.svg"@,
        "evals.svg"@,
        "sources.svg"@,
        "settings.svg"@,
        "database.svg"@,
        "shield.svg"@,
        "sparkles.svg"@,
        "accessibility.svg"@,
        "chevron-down.svg"@,
        "plus.svg"@,
        "pin.svg"@,
    ]);
    names
}

/// Every icon is found again under both of its paths.
pub proof fn paths_resolve(icon: AppIcon, active: bool)
    ensures
        resolved(icon_path(icon, active)) == Some((icon, active)),
{
    reveal_strlit("icons/");
    reveal_strlit("icons/active/");
    reveal_strlit("inbox.svg");
    reveal_strlit("runs.svg");
    reveal_strlit("compare.svg");
    reveal_strlit("evals.svg");
    reveal_strlit("sources.svg");
    reveal_strlit("settings.svg");
    reveal_strlit("database.svg");
    reveal_strlit("shield.svg");
    reveal_strlit("sparkles.svg");
    reveal_strlit("accessibility.svg");
    reveal_strlit("chevron-down.svg");
    reveal_strlit("plus.svg");
    reveal_strlit("pin.svg");
    let name = file_name(icon);
    let path = icon_path(icon, active);
    if active {
        assert("icons/active/"@.is_prefix_of(path)) by {
            assert(path.take("icons/active/"@.len() as int) =~= "icons/active/"@);
        }
        assert(path.skip("icons/active/"@.len() as int) =~= name);
    } else {
        assert("icons/"@.is_prefix_of(path)) by {
            assert(path.take("icons/"@.len() as int) =~= "icons/"@);
        }
        assert(path.skip("icons/"@.len() as int) =~= name);
        assert(path[6] == name[0]);
        if "icons/active/"@.is_prefix_of(path) {
            assert(path.subrange(0, 13)[12] == path[12]);
            assert("icons/active/"@[12] == '/');
            assert(path[12] == name[6]);
            assert(name[6] != '/');
        }
    }
    lemma_names_are_distinct(icon);
}

/// A source that holds the muted tint keeps it in its muted form, and holds
/// the active tint in its active form, which is valid UTF-8.
pub proof fn sources_hold_their_tint(source: Seq<u8>)
    requires
        text::occurs_in(text::lossy_text_of(source), "#93a0ad"@),
    ensures
        text::occurs_in(text::lossy_text_of(tinted_source(source, false)), "#93a0ad"@),
        valid_utf8(tinted_source(source, true)),
        text::occurs_in(decode_utf8(tinted_source(source, true)), "#58c8d3"@),
{
    broadcast use encode_utf8_valid_utf8, encode_utf8_decode_utf8;

    reveal_strlit("#93a0ad");
    text::replacements_occur(text::lossy_text_of(source), "#93a0ad"@, "#58c8d3"@);
}

proof fn lemma_names_are_distinct(icon: AppIcon)
    ensures
        icon_named(file_name(icon)) == Some(icon),
{
    reveal_strlit("inbox.svg");
    reveal_strlit("runs.svg");
    reveal_strlit("compare.svg");
    reveal_strlit("evals.svg");
    reveal_strlit("sources.svg");
    reveal_strlit("settings.svg");
    reveal_strlit("database.svg");
    reveal_strlit("shield.svg");
    reveal_strlit("sparkles.svg");
    reveal_strlit("accessibility.svg");
    reveal_strlit("chevron-down.svg");
    reveal_strlit("plus.svg");
    reveal_strlit("pin.svg");
    match icon {
        AppIcon::Inbox => {
        },
        AppIcon::Runs => {
            assert("runs.svg"@.len() != "inbox.svg"@.len());
        },
        AppIcon::Compare => {
            assert("compare.svg"@.len() != "inbox.svg"@.len());
            assert("compare.svg"@.len() != "runs.svg"@.len());
        },
        AppIcon::Evals => {
            assert("evals.svg"@[0] != "inbox.svg"@[0]);
            assert("evals.svg"@.len() != "runs.svg"@.len());
            assert("evals.svg"@.len() != "compare.svg"@.len());
        },
        AppIcon::Sources => {
            assert("sources.svg"@.len() != "inbox.svg"@.len());
            assert("sources.svg"@.len() != "runs.svg"@.len());
            assert("sources.svg"@[0] != "compare.svg"@[0]);
            assert("sources.svg"@.len() != "evals.svg"@.len());
        },
        AppIcon::Settings => {
            assert("settings.svg"@.len() != "inbox.svg"@.len());
            assert("settings.svg"@.len() != "runs.svg"@.len());
            assert("settings.svg"@.len() != "compare.svg"@.len());
            assert("settings.svg"@.len() != "evals.svg"@.len());
            assert("settings.svg"@.len() != "sources.svg"@.len());
        },
        AppIcon::Database => {
            assert("database.svg"@.len() != "inbox.svg"@.len());
            assert("database.svg"@.len() != "runs.svg"@.len());
            assert("database.svg"@.len() != "compare.svg"@.len());
            assert("database.svg"@.len() != "evals.svg"@.len());
            assert("database.svg"@.len() != "sources.svg"@.len());
            assert("database.svg"@[0] != "settings.svg"@[0]);
        },
        AppIcon::Shield => {
            assert("shield.svg"@.len() != "inbox.svg"@.len());
            assert("shield.svg"@.len() != "runs.svg"@.len());
            assert("shield.svg"@.len() != "compare.svg"@.len());
            assert("shield.svg"@.len() != "evals.svg"@.len());
            assert("shield.svg"@.len() != "sources.svg"@.len());
            assert("shield.svg"@.len() != "settings.svg"@.len());
            assert("shield.svg"@.len() != "database.svg"@.len());
        },
        AppIcon::Sparkles => {
            assert("sparkles.svg"@.len() != "inbox.svg"@.len());
            assert("sparkles.svg"@.len() != "runs.svg"@.len());
            assert("sparkles.svg"@.len() != "compare.svg"@.len());
            assert("sparkles.svg"@.len() != "evals.svg"@.len());
            assert("sparkles.svg"@.len() != "sources.svg"@.len());
            assert("sparkles.svg"@[1] != "settings.svg"@[1]);
            assert("sparkles.svg"@[0] != "database.svg"@[0]);
            assert("sparkles.svg"@.len() != "shield.svg"@.len());
        },
        AppIcon::Accessibility => {
            assert("accessibility.svg"@.len() != "inbox.svg"@.len());
            assert("accessibility.svg"@.len() != "runs.svg"@.len());
            assert("accessibility.svg"@.len() != "compare.svg"@.len());
            assert("accessibility.svg"@.len() != "evals.svg"@.len());
            assert("accessibility.svg"@.len() != "sources.svg"@.len());
            assert("accessibility.svg"@.len() != "settings.svg"@.len());
            assert("accessibility.svg"@.len() != "database.svg"@.len());
            assert("accessibility.svg"@.len() != "shield.svg"@.len());
            assert("accessibility.svg"@.len() != "sparkles.svg"@.len());
        },
        AppIcon::ChevronDown => {
            assert("chevron-down.svg"@.len() != "inbox.svg"@.len());
            assert("chevron-down.svg"@.len() != "runs.svg"@.len());
            assert("chevron-down.svg"@.len() != "compare.svg"@.len());
            assert("chevron-down.svg"@.len() != "evals.svg"@.len());
            assert("chevron-down.svg"@.len() != "sources.svg"@.len());
            assert("chevron-down.svg"@.len() != "settings.svg"@.len());
            assert("chevron-down.svg"@.len() != "database.svg"@.len());
            assert("chevron-down.svg"@.len() != "shield.svg"@.len());
            assert("chevron-down.svg"@.len() != "sparkles.svg"@.len());
            assert("chevron-down.svg"@.len() != "accessibility.svg"@.len());
        },
        AppIcon::Plus => {
            assert("plus.svg"@.len() != "inbox.svg"@.len());
            assert("plus.svg"@[0] != "runs.svg"@[0]);
            assert("plus.svg"@.len() != "compare.svg"@.len());
            assert("plus.svg"@.len() != "evals.svg"@.len());
            assert("plus.svg"@.len() != "sources.svg"@.len());
            assert("plus.svg"@.len() != "settings.svg"@.len());
            assert("plus.svg"@.len() != "database.svg"@.len());
            assert("plus.svg"@.len() != "shield.svg"@.len());
            assert("plus.svg"@.len() != "sparkles.svg"@.len());
            assert("plus.svg"@.len() != "accessibility.svg"@.len());
            assert("plus.svg"@.len() != "chevron-down.svg"@.len());
        },
        AppIcon::Pin => {
            assert("pin.svg"@.len() != "inbox.svg"@.len());
            assert("pin.svg"@.len() != "runs.svg"@.len());
            assert("pin.svg"@.len() != "compare.svg"@.len());
            assert("pin.svg"@.len() != "evals.svg"@.len());
            assert("pin.svg"@.len() != "sources.svg"@.len());
            assert("pin.svg"@.len() != "settings.svg"@.len());
            assert("pin.svg"@.len() != "database.svg"@.len());
            assert("pin.svg"@.len() != "shield.svg"@.len());
            assert("pin.svg"@.len() != "sparkles.svg"@.len());
            assert("pin.svg"@.len() != "accessibility.svg"@.len());
            assert("pin.svg"@.len() != "chevron-down.svg"@.len());
            assert("pin.svg"@.len() != "plus.svg"@.len());
        },
    }
}

/// Each icon has a file of its own name, and the active ones lie in a directory
/// of their own.
pub proof fn icons_lie_under_their_names(icon: AppIcon)
    ensures
        icon_path(icon, false) == "icons/"@ + file_name(icon),
        icon_path(icon, true) == "icons/active/"@ + file_name(icon),
        file_name(AppIcon::Inbox) == "inbox.svg"@,
        file_name(AppIcon::Runs) == "runs.svg"@,
        file_name(AppIcon::Compare) == "compare.svg"@,
        file_name(AppIcon::Evals) == "evals.svg"@,
        file_name(AppIcon::Sources) == "sources.svg"@,
        file_name(AppIcon::Settings) == "settings.svg"@,
        file_name(AppIcon::Database) == "database.svg"@,
        file_name(AppIcon::Shield) == "shield.svg"@,
        file_name(AppIcon::Sparkles) == "sparkles.svg"@,
        file_name(AppIcon::Accessibility) == "accessibility.svg"@,
        file_name(AppIcon::ChevronDown) == "chevron-down.svg"@,
        file_name(AppIcon::Plus) == "plus.svg"@,
        file_name(AppIcon::Pin) == "pin.svg"@,
        MUTED_TINT == 0x93a0ad,
        ACTIVE_TINT == 0x58c8d3,
{
}

/// A muted icon's source stays as it is, and an active one's has the active
/// tint wherever the muted one stood.
pub proof fn sources_change_their_tint_alone(source: Seq<u8>)
    ensures
        tinted_source(source, false) == source,
        tinted_source(source, true) == encode_utf8(
            text::replaced_all(text::lossy_text_of(source), "#93a0ad"@, "#58c8d3"@),
        ),
{
}

} // verus!
