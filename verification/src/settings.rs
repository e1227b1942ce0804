//! Settings-driven choices: the window material and the sticker folder.
use vstd::prelude::*;
use vstd::string::StringExecFns;
use crate::models::AppSettings;
use crate::text::same_text;

verus! {

/// The translucent material behind the window.
#[derive(PartialEq, Eq, Structural, Clone, Copy, Debug)]
pub enum Vibrancy {
    Mica,
    /// Acrylic, tinted black at alpha 10.
    Acrylic,
    /// No material: the window keeps its plain background.
    NoEffect,
}

/// The material for a theme: `mica` gives Mica, `none` gives no material, and
/// every other theme (`acrylic`, the default, among them) gives Acrylic.
pub fn vibrancy_for_theme(theme: &str) -> (r: Vibrancy)
    ensures
        r == if theme@ == "mica"@ {
            Vibrancy::Mica
        } else if theme@ == "none"@ {
            Vibrancy::NoEffect
        } else {
            Vibrancy::Acrylic
        },
{
    if same_text(theme, "mica") {
        Vibrancy::Mica
    } else if same_text(theme, "none") {
        Vibrancy::NoEffect
    } else {
        Vibrancy::Acrylic
    }
}

/// Where the sticker folder is.
pub enum StickerRoot {
    /// The folder chosen in the settings.
    Configured(String),
    /// The standard folder, `Stickers` in the user's profile folder.
    Standard(String),
}

/// The standard sticker folder: `Stickers` inside the profile folder
/// (`C:\Users\<user>\Stickers`), or inside `.` when the profile folder is unknown.
pub open spec fn standard_root(profile: Option<Seq<char>>) -> Seq<char> {
    let base = match profile {
        Some(p) => p,
        None => "."@,
    };
    base + "\\Stickers"@
}

/// The standard folder is the profile folder (or `.`) followed by `\Stickers`.
pub proof fn law_standard_root(profile: Option<Seq<char>>)
    ensures
        standard_root(profile) == match profile {
            Some(p) => p,
            None => seq!['.'],
        } + seq!['\\', 'S', 't', 'i', 'c', 'k', 'e', 'r', 's'],
{
    reveal_strlit(".");
    reveal_strlit("\\Stickers");
    assert("\\Stickers"@ =~= seq!['\\', 'S', 't', 'i', 'c', 'k', 'e', 'r', 's']);
    assert("."@ =~= seq!['.']);
}

/// The sticker folder: the configured one when it is set and exists, otherwise
/// the standard one.
pub fn sticker_root(configured: &str, configured_exists: bool, profile: Option<String>) -> (r:
    StickerRoot)
    ensures
        configured@.len() > 0 && configured_exists ==> (r matches StickerRoot::Configured(p) && p@
            == configured@),
        !(configured@.len() > 0 && configured_exists) ==> (r matches StickerRoot::Standard(p) && p@
            == standard_root(
            match profile {
                Some(q) => Some(q@),
                None => None,
            },
        )),
{
    if !configured.is_empty() && configured_exists {
        StickerRoot::Configured(String::from_str(configured))
    } else {
        let mut base = match profile {
            Some(p) => p,
            None => String::from_str("."),
        };
        base.append("\\Stickers");
        StickerRoot::Standard(base)
    }
}

/// The settings in effect: those read from the settings file, or the defaults
/// when there is no file or it cannot be read or parsed.
pub fn settings_or_default(read: Option<AppSettings>) -> (r: AppSettings)
    ensures
        read matches Some(s) ==> r == s,
        read is None ==> r.is_default(),
{
    match read {
        Some(s) => s,
        None => AppSettings::default(),
    }
}

} // verus!
