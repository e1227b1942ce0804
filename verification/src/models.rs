//! The records the library hands to its callers.
use vstd::prelude::*;
use vstd::string::StringExecFns;

verus! {

/// One indexed sticker.
#[derive(Clone, Debug)]
pub struct Sticker {
    pub id: i64,
    pub name: String,
    pub path: String,
    pub thumbnail_path: String,
    pub format: String,
    pub pack: String,
    pub is_favorite: bool,
    pub width: u32,
    pub height: u32,
}

/// The user's settings.
#[derive(Clone, Debug)]
pub struct AppSettings {
    pub sticker_path: String,
    pub recents_limit: usize,
    pub theme: String,
    pub disable_animations: bool,
    pub max_items: i32,
    pub run_on_startup: bool,
}

impl AppSettings {
    /// The settings of a fresh installation.
    pub open spec fn is_default(self) -> bool {
        &&& self.sticker_path@ == Seq::<char>::empty()
        &&& self.recents_limit == 18
        &&& self.theme@ == "acrylic"@
        &&& !self.disable_animations
        &&& self.max_items == 200
        &&& self.run_on_startup
    }
}

impl Default for AppSettings {
    /// No sticker folder chosen, 18 recents, the acrylic theme, animations on,
    /// 200 stickers per tab, and starting with the system.
    fn default() -> (r: Self)
        ensures
            r.is_default(),
    {
        AppSettings {
            sticker_path: String::new(),
            recents_limit: 18,
            theme: String::from_str("acrylic"),
            disable_animations: false,
            max_items: 200,
            run_on_startup: true,
        }
    }
}

/// Progress of an indexing run, as reported to the window.
#[derive(Clone, Debug)]
pub struct ProgressPayload {
    pub current: usize,
    pub total: usize,
    pub eta_seconds: Option<u64>,
}

impl ProgressPayload {
    /// The report that ends an indexing run: nothing counted, no time left.
    pub fn finished() -> (r: Self)
        ensures
            r.current == 0,
            r.total == 0,
            r.eta_seconds == Some(0u64),
    {
        ProgressPayload { current: 0, total: 0, eta_seconds: Some(0) }
    }
}

} // verus!
