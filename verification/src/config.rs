//! The keymap part of the configuration.

use crate::text::{push_chars, str_chars, string_from_chars};
use vstd::prelude::*;

verus! {

broadcast use vstd::string::group_string_axioms;

/// Where to read the keymap from, and what to call its layers.
#[derive(Debug, Clone)]
pub struct KeymapConfig {
    pub keymap_path: Option<String>,
    pub layer_names: Vec<String>,
}

/// Where the keymap of the `jk` keymap of a Corne sits in a QMK checkout in `home`.
pub open spec fn default_keymap_path(home: Seq<char>) -> Seq<char> {
    home + "/qmk_firmware/keyboards/crkbd/keymaps/jk/keymap.c"@
}

/// The names of the four layers of a Corne keymap.
pub open spec fn default_layer_names() -> Seq<Seq<char>> {
    seq!["Base"@, "Lower"@, "Raise"@, "Adjust"@]
}

impl KeymapConfig {
    /// The default configuration for a user whose home directory is `home`.
    pub fn default_for_home(home: &str) -> (c: Self)
        ensures
            c.keymap_path matches Some(p) && p@ == default_keymap_path(home@),
            c.layer_names@.map_values(|s: String| s@) == default_layer_names(),
    {
        let mut path = str_chars(home);
        let tail = str_chars("/qmk_firmware/keyboards/crkbd/keymaps/jk/keymap.c");
        push_chars(&mut path, &tail);
        let layer_names = vec![
            "Base".to_string(),
            "Lower".to_string(),
            "Raise".to_string(),
            "Adjust".to_string(),
        ];
        assert(layer_names@.map_values(|s: String| s@) =~= default_layer_names());
        KeymapConfig { keymap_path: Some(string_from_chars(&path)), layer_names }
    }
}

} // verus!
