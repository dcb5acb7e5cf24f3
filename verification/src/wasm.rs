//! Entry point of the browser launcher of the singleplayer game.
//!
//! The browser bootstrap mounts the canvas and draws a version label; it only
//! exists in browser builds, and everywhere else starting does nothing.
use vstd::prelude::*;
use vstd::string::*;

verus! {

/// Starts the launcher; a native build has nothing to start.
pub fn start() {
}

/// The characters of the label's prefix.
pub open spec fn label_prefix() -> Seq<char> {
    seq!['L', 'e', 'm', 'o', 'n', 'C', 'r', 'a', 'f', 't', ' ', 'v']
}

/// The version label drawn on the launcher canvas: `LemonCraft v<version>`.
pub fn launcher_label(version: &str) -> (label: String)
    ensures
        label@ == label_prefix() + version@,
{
    let mut label = String::from_str("LemonCraft v");
    label.append(version);
    proof {
        reveal_strlit("LemonCraft v");
    }
    label
}

} // verus!
