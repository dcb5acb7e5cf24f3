//! LemonCraft product shell strings and external-link policy.
//!
//! No URL points at an outside property: the `Option` URLs stay `None` until a
//! first-party site exists.
use vstd::prelude::*;
use vstd::string::*;

verus! {

pub const PRODUCT_NAME: &'static str = "LemonCraft";

pub const WINDOW_TITLE: &'static str = "LemonCraft";

/// Wayland reverse-DNS application id.
pub const WAYLAND_APP_ID: &'static str = "net.lemoncraft.lemoncraft";

pub const WAYLAND_APP_TITLE: &'static str = "lemoncraft";

/// Issue tracker URL for crash dialogs. `None` means no external link.
pub const ISSUE_TRACKER_URL: Option<&'static str> = None;

/// Wiki home URL for `/wiki`. `None` means a localized not-configured message.
pub const WIKI_HOME_URL: Option<&'static str> = None;

/// Wiki search URL template; `{query}` is replaced with `+`-joined terms.
pub const WIKI_SEARCH_URL_TEMPLATE: Option<&'static str> = None;

/// Community Discord invite. `None` means it is omitted from panic text.
pub const DISCORD_URL: Option<&'static str> = None;

/// Mumble positional-audio identity (plugin / link name).
pub const MUMBLE_PLUGIN_NAME: &'static str = "lemoncraft";

pub const MUMBLE_PLUGIN_DESCRIPTION: &'static str = "lemoncraft-voxygen";

/// The text of the product name as characters.
pub open spec fn product_name_chars() -> Seq<char> {
    seq!['L', 'e', 'm', 'o', 'n', 'C', 'r', 'a', 'f', 't']
}

/// Formats `LemonCraft <version>` for UI chrome.
pub fn version_line(display_version: &str) -> (line: String)
    ensures
        line@ == product_name_chars() + seq![' '] + display_version@,
{
    let mut line = String::from_str(PRODUCT_NAME);
    line.append(" ");
    line.append(display_version);
    proof {
        reveal_strlit("LemonCraft");
        reveal_strlit(" ");
    }
    line
}

} // verus!
