//! LemonCraft game logic: the verified core of the client UI widgets, the
//! server's block mining progress, metrics sampling and the browser launcher.

pub mod brand;
pub mod drag;
pub mod text;
pub mod slot;
pub mod rich_text;
pub mod block_damage;
pub mod item_tooltip;
pub mod metrics;
pub mod toggle_button;
pub mod wasm;
pub mod grudge;
pub mod auto_pickup;
pub mod asset_source;
pub mod systems;
pub mod radio_list;
pub mod image_slider;
pub mod theme;
pub mod style;
