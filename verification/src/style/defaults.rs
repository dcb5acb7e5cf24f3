//! Defaults the renderer applies to every widget.
use vstd::prelude::*;

verus! {

/// Defaults of the menu renderer: text is drawn in the theme's body color
/// unless a widget says otherwise.
#[derive(Debug, Clone, Copy)]
pub struct Defaults {
    pub text_color: [u8; 4],
}

impl Default for Defaults {
    fn default() -> (d: Self)
        ensures
            d.text_color == crate::theme::brand::TEXT_PRIMARY,
    {
        Defaults { text_color: crate::theme::brand::TEXT_PRIMARY }
    }
}

} // verus!
