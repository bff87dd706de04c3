//! Light / dark PNG variants of an SF Symbol icon.

use vstd::prelude::*;

verus! {

/// The two PNG renderings of one symbol.
#[derive(Debug, Clone, Copy)]
pub struct SfImage {
    light: &'static [u8],
    dark: &'static [u8],
}

impl SfImage {
    /// The light-mode PNG.
    pub closed spec fn spec_light(&self) -> Seq<u8> {
        self.light@
    }

    /// The dark-mode PNG.
    pub closed spec fn spec_dark(&self) -> Seq<u8> {
        self.dark@
    }

    /// An icon from its light- and dark-mode PNG bytes.
    pub fn new(light: &'static [u8], dark: &'static [u8]) -> (r: Self)
        ensures
            r.spec_light() == light@,
            r.spec_dark() == dark@,
    {
        SfImage { light, dark }
    }

    /// The PNG for the given appearance.
    pub fn bytes_for(&self, dark_mode: bool) -> (r: &'static [u8])
        ensures
            r@ == if dark_mode { self.spec_dark() } else { self.spec_light() },
    {
        if dark_mode {
            self.dark
        } else {
            self.light
        }
    }

    /// The PNG for a native menu item on a platform that shows menu icons (everywhere but
    /// Windows builds without menu icons, where the host passes `false`).
    pub fn menu_png_bytes_for(&self, dark_mode: bool, platform_shows_menu_icons: bool) -> (r: Option<&'static [u8]>)
        ensures
            match r {
                Some(b) => platform_shows_menu_icons && b@ == if dark_mode { self.spec_dark() } else { self.spec_light() },
                None => !platform_shows_menu_icons,
            },
    {
        if platform_shows_menu_icons {
            Some(self.bytes_for(dark_mode))
        } else {
            None
        }
    }
}

} // verus!
