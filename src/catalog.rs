//! A sample `Icon` enum of the shape that `create_enum_text` writes.
use vstd::prelude::*;

verus! {

/// The icons of a sample icon directory.
pub enum Icon {
    CircleHeatSvgrepoCom,
    CloudRainAlt1SvgrepoCom,
    CloudRainbowSvgrepoCom,
    CloudSunSvgrepoCom,
    CloudSvgrepoCom,
    HurricaneAltSvgrepoCom,
    LinkSvgrepoCom1,
    LinkSvgrepoCom,
}

/// The path of the file of `icon`.
pub open spec fn icon_path(icon: Icon) -> Seq<char> {
    match icon {
        Icon::CircleHeatSvgrepoCom => "assets/icons/circle-heat-svgrepo-com.svg"@,
        Icon::CloudRainAlt1SvgrepoCom => "assets/icons/cloud-rain-alt-1-svgrepo-com.svg"@,
        Icon::CloudRainbowSvgrepoCom => "assets/icons/cloud-rainbow-svgrepo-com.svg"@,
        Icon::CloudSunSvgrepoCom => "assets/icons/cloud-sun-svgrepo-com.svg"@,
        Icon::CloudSvgrepoCom => "assets/icons/cloud-svgrepo-com.svg"@,
        Icon::HurricaneAltSvgrepoCom => "assets/icons/hurricane-alt-svgrepo-com.svg"@,
        Icon::LinkSvgrepoCom1 => "assets/icons/link-svgrepo-com(1).svg"@,
        Icon::LinkSvgrepoCom => "assets/icons/link-svgrepo-com.svg"@,
    }
}

impl Icon {
    /// The path of this icon's file.
    pub fn path(&self) -> (r: &'static str)
        ensures
            r@ == icon_path(*self),
    {
        match self {
            Icon::CircleHeatSvgrepoCom => "assets/icons/circle-heat-svgrepo-com.svg",
            Icon::CloudRainAlt1SvgrepoCom => "assets/icons/cloud-rain-alt-1-svgrepo-com.svg",
            Icon::CloudRainbowSvgrepoCom => "assets/icons/cloud-rainbow-svgrepo-com.svg",
            Icon::CloudSunSvgrepoCom => "assets/icons/cloud-sun-svgrepo-com.svg",
            Icon::CloudSvgrepoCom => "assets/icons/cloud-svgrepo-com.svg",
            Icon::HurricaneAltSvgrepoCom => "assets/icons/hurricane-alt-svgrepo-com.svg",
            Icon::LinkSvgrepoCom1 => "assets/icons/link-svgrepo-com(1).svg",
            Icon::LinkSvgrepoCom => "assets/icons/link-svgrepo-com.svg",
        }
    }
}

} // verus!
