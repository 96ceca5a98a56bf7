//! Plain values exchanged with the host page: options, modes and the names
//! by which the host selects color spaces and easings.
use crate::colors::bytes_eq;
use crate::selection::EasingType;
use vstd::prelude::*;
use vstd::string::StringSliceAdditionalSpecFns;

verus! {

/// How much power the renderer may draw.
#[derive(Debug, Clone, Copy, PartialEq, Eq, Structural, PartialOrd, Ord, Hash)]
pub enum PowerProfile {
    Auto,
    Low,
    High,
}

/// A part of the plot whose color can be set.
#[derive(Debug, Clone, Copy, PartialEq, Eq, Structural, PartialOrd, Ord, Hash)]
pub enum Element {
    Background,
    Brush,
    Unselected,
}

/// The order in which data lines are drawn.
#[derive(Debug, Clone, Copy, PartialEq, Eq, Structural, PartialOrd, Ord)]
pub enum DrawOrder {
    Unordered,
    Increasing,
    Decreasing,
    SelectedUnordered,
    SelectedIncreasing,
    SelectedDecreasing,
}

/// How much the user may change the plot.
#[derive(Debug, Clone, Copy, PartialEq, Eq, Structural, PartialOrd, Ord, Hash)]
pub enum InteractionMode {
    Disabled,
    RestrictedCompatibility,
    Compatibility,
    Restricted,
    Full,
}

impl InteractionMode {
    /// Whether axes may be moved.
    pub fn enables_reorder(self) -> (r: bool)
        ensures
            r == (self != InteractionMode::Disabled),
    {
        !matches!(self, InteractionMode::Disabled)
    }

    /// Whether selections may be created or changed.
    pub fn enables_modification(self) -> (r: bool)
        ensures
            r == (self == InteractionMode::Compatibility || self == InteractionMode::Full),
    {
        matches!(self, InteractionMode::Compatibility | InteractionMode::Full)
    }

    /// Whether axes may be expanded or collapsed.
    pub fn enables_state_change(self) -> (r: bool)
        ensures
            r == (self == InteractionMode::Restricted || self == InteractionMode::Full),
    {
        matches!(self, InteractionMode::Restricted | InteractionMode::Full)
    }
}

/// How the visible axes are ordered: as they come, or as a given sequence
/// of axis keys, from left to right.
pub enum AxisOrder {
    Automatic,
    Custom { order: Vec<String> },
}

/// A color space the host can name.
#[derive(Debug, Clone, Copy, PartialEq, Eq, Structural, PartialOrd, Ord, Hash)]
pub enum ColorSpace {
    SRgb,
    Xyz,
    CieLab,
    CieLch,
}

/// The color space named `name`: `"srgb"`, `"xyz"`, `"cie_lab"` or
/// `"cie_lch"`.
pub open spec fn color_space_named(name: Seq<u8>) -> Option<ColorSpace> {
    if name == "srgb".spec_bytes() {
        Some(ColorSpace::SRgb)
    } else if name == "xyz".spec_bytes() {
        Some(ColorSpace::Xyz)
    } else if name == "cie_lab".spec_bytes() {
        Some(ColorSpace::CieLab)
    } else if name == "cie_lch".spec_bytes() {
        Some(ColorSpace::CieLch)
    } else {
        None
    }
}

/// Reads the name of a color space; `None` for an unknown name.
pub fn parse_color_space(name: &str) -> (r: Option<ColorSpace>)
    ensures
        r == color_space_named(name.spec_bytes()),
{
    let name = name.as_bytes();
    if bytes_eq(name, "srgb".as_bytes()) {
        Some(ColorSpace::SRgb)
    } else if bytes_eq(name, "xyz".as_bytes()) {
        Some(ColorSpace::Xyz)
    } else if bytes_eq(name, "cie_lab".as_bytes()) {
        Some(ColorSpace::CieLab)
    } else if bytes_eq(name, "cie_lch".as_bytes()) {
        Some(ColorSpace::CieLch)
    } else {
        None
    }
}

/// The easing named `name`: none or `"linear"`, `"in"`, `"out"`, `"inout"`.
pub open spec fn easing_named(name: Option<Seq<u8>>) -> Option<EasingType> {
    match name {
        None => Some(EasingType::Linear),
        Some(n) => if n == "linear".spec_bytes() {
            Some(EasingType::Linear)
        } else if n == "in".spec_bytes() {
            Some(EasingType::EaseIn)
        } else if n == "out".spec_bytes() {
            Some(EasingType::EaseOut)
        } else if n == "inout".spec_bytes() {
            Some(EasingType::EaseInOut)
        } else {
            None
        },
    }
}

/// Reads the name of an easing; no name means linear easing, and an unknown
/// name gives `None`.
pub fn parse_easing(name: Option<&str>) -> (r: Option<EasingType>)
    ensures
        r == easing_named(
            match name {
                Some(n) => Some(n.spec_bytes()),
                None => None,
            },
        ),
{
    match name {
        None => Some(EasingType::Linear),
        Some(n) => {
            let n = n.as_bytes();
            if bytes_eq(n, "linear".as_bytes()) {
                Some(EasingType::Linear)
            } else if bytes_eq(n, "in".as_bytes()) {
                Some(EasingType::EaseIn)
            } else if bytes_eq(n, "out".as_bytes()) {
                Some(EasingType::EaseOut)
            } else if bytes_eq(n, "inout".as_bytes()) {
                Some(EasingType::EaseInOut)
            } else {
                None
            }
        },
    }
}

/// Which debug overlays are drawn.
#[derive(Debug, Clone, Copy, PartialEq, Eq, Structural)]
pub struct DebugOptions {
    pub show_axis_bounding_box: bool,
    pub show_label_bounding_box: bool,
    pub show_curves_bounding_box: bool,
    pub show_axis_line_bounding_box: bool,
    pub show_selections_bounding_box: bool,
    pub show_color_bar_bounding_box: bool,
}

impl DebugOptions {
    /// Whether some overlay is drawn.
    pub open spec fn some_active(self) -> bool {
        self.show_axis_bounding_box || self.show_label_bounding_box
            || self.show_curves_bounding_box || self.show_axis_line_bounding_box
            || self.show_selections_bounding_box || self.show_color_bar_bounding_box
    }

    /// Options with every overlay off.
    pub fn new() -> (r: Self)
        ensures
            !r.some_active(),
    {
        DebugOptions {
            show_axis_bounding_box: false,
            show_label_bounding_box: false,
            show_curves_bounding_box: false,
            show_axis_line_bounding_box: false,
            show_selections_bounding_box: false,
            show_color_bar_bounding_box: false,
        }
    }

    /// Checks whether some overlay is drawn.
    pub fn any_is_active(&self) -> (r: bool)
        ensures
            r == self.some_active(),
    {
        self.show_axis_bounding_box || self.show_label_bounding_box
            || self.show_curves_bounding_box || self.show_axis_line_bounding_box
            || self.show_selections_bounding_box || self.show_color_bar_bounding_box
    }

    /// Checks whether no overlay is drawn.
    pub fn none_is_active(&self) -> (r: bool)
        ensures
            r == !self.some_active(),
    {
        !self.any_is_active()
    }
}

impl Default for DebugOptions {
    fn default() -> (r: Self)
        ensures
            !r.some_active(),
    {
        Self::new()
    }
}

} // verus!
