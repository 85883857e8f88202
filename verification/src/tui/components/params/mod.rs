//! Parameter editing components: sub-focus orders and value selection.

pub mod accent_controls;
pub mod curve_controls;
pub mod hellwig_picker;
pub mod hue_grid;
pub mod oklch_picker;
pub mod selector;
pub mod slider;
pub mod weight_controls;

pub use hellwig_picker::HellwigPickerType;
pub use selector::SelectorType;
pub use slider::SliderType;
