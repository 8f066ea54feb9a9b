pub mod cells;
pub mod frame;
pub mod layout;
pub mod overlays;
pub mod palettes;
pub mod panels;
pub mod terminal;
pub mod theme;
pub mod widgets;
pub mod width;
