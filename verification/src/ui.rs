pub mod label;
pub mod layout;
pub mod style;
pub mod surface;
pub mod table;

pub use label::Label;
pub use layout::{Direction, Layout, LayoutBuffer};
pub use style::{Borders, Padding, Style, RGBA};
pub use surface::{Surface, SurfaceOnRender};
pub use table::Table;
