//! The panel interface: draw-buffer accumulation, the panel capability
//! surface, the weighted layout tree and the window event shell.

pub mod draw;
pub mod layout;
pub mod panel;
pub mod window;

pub use draw::DrawBuffer;
pub use layout::Layout;
pub use layout::Orientation;
pub use panel::Key;
pub use panel::Panel;
pub use window::Window;
