//! Terminal emulation core: the screen buffer, the escape-sequence
//! interpreter that changes it, and the bookkeeping of the pseudo-terminal
//! sessions that feed it. Beside them stand the key bindings of the
//! terminal's own actions and what a window lists of its tabs.

pub mod cell;
pub mod color;
pub mod cursor;
pub mod edit;
pub mod keybindings;
pub mod parser;
pub mod pty;
pub mod reflow;
pub mod reflow_laws;
pub mod resize;
pub mod resize_laws;
pub mod scroll;
pub mod search;
pub mod select;
pub mod sgr;
pub mod state;
pub mod text;
pub mod typing_laws;
pub mod view;
pub mod window;
