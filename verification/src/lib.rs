//! The runtime core of a terminal user-interface toolkit.
//!
//! The crate owns the application's view tree, negotiates layout, draws
//! through an abstract backend and routes input events: first to the menu
//! bar when it captures input, otherwise to the active screen, and finally
//! to a table of global callbacks.
//!
//! Views, backends and callbacks are traits for the application to
//! implement. Each of their methods comes with a relation that says what
//! the method may do; the contracts of the toolkit are stated through these
//! relations, so they say what was handed to a view or a backend and what
//! became of its answer, whatever the implementation is.
//!
//! - [`geometry`]: sizes and positions.
//! - [`event`]: input events, and the answer of a view to one.
//! - [`theme`]: colors and the theme.
//! - [`backend`]: what is asked of a terminal.
//! - [`printer`]: the drawing context handed to a view.
//! - [`widget`]: what every view can do.
//! - [`stack_view`]: a screen, as a stack of layers.
//! - [`menubar`]: the menu bar.
//! - [`callback`]: the table of global callbacks.
//! - [`cursive`]: the root and its event loop.
//! - [`laws`]: what holds of the root whatever the application is.

pub mod geometry;
pub mod event;
pub mod theme;
pub mod backend;
pub mod printer;
pub mod widget;
pub mod stack_view;
pub mod menubar;
pub mod callback;
pub mod cursive;
pub mod laws;

pub use crate::backend::Backend;
pub use crate::callback::CallbackController;
pub use crate::cursive::{CbFunc, Cursive, ScreenId};
