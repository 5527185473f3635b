//! Core engine of a declarative terminal-interface component framework:
//! styled text runs, rectangles, the flex layout algorithm, and the
//! component/element render tree.

pub mod backend;
pub mod children;
pub mod component;
pub mod element;
pub mod event;
pub mod flex;
pub mod rect;
pub mod section;
pub mod spans;
pub mod stack;
pub mod style;
