//! Keyboard events and the per-node dispatch policy.

use vstd::prelude::*;

verus! {

/// A keyboard event: a key code together with modifier flags. The engine
/// never interprets these values; it only routes them through the tree.
#[derive(Clone, Copy, PartialEq, Eq, Structural, Debug)]
pub struct KeyEvent {
    pub code: u16,
    pub modifiers: u8,
}

/// What a node does when a key event reaches it.
///
/// A bound handler is named by a number; the surrounding application maps
/// that number to its callback and runs it for every invocation the
/// dispatch reports. The variant fixes whether the node lets the event
/// continue to its child.
#[derive(Clone, Copy, PartialEq, Eq, Structural, Debug)]
pub enum KeyHandler {
    /// No handler bound: the event passes to the child unchanged.
    Propagate,
    /// A handler is bound and swallows the event.
    Consume(u64),
    /// A handler is bound and then passes the event on to the child.
    Forward(u64),
}

impl Default for KeyHandler {
    /// The default is to have no handler bound.
    fn default() -> (h: KeyHandler)
        ensures
            h == KeyHandler::Propagate,
    {
        KeyHandler::Propagate
    }
}

} // verus!
