//! Patterns by which paths are matched, as in `.gitignore` files.
use vstd::prelude::*;

pub mod pattern;

verus! {

/// A pattern together with what was found out about it when it was read.
#[derive(Debug, Clone, PartialEq, Eq)]
pub struct Pattern {
    /// the actual pattern bytes
    inner: Vec<u8>,
    mode: pattern::Mode,
}

/// What a [`Pattern`] holds, as plain values.
pub struct PatternView {
    /// The bytes of the pattern.
    pub text: Seq<u8>,
    /// The mode of the pattern.
    pub mode: pattern::Mode,
}

impl View for Pattern {
    type V = PatternView;

    closed spec fn view(&self) -> PatternView {
        PatternView { text: self.inner@, mode: self.mode }
    }
}

impl Pattern {
    /// Create a pattern from its bytes and its `mode`.
    pub fn new(pattern: Vec<u8>, mode: pattern::Mode) -> (created: Self)
        ensures
            created@.text == pattern@,
            created@.mode == mode,
    {
        Pattern { inner: pattern, mode }
    }

    /// The bytes of the pattern.
    pub fn text(&self) -> (text: &[u8])
        ensures
            text@ == self@.text,
    {
        self.inner.as_slice()
    }

    /// The mode of the pattern.
    pub fn mode(&self) -> (mode: pattern::Mode)
        ensures
            mode == self@.mode,
    {
        self.mode
    }
}

} // verus!
