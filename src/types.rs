//! Small value types shared by the layout engine.
use vstd::prelude::*;

verus! {

/// A 0-based position of an entry within one conversation.
#[derive(Debug, Clone, Copy, PartialEq, Eq, Structural)]
pub struct EntryIndex(pub usize);

impl EntryIndex {
    pub fn new(index: usize) -> (r: Self)
        ensures
            r.0 == index,
    {
        EntryIndex(index)
    }

    pub fn get(&self) -> (r: usize)
        ensures
            r == self.0,
    {
        self.0
    }

    /// The 1-based number shown to users.
    pub fn display(&self) -> (r: usize)
        requires
            self.0 < usize::MAX,
        ensures
            r == self.0 + 1,
    {
        self.0 + 1
    }
}

/// Height of an entry in display lines; never zero.
#[derive(Debug, Clone, Copy, PartialEq, Eq, Structural)]
pub struct LineHeight(usize);

impl LineHeight {
    pub closed spec fn spec_get(&self) -> usize {
        self.0
    }

    /// Builds a height, refusing zero.
    pub fn new(lines: usize) -> (r: Option<Self>)
        ensures
            r.is_some() <==> lines > 0,
            r.is_some() ==> r.unwrap().spec_get() == lines,
    {
        if lines == 0 {
            None
        } else {
            Some(LineHeight(lines))
        }
    }

    pub fn one() -> (r: Self)
        ensures
            r.spec_get() == 1,
    {
        LineHeight(1)
    }

    pub fn get(&self) -> (r: usize)
        ensures
            r == self.spec_get(),
    {
        self.0
    }
}

/// Absolute row offset within one conversation's content.
#[derive(Debug, Clone, Copy, PartialEq, Eq, Structural)]
pub struct LineOffset(pub usize);

impl LineOffset {
    pub fn new(offset: usize) -> (r: Self)
        ensures
            r.0 == offset,
    {
        LineOffset(offset)
    }

    pub fn get(&self) -> (r: usize)
        ensures
            r == self.0,
    {
        self.0
    }
}

/// Size of the visible terminal rectangle.
#[derive(Debug, Clone, Copy, PartialEq, Eq, Structural)]
pub struct ViewportDimensions {
    pub width: u16,
    pub height: u16,
}

impl ViewportDimensions {
    pub fn new(width: u16, height: u16) -> (r: Self)
        ensures
            r.width == width,
            r.height == height,
    {
        ViewportDimensions { width, height }
    }
}

/// Whether long lines are split to fit the width.
#[derive(Debug, Clone, Copy, PartialEq, Eq, Structural)]
pub enum WrapMode {
    Wrap,
    NoWrap,
}

/// Global parameters of a full layout pass.
#[derive(Debug, Clone, Copy, PartialEq, Eq, Structural)]
pub struct LayoutParams {
    pub width: u16,
    pub global_wrap: WrapMode,
}

impl LayoutParams {
    pub fn new(width: u16, global_wrap: WrapMode) -> (r: Self)
        ensures
            r.width == width,
            r.global_wrap == global_wrap,
    {
        LayoutParams { width, global_wrap }
    }
}

} // verus!
