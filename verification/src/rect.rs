use vstd::prelude::*;

verus! {

/// An axis-aligned rectangle, measured in pixels.
#[derive(Debug)]
pub struct Rectangle {
    pub width: u32,
    pub height: u32,
}

impl Rectangle {
    /// The rectangle's area.
    pub fn area(&self) -> (a: u32)
        requires
            self.width * self.height <= u32::MAX,
        ensures
            a == self.width * self.height,
    {
        self.width * self.height
    }

    /// Whether `rectangle` fits strictly inside `self`.
    pub fn can_hold(&self, rectangle: &Rectangle) -> (r: bool)
        ensures
            r == (self.width > rectangle.width && self.height > rectangle.height),
    {
        self.width > rectangle.width && self.height > rectangle.height
    }

    /// A square with the given side length.
    pub fn square(size: u32) -> (r: Rectangle)
        ensures
            r.width == size,
            r.height == size,
    {
        Rectangle { width: size, height: size }
    }
}

} // verus!
