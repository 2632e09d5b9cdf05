//! The plain grouping element: named children and a position, but no
//! visual representation of its own.

use vstd::prelude::*;

use crate::elements::node::Element;

verus! {

/// A borderless group of named child elements.
pub struct Container {
    pub x: usize,
    pub y: usize,
    pub width: usize,
    pub height: usize,
    pub sub_elements: Vec<(String, Element)>,
}

impl Container {
    pub fn new(x: usize, y: usize, width: usize, height: usize) -> (r: Container)
        ensures
            r.x == x,
            r.y == y,
            r.width == width,
            r.height == height,
            r.sub_elements@.len() == 0,
    {
        Container { x, y, width, height, sub_elements: Vec::new() }
    }
}

} // verus!
