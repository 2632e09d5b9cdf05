//! The bordered box element: four corner characters, horizontal and
//! vertical border characters, and named child elements.

use vstd::prelude::*;

use crate::buffer::{cell_write, Buffer};
use crate::elements::node::Element;
use crate::error::Error;

verus! {

/// What drawing the horizontal border pair does to the grid: for each
/// interior column `i` of a box of width `rw` anchored at column `rx`,
/// write `hb` on the top row `yt` and then on the bottom row `yb`.
pub open spec fn hpair_written(
    g: Seq<char>,
    w: int,
    h: int,
    rx: int,
    yt: int,
    yb: int,
    hb: char,
    i: int,
    rw: int,
) -> Result<Seq<char>, Error>
    decreases rw - i,
{
    if i >= rw - 1 {
        Ok(g)
    } else {
        match cell_write(g, w, h, rx + i, yt, hb) {
            Ok(g1) => match cell_write(g1, w, h, rx + i, yb, hb) {
                Ok(g2) => hpair_written(g2, w, h, rx, yt, yb, hb, i + 1, rw),
                Err(e) => Err(e),
            },
            Err(e) => Err(e),
        }
    }
}

/// What drawing the vertical border pair does to the grid: for each
/// interior row `i` of a box of height `rh` anchored at row `ry`, write
/// `vb` in the left column `xl` and then in the right column `xr`.
pub open spec fn vpair_written(
    g: Seq<char>,
    w: int,
    h: int,
    xl: int,
    xr: int,
    ry: int,
    vb: char,
    i: int,
    rh: int,
) -> Result<Seq<char>, Error>
    decreases rh - i,
{
    if i >= rh - 1 {
        Ok(g)
    } else {
        match cell_write(g, w, h, xl, ry + i, vb) {
            Ok(g1) => match cell_write(g1, w, h, xr, ry + i, vb) {
                Ok(g2) => vpair_written(g2, w, h, xl, xr, ry, vb, i + 1, rh),
                Err(e) => Err(e),
            },
            Err(e) => Err(e),
        }
    }
}

/// What drawing a rectangle's own frame does to the grid: the four
/// corners in the order top-left, top-right, bottom-left, bottom-right,
/// then the horizontal border pairs, then the vertical border pairs.
/// The first out-of-bounds write aborts the rest with its error.
pub open spec fn frame_written(
    g: Seq<char>,
    w: int,
    h: int,
    rx: int,
    ry: int,
    rw: int,
    rh: int,
    tl: char,
    tr: char,
    bl: char,
    br: char,
    hb: char,
    vb: char,
) -> Result<Seq<char>, Error> {
    match cell_write(g, w, h, rx, ry, tl) {
        Err(e) => Err(e),
        Ok(g1) => match cell_write(g1, w, h, rx + rw - 1, ry, tr) {
            Err(e) => Err(e),
            Ok(g2) => match cell_write(g2, w, h, rx, ry + rh - 1, bl) {
                Err(e) => Err(e),
                Ok(g3) => match cell_write(g3, w, h, rx + rw - 1, ry + rh - 1, br) {
                    Err(e) => Err(e),
                    Ok(g4) => match hpair_written(g4, w, h, rx, ry, ry + rh - 1, hb, 1, rw) {
                        Err(e) => Err(e),
                        Ok(g5) => vpair_written(g5, w, h, rx, rx + rw - 1, ry, vb, 1, rh),
                    },
                },
            },
        },
    }
}

/// A bordered box element. The border characters all default to a space;
/// the builder methods replace them one at a time.
pub struct Rectangle {
    pub x: usize,
    pub y: usize,
    pub width: usize,
    pub height: usize,
    pub horizontal_border: char,
    pub vertical_border: char,
    pub top_left: char,
    pub top_right: char,
    pub bottom_left: char,
    pub bottom_right: char,
    pub sub_elements: Vec<(String, Element)>,
}

impl Rectangle {
    /// A box of the given dimensions with all border characters a space
    /// and no children. Boxes narrower or shorter than two cells cannot
    /// be drawn, so they cannot be constructed.
    pub fn new(x: usize, y: usize, width: usize, height: usize) -> (r: Rectangle)
        requires
            2 <= width,
            2 <= height,
            x + width - 1 <= usize::MAX,
            y + height - 1 <= usize::MAX,
        ensures
            r.x == x,
            r.y == y,
            r.width == width,
            r.height == height,
            r.top_left == ' ',
            r.top_right == ' ',
            r.bottom_left == ' ',
            r.bottom_right == ' ',
            r.horizontal_border == ' ',
            r.vertical_border == ' ',
            r.sub_elements@.len() == 0,
    {
        Rectangle {
            x,
            y,
            width,
            height,
            top_left: ' ',
            top_right: ' ',
            bottom_left: ' ',
            bottom_right: ' ',
            vertical_border: ' ',
            horizontal_border: ' ',
            sub_elements: Vec::new(),
        }
    }

    pub fn top_left(self, character: char) -> (r: Self)
        ensures
            r == (Rectangle { top_left: character, ..self }),
    {
        let mut s = self;
        s.top_left = character;
        s
    }

    pub fn top_right(self, character: char) -> (r: Self)
        ensures
            r == (Rectangle { top_right: character, ..self }),
    {
        let mut s = self;
        s.top_right = character;
        s
    }

    pub fn bottom_left(self, character: char) -> (r: Self)
        ensures
            r == (Rectangle { bottom_left: character, ..self }),
    {
        let mut s = self;
        s.bottom_left = character;
        s
    }

    pub fn bottom_right(self, character: char) -> (r: Self)
        ensures
            r == (Rectangle { bottom_right: character, ..self }),
    {
        let mut s = self;
        s.bottom_right = character;
        s
    }

    pub fn horizontal_border(self, character: char) -> (r: Self)
        ensures
            r == (Rectangle { horizontal_border: character, ..self }),
    {
        let mut s = self;
        s.horizontal_border = character;
        s
    }

    pub fn vertical_border(self, character: char) -> (r: Self)
        ensures
            r == (Rectangle { vertical_border: character, ..self }),
    {
        let mut s = self;
        s.vertical_border = character;
        s
    }

    /// Draw this box's own frame (corners and borders, not the children):
    /// exactly `frame_written` on the grid. Writes before the first
    /// failing one remain in the buffer.
    #[verifier::loop_isolation(false)]
    pub fn draw_frame(&self, buffer: &mut Buffer) -> (r: Result<(), Error>)
        requires
            old(buffer).wf(),
            2 <= self.width,
            2 <= self.height,
            self.x + self.width - 1 <= usize::MAX,
            self.y + self.height - 1 <= usize::MAX,
        ensures
            final(buffer).wf(),
            final(buffer).width() == old(buffer).width(),
            final(buffer).height() == old(buffer).height(),
            match frame_written(
                old(buffer)@,
                old(buffer).width() as int,
                old(buffer).height() as int,
                self.x as int,
                self.y as int,
                self.width as int,
                self.height as int,
                self.top_left,
                self.top_right,
                self.bottom_left,
                self.bottom_right,
                self.horizontal_border,
                self.vertical_border,
            ) {
                Ok(g) => r == Ok::<(), Error>(()) && final(buffer)@ == g,
                Err(e) => r == Err::<(), Error>(e),
            },
    {
        let right = self.x + (self.width - 1);
        let bottom = self.y + (self.height - 1);
        match buffer.draw_char(self.x, self.y, self.top_left) {
            Ok(()) => {
            }
            Err(e) => {
                return Err(e);
            }
        }
        match buffer.draw_char(right, self.y, self.top_right) {
            Ok(()) => {
            }
            Err(e) => {
                return Err(e);
            }
        }
        match buffer.draw_char(self.x, bottom, self.bottom_left) {
            Ok(()) => {
            }
            Err(e) => {
                return Err(e);
            }
        }
        match buffer.draw_char(right, bottom, self.bottom_right) {
            Ok(()) => {
            }
            Err(e) => {
                return Err(e);
            }
        }
        let ghost g4 = buffer@;
        let mut i: usize = 1;
        while i < self.width - 1
            invariant
                buffer.wf(),
                buffer.width() == old(buffer).width(),
                buffer.height() == old(buffer).height(),
                1 <= i <= self.width - 1,
                hpair_written(
                    g4,
                    buffer.width() as int,
                    buffer.height() as int,
                    self.x as int,
                    self.y as int,
                    bottom as int,
                    self.horizontal_border,
                    1,
                    self.width as int,
                ) == hpair_written(
                    buffer@,
                    buffer.width() as int,
                    buffer.height() as int,
                    self.x as int,
                    self.y as int,
                    bottom as int,
                    self.horizontal_border,
                    i as int,
                    self.width as int,
                ),
            decreases self.width - i,
        {
            let cx = self.x + i;
            match buffer.draw_char(cx, self.y, self.horizontal_border) {
                Ok(()) => {
                }
                Err(e) => {
                    return Err(e);
                }
            }
            match buffer.draw_char(cx, bottom, self.horizontal_border) {
                Ok(()) => {
                }
                Err(e) => {
                    return Err(e);
                }
            }
            i = i + 1;
        }
        let ghost g5 = buffer@;
        let mut j: usize = 1;
        while j < self.height - 1
            invariant
                buffer.wf(),
                buffer.width() == old(buffer).width(),
                buffer.height() == old(buffer).height(),
                1 <= j <= self.height - 1,
                vpair_written(
                    g5,
                    buffer.width() as int,
                    buffer.height() as int,
                    self.x as int,
                    right as int,
                    self.y as int,
                    self.vertical_border,
                    1,
                    self.height as int,
                ) == vpair_written(
                    buffer@,
                    buffer.width() as int,
                    buffer.height() as int,
                    self.x as int,
                    right as int,
                    self.y as int,
                    self.vertical_border,
                    j as int,
                    self.height as int,
                ),
            decreases self.height - j,
        {
            let cy = self.y + j;
            match buffer.draw_char(self.x, cy, self.vertical_border) {
                Ok(()) => {
                }
                Err(e) => {
                    return Err(e);
                }
            }
            match buffer.draw_char(right, cy, self.vertical_border) {
                Ok(()) => {
                }
                Err(e) => {
                    return Err(e);
                }
            }
            j = j + 1;
        }
        Ok(())
    }
}

} // verus!
