//! The element tree: a node is a leaf text, a bordered rectangle or a
//! plain container, and composite nodes own named children. Children are
//! kept in insertion order, which fixes a deterministic draw order.

use vstd::prelude::*;

use crate::buffer::Buffer;
use crate::elements::container::Container;
use crate::elements::rectangle::{frame_written, Rectangle};
use crate::elements::text::{text_written, Text};
use crate::error::Error;

verus! {

/// A node of the element tree.
pub enum Element {
    Text(Text),
    Rectangle(Rectangle),
    Container(Container),
}

/// The absolute column of an element.
pub open spec fn elem_x(e: Element) -> usize {
    match e {
        Element::Text(t) => t.x,
        Element::Rectangle(r) => r.x,
        Element::Container(c) => c.x,
    }
}

/// The absolute row of an element.
pub open spec fn elem_y(e: Element) -> usize {
    match e {
        Element::Text(t) => t.y,
        Element::Rectangle(r) => r.y,
        Element::Container(c) => c.y,
    }
}

/// The named children of an element; a text leaf has none.
pub open spec fn elem_children(e: Element) -> Seq<(String, Element)> {
    match e {
        Element::Text(_) => Seq::empty(),
        Element::Rectangle(r) => r.sub_elements@,
        Element::Container(c) => c.sub_elements@,
    }
}

/// The component-wise unsigned distance used when a parent's move is
/// propagated to a child.
pub open spec fn dist(a: int, b: int) -> int {
    if a >= b {
        a - b
    } else {
        b - a
    }
}

/// Everything about an element except its children: the variant, the
/// position, the dimensions and the border characters agree.
pub open spec fn same_frame(e0: Element, e1: Element) -> bool {
    match e0 {
        Element::Text(t0) => e1 matches Element::Text(t1) && (t1.x == t0.x && t1.y == t0.y
            && t1.content == t0.content),
        Element::Rectangle(r0) => e1 matches Element::Rectangle(r1) && (r1.x == r0.x && r1.y
            == r0.y && r1.width == r0.width && r1.height == r0.height && r1.top_left
            == r0.top_left && r1.top_right == r0.top_right && r1.bottom_left == r0.bottom_left
            && r1.bottom_right == r0.bottom_right && r1.horizontal_border
            == r0.horizontal_border && r1.vertical_border == r0.vertical_border),
        Element::Container(c0) => e1 matches Element::Container(c1) && (c1.x == c0.x && c1.y
            == c0.y && c1.width == c0.width && c1.height == c0.height),
    }
}

/// A drawable tree: every rectangle in it is at least two cells wide and
/// tall, and its far corner coordinates fit in a `usize`.
pub open spec fn elem_wf(e: Element) -> bool
    decreases e,
{
    match e {
        Element::Text(_) => true,
        Element::Rectangle(r) => {
            &&& 2 <= r.width
            &&& 2 <= r.height
            &&& r.x + r.width - 1 <= usize::MAX
            &&& r.y + r.height - 1 <= usize::MAX
            &&& forall|i: int|
                #![trigger r.sub_elements@[i]]
                0 <= i < r.sub_elements@.len() ==> elem_wf(r.sub_elements@[i].1)
        },
        Element::Container(c) => forall|i: int|
            #![trigger c.sub_elements@[i]]
            0 <= i < c.sub_elements@.len() ==> elem_wf(c.sub_elements@[i].1),
    }
}

/// Whether the element can be moved to `(nx, ny)`: every coordinate that
/// the move computes, for the element and recursively for its children at
/// their propagated targets, fits in a `usize`.
pub open spec fn can_move(e: Element, nx: int, ny: int) -> bool
    decreases e,
{
    match e {
        Element::Text(_) => true,
        Element::Rectangle(r) => {
            &&& nx + r.width - 1 <= usize::MAX
            &&& ny + r.height - 1 <= usize::MAX
            &&& forall|i: int|
                #![trigger r.sub_elements@[i]]
                0 <= i < r.sub_elements@.len() ==> ({
                    let c = r.sub_elements@[i].1;
                    &&& nx + dist(r.x as int, elem_x(c) as int) <= usize::MAX
                    &&& ny + dist(r.y as int, elem_y(c) as int) <= usize::MAX
                    &&& can_move(
                        c,
                        nx + dist(r.x as int, elem_x(c) as int),
                        ny + dist(r.y as int, elem_y(c) as int),
                    )
                })
        },
        Element::Container(grp) => forall|i: int|
            #![trigger grp.sub_elements@[i]]
            0 <= i < grp.sub_elements@.len() ==> ({
                let c = grp.sub_elements@[i].1;
                &&& nx + dist(grp.x as int, elem_x(c) as int) <= usize::MAX
                &&& ny + dist(grp.y as int, elem_y(c) as int) <= usize::MAX
                &&& can_move(
                    c,
                    nx + dist(grp.x as int, elem_x(c) as int),
                    ny + dist(grp.y as int, elem_y(c) as int),
                )
            }),
    }
}

/// `e1` is `e0` moved to `(nx, ny)`: the element's own position becomes
/// `(nx, ny)`, and every child is moved to the new position shifted by
/// the unsigned distance between the child and the parent's old position,
/// recursively. Everything else is unchanged.
pub open spec fn is_moved(e0: Element, e1: Element, nx: int, ny: int) -> bool
    decreases e0,
{
    match e0 {
        Element::Text(t0) => e1 matches Element::Text(t1) && (t1.x == nx && t1.y == ny
            && t1.content == t0.content),
        Element::Rectangle(r0) => e1 matches Element::Rectangle(r1) && ({
            &&& r1.x == nx
            &&& r1.y == ny
            &&& r1.width == r0.width
            &&& r1.height == r0.height
            &&& r1.top_left == r0.top_left
            &&& r1.top_right == r0.top_right
            &&& r1.bottom_left == r0.bottom_left
            &&& r1.bottom_right == r0.bottom_right
            &&& r1.horizontal_border == r0.horizontal_border
            &&& r1.vertical_border == r0.vertical_border
            &&& r1.sub_elements@.len() == r0.sub_elements@.len()
            &&& forall|i: int|
                #![trigger r0.sub_elements@[i]]
                0 <= i < r0.sub_elements@.len() ==> ({
                    let c0 = r0.sub_elements@[i].1;
                    &&& r1.sub_elements@[i].0 == r0.sub_elements@[i].0
                    &&& is_moved(
                        c0,
                        r1.sub_elements@[i].1,
                        nx + dist(r0.x as int, elem_x(c0) as int),
                        ny + dist(r0.y as int, elem_y(c0) as int),
                    )
                })
        }),
        Element::Container(c0) => e1 matches Element::Container(c1) && ({
            &&& c1.x == nx
            &&& c1.y == ny
            &&& c1.width == c0.width
            &&& c1.height == c0.height
            &&& c1.sub_elements@.len() == c0.sub_elements@.len()
            &&& forall|i: int|
                #![trigger c0.sub_elements@[i]]
                0 <= i < c0.sub_elements@.len() ==> ({
                    let ch0 = c0.sub_elements@[i].1;
                    &&& c1.sub_elements@[i].0 == c0.sub_elements@[i].0
                    &&& is_moved(
                        ch0,
                        c1.sub_elements@[i].1,
                        nx + dist(c0.x as int, elem_x(ch0) as int),
                        ny + dist(c0.y as int, elem_y(ch0) as int),
                    )
                })
        }),
    }
}

/// The index of the first child whose key reads `k`, or `-1` when no
/// child has that key.
pub open spec fn key_index(cs: Seq<(String, Element)>, k: Seq<char>) -> int
    decreases cs.len(),
{
    if cs.len() == 0 {
        -1
    } else if cs[0].0@ == k {
        0
    } else {
        let r = key_index(cs.subrange(1, cs.len() as int), k);
        if r == -1 {
            -1
        } else {
            r + 1
        }
    }
}

/// What drawing a sequence of children, in order, does to the grid: each
/// child's drawing is applied to the grid the previous one produced, and
/// the first failure aborts the rest with its error.
pub open spec fn children_drawn(
    cs: Seq<(String, Element)>,
    g: Seq<char>,
    w: int,
    h: int,
) -> Result<Seq<char>, Error>
    decreases cs, 1int,
{
    if cs.len() == 0 {
        Ok(g)
    } else {
        match elem_drawn(cs[0].1, g, w, h) {
            Ok(g1) => children_drawn(cs.subrange(1, cs.len() as int), g1, w, h),
            Err(e) => Err(e),
        }
    }
}

/// What drawing one element does to the grid: a text leaf writes its
/// content, a rectangle writes its frame and then its children in order,
/// a container writes only its children in order.
pub open spec fn elem_drawn(e: Element, g: Seq<char>, w: int, h: int) -> Result<Seq<char>, Error>
    decreases e, 0int,
{
    match e {
        Element::Text(t) => text_written(g, w, h, t.x as int, t.y as int, t.content@),
        Element::Rectangle(r) => match frame_written(
            g,
            w,
            h,
            r.x as int,
            r.y as int,
            r.width as int,
            r.height as int,
            r.top_left,
            r.top_right,
            r.bottom_left,
            r.bottom_right,
            r.horizontal_border,
            r.vertical_border,
        ) {
            Ok(g1) => children_drawn(r.sub_elements@, g1, w, h),
            Err(e) => Err(e),
        },
        Element::Container(c) => children_drawn(c.sub_elements@, g, w, h),
    }
}

/// A found key's index is a valid position in the children.
pub proof fn lemma_key_index_bounds(cs: Seq<(String, Element)>, k: Seq<char>)
    ensures
        key_index(cs, k) == -1 || (0 <= key_index(cs, k) < cs.len()),
    decreases cs.len(),
{
    if cs.len() > 0 && cs[0].0@ != k {
        lemma_key_index_bounds(cs.subrange(1, cs.len() as int), k);
    }
}

proof fn lemma_key_index_absent(cs: Seq<(String, Element)>, k: Seq<char>)
    requires
        forall|m: int| 0 <= m < cs.len() ==> (#[trigger] cs[m]).0@ != k,
    ensures
        key_index(cs, k) == -1,
    decreases cs.len(),
{
    if cs.len() > 0 {
        let tail = cs.subrange(1, cs.len() as int);
        assert(forall|m: int| 0 <= m < tail.len() ==> (#[trigger] tail[m]).0@ != k) by {
            assert(forall|m: int|
                0 <= m < tail.len() ==> #[trigger] tail[m] == cs[m + 1]);
        }
        lemma_key_index_absent(tail, k);
    }
}

proof fn lemma_key_index_found(cs: Seq<(String, Element)>, k: Seq<char>, i: int)
    requires
        0 <= i < cs.len(),
        cs[i].0@ == k,
        forall|m: int| 0 <= m < i ==> (#[trigger] cs[m]).0@ != k,
    ensures
        key_index(cs, k) == i,
    decreases cs.len(),
{
    if i == 0 {
    } else {
        let tail = cs.subrange(1, cs.len() as int);
        assert(tail[i - 1] == cs[i]);
        assert(forall|m: int| 0 <= m < i - 1 ==> (#[trigger] tail[m]).0@ != k) by {
            assert(forall|m: int|
                0 <= m < tail.len() ==> #[trigger] tail[m] == cs[m + 1]);
        }
        lemma_key_index_found(tail, k, i - 1);
        assert(cs[0].0@ != k);
    }
}

/// Replace the first child stored under this key, or append a new entry
/// when no child has it.
pub(crate) fn upsert_child(children: &mut Vec<(String, Element)>, id: String, value: Element)
    ensures
        ({
            let cs0 = old(children)@;
            let cs1 = final(children)@;
            let j = key_index(cs0, id@);
            if j < 0 {
                &&& cs1.len() == cs0.len() + 1
                &&& (forall|i: int| 0 <= i < cs0.len() ==> #[trigger] cs1[i] == cs0[i])
                &&& cs1[cs0.len() as int].0 == id
                &&& cs1[cs0.len() as int].1 == value
            } else {
                &&& cs1.len() == cs0.len()
                &&& (forall|i: int|
                    0 <= i < cs0.len() && i != j ==> #[trigger] cs1[i] == cs0[i])
                &&& cs1[j].0 == id
                &&& cs1[j].1 == value
            }
        }),
{
    let n = children.len();
    let mut i: usize = 0;
    while i < n
        invariant
            i <= n,
            n == children@.len(),
            children@ == old(children)@,
            forall|m: int| 0 <= m < i ==> (#[trigger] children@[m]).0@ != id@,
        decreases n - i,
    {
        if children[i].0 == id {
            proof {
                lemma_key_index_found(children@, id@, i as int);
            }
            children[i] = (id, value);
            return ;
        }
        i = i + 1;
    }
    proof {
        lemma_key_index_absent(children@, id@);
    }
    children.push((id, value));
}

/// Remove the first child stored under this key; an absent key leaves
/// the children unchanged.
pub(crate) fn remove_child(children: &mut Vec<(String, Element)>, id: &str)
    ensures
        ({
            let cs0 = old(children)@;
            let cs1 = final(children)@;
            let j = key_index(cs0, id@);
            if j < 0 {
                cs1 == cs0
            } else {
                cs1 == cs0.remove(j)
            }
        }),
{
    let key: String = id.to_owned();
    let n = children.len();
    let mut i: usize = 0;
    while i < n
        invariant
            i <= n,
            n == children@.len(),
            children@ == old(children)@,
            key@ == id@,
            forall|m: int| 0 <= m < i ==> (#[trigger] children@[m]).0@ != id@,
        decreases n - i,
    {
        if children[i].0 == key {
            proof {
                lemma_key_index_found(children@, id@, i as int);
            }
            children.remove(i);
            return ;
        }
        i = i + 1;
    }
    proof {
        lemma_key_index_absent(children@, id@);
    }
}

/// Draw each child in order into the buffer: exactly `children_drawn` on
/// the grid. The first failing child aborts the rest.
#[verifier::loop_isolation(false)]
pub fn draw_children(children: &Vec<(String, Element)>, buffer: &mut Buffer) -> (r: Result<
    (),
    Error,
>)
    requires
        old(buffer).wf(),
        forall|i: int|
            0 <= i < children@.len() ==> elem_wf((#[trigger] children@[i]).1),
    ensures
        final(buffer).wf(),
        final(buffer).width() == old(buffer).width(),
        final(buffer).height() == old(buffer).height(),
        match children_drawn(
            children@,
            old(buffer)@,
            old(buffer).width() as int,
            old(buffer).height() as int,
        ) {
            Ok(g) => r == Ok::<(), Error>(()) && final(buffer)@ == g,
            Err(e) => r == Err::<(), Error>(e),
        },
    decreases children@, 1int,
{
    let n = children.len();
    proof {
        assert(children@.subrange(0, n as int) =~= children@);
    }
    let mut i: usize = 0;
    while i < n
        invariant
            i <= n,
            buffer.wf(),
            buffer.width() == old(buffer).width(),
            buffer.height() == old(buffer).height(),
            children_drawn(
                children@,
                old(buffer)@,
                old(buffer).width() as int,
                old(buffer).height() as int,
            ) == children_drawn(
                children@.subrange(i as int, n as int),
                buffer@,
                old(buffer).width() as int,
                old(buffer).height() as int,
            ),
        decreases n - i,
    {
        let ghost rest = children@.subrange(i as int, n as int);
        proof {
            assert(rest[0] == children@[i as int]);
            assert(rest.subrange(1, rest.len() as int) =~= children@.subrange(
                i as int + 1,
                n as int,
            ));
        }
        let pair = &children[i];
        match pair.1.draw(buffer) {
            Ok(()) => {
            }
            Err(e) => {
                return Err(e);
            }
        }
        i = i + 1;
    }
    proof {
        assert(children@.subrange(n as int, n as int).len() == 0);
    }
    Ok(())
}

impl Element {
    /// The element's absolute position.
    pub fn get_position(&self) -> (r: (usize, usize))
        ensures
            r.0 == elem_x(*self),
            r.1 == elem_y(*self),
    {
        match self {
            Element::Text(t) => (t.x, t.y),
            Element::Rectangle(rc) => (rc.x, rc.y),
            Element::Container(c) => (c.x, c.y),
        }
    }

    /// Draw the element and, recursively, its children into the buffer:
    /// exactly `elem_drawn` on the grid. The first out-of-bounds write
    /// aborts the rest with its error; earlier writes remain.
    pub fn draw(&self, buffer: &mut Buffer) -> (r: Result<(), Error>)
        requires
            old(buffer).wf(),
            elem_wf(*self),
        ensures
            final(buffer).wf(),
            final(buffer).width() == old(buffer).width(),
            final(buffer).height() == old(buffer).height(),
            match elem_drawn(
                *self,
                old(buffer)@,
                old(buffer).width() as int,
                old(buffer).height() as int,
            ) {
                Ok(g) => r == Ok::<(), Error>(()) && final(buffer)@ == g,
                Err(e) => r == Err::<(), Error>(e),
            },
        decreases *self, 0int,
    {
        match self {
            Element::Text(t) => t.draw(buffer),
            Element::Rectangle(rc) => {
                match rc.draw_frame(buffer) {
                    Ok(()) => draw_children(&rc.sub_elements, buffer),
                    Err(e) => Err(e),
                }
            },
            Element::Container(c) => draw_children(&c.sub_elements, buffer),
        }
    }

    /// Whether the element is a drawable tree: exactly `elem_wf`, checked
    /// at run time, so that callers can validate a tree they assembled
    /// before handing it to the compositor.
    pub fn is_wf(&self) -> (b: bool)
        ensures
            b == elem_wf(*self),
        decreases *self, 0int,
    {
        match self {
            Element::Text(_) => true,
            Element::Rectangle(rc) => {
                if rc.width < 2 || rc.height < 2 {
                    return false;
                }
                if rc.x > usize::MAX - (rc.width - 1) {
                    return false;
                }
                if rc.y > usize::MAX - (rc.height - 1) {
                    return false;
                }
                children_all_wf(&rc.sub_elements)
            },
            Element::Container(c) => children_all_wf(&c.sub_elements),
        }
    }

    /// The element moved to `(x, y)`, consuming it: children follow per
    /// the unsigned-distance propagation rule.
    pub fn into_moved(e: Element, x: usize, y: usize) -> (r: Element)
        requires
            can_move(e, x as int, y as int),
        ensures
            is_moved(e, r, x as int, y as int),
        decreases e, 0int,
    {
        match e {
            Element::Text(t) => Element::Text(Text { x, y, content: t.content }),
            Element::Rectangle(r0) => {
                let Rectangle {
                    x: ox,
                    y: oy,
                    width,
                    height,
                    top_left,
                    top_right,
                    bottom_left,
                    bottom_right,
                    horizontal_border,
                    vertical_border,
                    sub_elements,
                } = r0;
                let moved = moved_children(sub_elements, ox, oy, x, y);
                Element::Rectangle(
                    Rectangle {
                        x,
                        y,
                        width,
                        height,
                        top_left,
                        top_right,
                        bottom_left,
                        bottom_right,
                        horizontal_border,
                        vertical_border,
                        sub_elements: moved,
                    },
                )
            },
            Element::Container(c0) => {
                let Container { x: ox, y: oy, width, height, sub_elements } = c0;
                let moved = moved_children(sub_elements, ox, oy, x, y);
                Element::Container(Container { x, y, width, height, sub_elements: moved })
            },
        }
    }

    /// Move the element to `(x, y)`, propagating the move to children as
    /// `is_moved` describes.
    pub fn set_position(&mut self, x: usize, y: usize)
        requires
            can_move(*old(self), x as int, y as int),
        ensures
            is_moved(*old(self), *final(self), x as int, y as int),
    {
        let mut tmp = Element::Text(Text { x: 0, y: 0, content: String::new() });
        core::mem::swap(self, &mut tmp);
        let moved = Element::into_moved(tmp, x, y);
        *self = moved;
    }

    /// Store a child under a key: the child's position is shifted once,
    /// at insertion time, by this element's current absolute position;
    /// a child already stored under the key is replaced, otherwise the
    /// new child is appended. Text leaves hold no children.
    pub fn add_sub_element(&mut self, id: String, element: Element)
        requires
            !(old(self) matches Element::Text(_)),
            elem_x(element) + elem_x(*old(self)) <= usize::MAX,
            elem_y(element) + elem_y(*old(self)) <= usize::MAX,
            can_move(
                element,
                elem_x(element) + elem_x(*old(self)),
                elem_y(element) + elem_y(*old(self)),
            ),
        ensures
            same_frame(*old(self), *final(self)),
            ({
                let cs0 = elem_children(*old(self));
                let cs1 = elem_children(*final(self));
                let tx = elem_x(element) + elem_x(*old(self));
                let ty = elem_y(element) + elem_y(*old(self));
                let j = key_index(cs0, id@);
                if j < 0 {
                    &&& cs1.len() == cs0.len() + 1
                    &&& (forall|i: int| 0 <= i < cs0.len() ==> #[trigger] cs1[i] == cs0[i])
                    &&& cs1[cs0.len() as int].0 == id
                    &&& is_moved(element, cs1[cs0.len() as int].1, tx, ty)
                } else {
                    &&& cs1.len() == cs0.len()
                    &&& (forall|i: int|
                        0 <= i < cs0.len() && i != j ==> #[trigger] cs1[i] == cs0[i])
                    &&& cs1[j].0 == id
                    &&& is_moved(element, cs1[j].1, tx, ty)
                }
            }),
    {
        let (ex, ey) = element.get_position();
        let (sx, sy) = self.get_position();
        let moved = Element::into_moved(element, ex + sx, ey + sy);
        let mut tmp = Element::Text(Text { x: 0, y: 0, content: String::new() });
        core::mem::swap(self, &mut tmp);
        match tmp {
            Element::Text(t) => {
                proof {
                    assert(false);
                }
                *self = Element::Text(t);
            },
            Element::Rectangle(mut rc) => {
                upsert_child(&mut rc.sub_elements, id, moved);
                *self = Element::Rectangle(rc);
            },
            Element::Container(mut c) => {
                upsert_child(&mut c.sub_elements, id, moved);
                *self = Element::Container(c);
            },
        }
    }

    /// Remove the first child stored under the key; an absent key is a
    /// no-op. Text leaves hold no children.
    pub fn remove_sub_element(&mut self, id: &str)
        requires
            !(old(self) matches Element::Text(_)),
        ensures
            same_frame(*old(self), *final(self)),
            ({
                let cs0 = elem_children(*old(self));
                let cs1 = elem_children(*final(self));
                let j = key_index(cs0, id@);
                if j < 0 {
                    cs1 == cs0
                } else {
                    cs1 == cs0.remove(j)
                }
            }),
    {
        let mut tmp = Element::Text(Text { x: 0, y: 0, content: String::new() });
        core::mem::swap(self, &mut tmp);
        match tmp {
            Element::Text(t) => {
                proof {
                    assert(false);
                }
                *self = Element::Text(t);
            },
            Element::Rectangle(mut rc) => {
                remove_child(&mut rc.sub_elements, id);
                *self = Element::Rectangle(rc);
            },
            Element::Container(mut c) => {
                remove_child(&mut c.sub_elements, id);
                *self = Element::Container(c);
            },
        }
    }
}

/// Whether every child of the sequence is a drawable tree.
fn children_all_wf(children: &Vec<(String, Element)>) -> (b: bool)
    ensures
        b == (forall|i: int|
            0 <= i < children@.len() ==> elem_wf((#[trigger] children@[i]).1)),
    decreases children@, 1int,
{
    let n = children.len();
    let mut i: usize = 0;
    while i < n
        invariant
            i <= n,
            n == children@.len(),
            forall|j: int| 0 <= j < i ==> elem_wf((#[trigger] children@[j]).1),
        decreases n - i,
    {
        let pair = &children[i];
        if !pair.1.is_wf() {
            return false;
        }
        i = i + 1;
    }
    true
}

/// Each child of the sequence moved to the target position shifted by
/// its unsigned distance from `(px, py)`, in order, keys unchanged.
fn moved_children(
    children: Vec<(String, Element)>,
    px: usize,
    py: usize,
    nx: usize,
    ny: usize,
) -> (r: Vec<(String, Element)>)
    requires
        forall|i: int|
            #![trigger children@[i]]
            0 <= i < children@.len() ==> ({
                let c = children@[i].1;
                &&& nx + dist(px as int, elem_x(c) as int) <= usize::MAX
                &&& ny + dist(py as int, elem_y(c) as int) <= usize::MAX
                &&& can_move(
                    c,
                    nx + dist(px as int, elem_x(c) as int),
                    ny + dist(py as int, elem_y(c) as int),
                )
            }),
    ensures
        r@.len() == children@.len(),
        forall|i: int|
            #![trigger r@[i]]
            0 <= i < children@.len() ==> ({
                let c = children@[i].1;
                &&& r@[i].0 == children@[i].0
                &&& is_moved(
                    c,
                    r@[i].1,
                    nx + dist(px as int, elem_x(c) as int),
                    ny + dist(py as int, elem_y(c) as int),
                )
            }),
    decreases children@, 1int,
{
    let ghost cs0 = children@;
    let mut work = children;
    if work.len() == 0 {
        return work;
    }
    let (k, c) = work.remove(0);
    proof {
        assert(c == cs0[0].1);
        assert(work@ =~= cs0.subrange(1, cs0.len() as int));
    }
    let (cx, cy) = c.get_position();
    let dx = if px >= cx {
        px - cx
    } else {
        cx - px
    };
    let dy = if py >= cy {
        py - cy
    } else {
        cy - py
    };
    let c2 = Element::into_moved(c, nx + dx, ny + dy);
    let mut out = moved_children(work, px, py, nx, ny);
    out.insert(0, (k, c2));
    proof {
        assert(forall|i: int|
            1 <= i < cs0.len() ==> #[trigger] out@[i] == out@.subrange(
                1,
                out@.len() as int,
            )[i - 1]);
        assert(forall|i: int|
            1 <= i < cs0.len() ==> #[trigger] cs0[i] == cs0.subrange(1, cs0.len() as int)[i
                - 1]);
    }
    out
}

} // verus!
