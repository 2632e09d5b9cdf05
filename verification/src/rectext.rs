//! The compositor: two grids (the front one holds the last shown frame,
//! the back one the frame under construction), a registry of top-level
//! elements, and the diff encoder that turns the pair of grids into a
//! minimal command stream.

use vstd::prelude::*;

use crate::buffer::{Buffer, BufferIter};
use crate::elements::node::{
    children_drawn, draw_children, elem_wf, key_index, remove_child, upsert_child, Element,
};
use crate::error::Error;
use crate::terminal::{cmd_view, cmds_view, lemma_cmds_view_push, CommandSink, CommandView, TerminalCommand};

verus! {

/// A grid of the given dimensions with every cell a space.
pub open spec fn blank_grid(w: int, h: int) -> Seq<char> {
    Seq::new((w * h) as nat, |i: int| ' ')
}

/// The view of the cursor move to the cell at linear index `i` of a
/// grid `w` cells wide, in 1-based terminal coordinates.
pub open spec fn move_view(i: int, w: int) -> CommandView {
    (5usize, ' ', Seq::empty(), ((i % w) + 1) as usize, ((i / w) + 1) as usize)
}

/// The view of printing the character `c`.
pub open spec fn print_view(c: char) -> CommandView {
    (4usize, c, Seq::empty(), 0usize, 0usize)
}

/// The commands the diff encoder emits for the cell at linear index `i`:
/// nothing for an unchanged cell; a print of the new character for a
/// changed one, preceded by a cursor move exactly when the previous cell
/// was left unchanged — printing auto-advances the cursor, so a run of
/// changed cells needs only its first move.
pub open spec fn cell_cmds(back: Seq<char>, front: Seq<char>, w: int, i: int) -> Seq<
    CommandView,
> {
    if back[i] == front[i] {
        Seq::empty()
    } else if i > 0 && back[i - 1] == front[i - 1] {
        Seq::empty().push(move_view(i, w)).push(print_view(back[i]))
    } else {
        Seq::empty().push(print_view(back[i]))
    }
}

/// `cell_cmds` as a function of the index, for one frame pair.
pub open spec fn cell_fn(back: Seq<char>, front: Seq<char>, w: int) -> spec_fn(int) -> Seq<
    CommandView,
> {
    |i: int| cell_cmds(back, front, w, i)
}

/// The linear cell indices of a grid of `n` cells, in order.
pub open spec fn cell_indices(n: int) -> Seq<int> {
    Seq::new(n as nat, |i: int| i)
}

/// The full command stream for one frame, as views: an initial move to
/// the origin, always, followed by the per-cell diff output in row-major
/// order.
pub open spec fn diff_cmds(back: Seq<char>, front: Seq<char>, w: int) -> Seq<CommandView> {
    Seq::empty().push(move_view(0, w)) + cell_indices(back.len() as int).flat_map(
        cell_fn(back, front, w),
    )
}

proof fn lemma_flat_map_prefix_empty(f: spec_fn(int) -> Seq<CommandView>, n: int, i: int)
    requires
        0 <= i <= n,
        forall|j: int| 0 <= j < i ==> #[trigger] f(j) == Seq::<CommandView>::empty(),
    ensures
        cell_indices(n).take(i).flat_map(f) == Seq::<CommandView>::empty(),
    decreases i,
{
    if i == 0 {
        assert(cell_indices(n).take(0) =~= Seq::<int>::empty());
        assert(Seq::<int>::empty().map_values(f) =~= Seq::<Seq<CommandView>>::empty());
        assert(Seq::<Seq<CommandView>>::empty().flatten() == Seq::<CommandView>::empty());
    } else {
        lemma_flat_map_prefix_empty(f, n, i - 1);
        cell_indices(n).lemma_flat_map_take_append(f, i - 1);
        assert(cell_indices(n)[i - 1] == i - 1);
        assert(Seq::<CommandView>::empty() + Seq::<CommandView>::empty() =~= Seq::<
            CommandView,
        >::empty());
    }
}

proof fn lemma_flat_map_beyond_single(
    f: spec_fn(int) -> Seq<CommandView>,
    n: int,
    d: int,
    i: int,
)
    requires
        0 <= d < i <= n,
        forall|j: int| 0 <= j < n && j != d ==> #[trigger] f(j) == Seq::<CommandView>::empty(),
    ensures
        cell_indices(n).take(i).flat_map(f) == f(d),
    decreases i,
{
    if i == d + 1 {
        lemma_flat_map_prefix_empty(f, n, d);
        cell_indices(n).lemma_flat_map_take_append(f, d);
        assert(cell_indices(n)[d] == d);
        assert(Seq::<CommandView>::empty() + f(d) =~= f(d));
    } else {
        lemma_flat_map_beyond_single(f, n, d, i - 1);
        cell_indices(n).lemma_flat_map_take_append(f, i - 1);
        assert(cell_indices(n)[i - 1] == i - 1);
        assert(f(d) + Seq::<CommandView>::empty() =~= f(d));
    }
}

/// Law: a frame identical to the one before it produces only the initial
/// move to the origin, and no print commands.
pub proof fn lemma_diff_unchanged_frame(back: Seq<char>, front: Seq<char>, w: int)
    requires
        back == front,
    ensures
        diff_cmds(back, front, w) == Seq::empty().push(move_view(0, w)),
{
    let f = cell_fn(back, front, w);
    let n = back.len() as int;
    assert(forall|j: int| 0 <= j < n ==> #[trigger] f(j) == Seq::<CommandView>::empty());
    lemma_flat_map_prefix_empty(f, n, n);
    assert(cell_indices(n).take(n) =~= cell_indices(n));
    assert(Seq::empty().push(move_view(0, w)) + Seq::<CommandView>::empty() =~= Seq::<
        CommandView,
    >::empty().push(move_view(0, w)));
}

/// Law: a frame that differs from the one before it in exactly one cell,
/// at linear index `d`, produces the initial move to the origin and then
/// a single print of that cell's new character, preceded by a single
/// move to the cell's coordinates unless the cell is the origin itself,
/// where the initial move already put the cursor.
pub proof fn lemma_diff_single_change(back: Seq<char>, front: Seq<char>, w: int, d: int)
    requires
        back.len() == front.len(),
        0 <= d < back.len(),
        back[d] != front[d],
        forall|j: int| 0 <= j < back.len() && j != d ==> back[j] == #[trigger] front[j],
    ensures
        diff_cmds(back, front, w) == Seq::empty().push(move_view(0, w)) + (if d == 0 {
            Seq::empty().push(print_view(back[0]))
        } else {
            Seq::empty().push(move_view(d, w)).push(print_view(back[d]))
        }),
{
    let f = cell_fn(back, front, w);
    let n = back.len() as int;
    assert(forall|j: int|
        0 <= j < n && j != d ==> #[trigger] f(j) == Seq::<CommandView>::empty());
    lemma_flat_map_beyond_single(f, n, d, n);
    assert(cell_indices(n).take(n) =~= cell_indices(n));
    if d == 0 {
        assert(f(d) == Seq::empty().push(print_view(back[0])));
    } else {
        assert(back[d - 1] == front[d - 1]);
        assert(f(d) == Seq::empty().push(move_view(d, w)).push(print_view(back[d])));
    }
}

/// The print command for one changed cell.
fn make_print(c: char) -> (r: TerminalCommand)
    ensures
        r == TerminalCommand::PrintChar(c),
{
    TerminalCommand::PrintChar(c)
}

/// Walk the paired cells of the two grids in row-major order and queue
/// the minimal command stream that turns the front frame into the back
/// frame: exactly `diff_cmds` appended to the sink. Every move the
/// encoder emits is within the sink's bounds, so encoding never fails.
#[verifier::loop_isolation(false)]
pub fn encode_diff(back: &Buffer, front: &Buffer, sink: &mut CommandSink) -> (r: Result<
    (),
    Error,
>)
    requires
        back.wf(),
        front.wf(),
        back.width() == front.width(),
        back.height() == front.height(),
        old(sink).width() == back.width(),
        old(sink).height() == back.height(),
    ensures
        r == Ok::<(), Error>(()),
        final(sink).width() == old(sink).width(),
        final(sink).height() == old(sink).height(),
        cmds_view(final(sink).commands()) == cmds_view(old(sink).commands()) + diff_cmds(
            back@,
            front@,
            back.width() as int,
        ),
{
    let (w, h) = sink.size();
    let n = w * h;
    let ghost wi = w as int;
    let ghost ni = n as int;
    let ghost cf = cell_fn(back@, front@, wi);
    let ghost base = cmds_view(old(sink).commands()).push(move_view(0, wi));
    match sink.buffer_cmd(TerminalCommand::MoveCursorTo(1, 1)) {
        Ok(()) => {
        }
        Err(_) => {
            proof {
                assert(false);
            }
        }
    }
    proof {
        assert(cmd_view(TerminalCommand::MoveCursorTo(1, 1)) == move_view(0, wi));
        assert(cmds_view(sink.commands()) =~= base);
        lemma_flat_map_prefix_empty(cf, ni, 0);
        assert(base + Seq::<CommandView>::empty() =~= base);
    }
    let mut back_it: BufferIter<'_> = back.iter();
    let mut front_it: BufferIter<'_> = front.iter();
    let mut gaps: usize = 0;
    let mut first_gap: usize = 0;
    let mut i: usize = 0;
    while i < n
        invariant
            i <= n,
            n == back@.len(),
            front@.len() == back@.len(),
            back_it.pos() == i,
            back_it.contents() == back@,
            front_it.pos() == i,
            front_it.contents() == front@,
            gaps <= i,
            sink.width() == w,
            sink.height() == h,
            (gaps != 0) == (i > 0 && back@[i - 1] == front@[i - 1]),
            gaps != 0 ==> first_gap + gaps == i,
            cmds_view(sink.commands()) == base + cell_indices(ni).take(i as int).flat_map(cf),
        decreases n - i,
    {
        let bc = match back_it.next() {
            Some(c) => c,
            None => {
                proof {
                    assert(false);
                }
                ' '
            },
        };
        let fc = match front_it.next() {
            Some(c) => c,
            None => {
                proof {
                    assert(false);
                }
                ' '
            },
        };
        let ghost done = cell_indices(ni).take(i as int).flat_map(cf);
        let ghost pre = sink.commands();
        proof {
            cell_indices(ni).lemma_flat_map_take_append(cf, i as int);
            assert(cell_indices(ni)[i as int] == i as int);
        }
        if bc == fc {
            if gaps == 0 {
                first_gap = i;
            }
            gaps = gaps + 1;
            proof {
                assert(cf(i as int) == Seq::<CommandView>::empty());
                assert(done + Seq::<CommandView>::empty() =~= done);
            }
        } else {
            if gaps != 0 {
                let pos = first_gap + gaps;
                proof {
                    assert(pos % w < w && pos / w < h) by (nonlinear_arith)
                        requires
                            1 <= w,
                            1 <= h,
                            pos < w * h,
                    ;
                }
                let x = (pos % w) + 1;
                let y = (pos / w) + 1;
                let ghost before_move = sink.commands();
                match sink.buffer_cmd(TerminalCommand::MoveCursorTo(x, y)) {
                    Ok(()) => {
                    }
                    Err(_) => {
                        proof {
                            assert(false);
                        }
                    }
                }
                gaps = 0;
                first_gap = 0;
                proof {
                    lemma_cmds_view_push(before_move, TerminalCommand::MoveCursorTo(x, y));
                    assert(cmd_view(TerminalCommand::MoveCursorTo(x, y)) == move_view(
                        i as int,
                        wi,
                    ));
                }
            }
            let ghost before_print = sink.commands();
            let print_command = make_print(bc);
            let ghost print_snapshot = print_command;
            match sink.buffer_cmd(print_command) {
                Ok(()) => {
                }
                Err(_) => {
                    proof {
                        assert(false);
                    }
                }
            }
            proof {
                assert(sink.commands() == before_print.push(print_snapshot));
                lemma_cmds_view_push(before_print, print_snapshot);
                assert(cmd_view(print_snapshot) == print_view(back@[i as int]));
                let mv = move_view(i as int, wi);
                let pv = print_view(back@[i as int]);
                if i > 0 && back@[i - 1] == front@[i - 1] {
                    assert(cf(i as int) == Seq::<CommandView>::empty().push(mv).push(pv));
                    assert(cmds_view(sink.commands()) =~= cmds_view(before_print).push(pv));
                    assert(cmds_view(before_print) =~= cmds_view(pre).push(mv));
                    assert(cmds_view(pre) == base + done);
                    assert(cmds_view(sink.commands()) =~= (base + done).push(mv).push(pv));
                    assert((base + done).push(mv).push(pv) =~= base + (done + cf(i as int)));
                } else {
                    assert(cf(i as int) == Seq::<CommandView>::empty().push(pv));
                    assert(cmds_view(sink.commands()) =~= (base + done).push(pv));
                    assert((base + done).push(pv) =~= base + (done + cf(i as int)));
                }
            }
        }
        i = i + 1;
    }
    proof {
        assert(cell_indices(ni).take(ni) =~= cell_indices(ni));
        assert(base + cell_indices(ni).flat_map(cf) =~= cmds_view(old(sink).commands())
            + diff_cmds(back@, front@, wi));
    }
    Ok(())
}

/// The double-buffered compositor: the front grid holds the frame last
/// handed to the sink, the back grid the frame under construction, and
/// the registry the top-level elements in insertion order.
pub struct Rectext {
    width: usize,
    height: usize,
    front_buffer: Buffer,
    back_buffer: Buffer,
    elements: Vec<(String, Element)>,
    sink: CommandSink,
}

impl Rectext {
    pub closed spec fn width(&self) -> usize {
        self.width
    }

    pub closed spec fn height(&self) -> usize {
        self.height
    }

    /// The last frame shown: what the diff is computed against.
    pub closed spec fn front(&self) -> Seq<char> {
        self.front_buffer@
    }

    /// The frame under construction.
    pub closed spec fn back(&self) -> Seq<char> {
        self.back_buffer@
    }

    /// The registry of top-level elements, in insertion order.
    pub closed spec fn elements(&self) -> Seq<(String, Element)> {
        self.elements@
    }

    /// The commands queued and not yet taken for flushing.
    pub closed spec fn commands(&self) -> Seq<TerminalCommand> {
        self.sink.commands()
    }

    /// Both grids and the sink share the compositor's dimensions, and
    /// every registered element is drawable.
    pub closed spec fn wf(&self) -> bool {
        &&& self.front_buffer.wf()
        &&& self.back_buffer.wf()
        &&& self.front_buffer.width() == self.width
        &&& self.front_buffer.height() == self.height
        &&& self.back_buffer.width() == self.width
        &&& self.back_buffer.height() == self.height
        &&& self.sink.width() == self.width
        &&& self.sink.height() == self.height
        &&& 1 <= self.width
        &&& 1 <= self.height
        &&& forall|i: int|
            0 <= i < self.elements@.len() ==> elem_wf((#[trigger] self.elements@[i]).1)
    }

    /// A compositor with both grids fully cleared, no elements and an
    /// empty command queue.
    pub fn new(width: usize, height: usize) -> (r: Rectext)
        requires
            1 <= width,
            1 <= height,
            width * height <= usize::MAX,
        ensures
            r.wf(),
            r.width() == width,
            r.height() == height,
            r.front() == blank_grid(width as int, height as int),
            r.back() == blank_grid(width as int, height as int),
            r.elements().len() == 0,
            r.commands().len() == 0,
    {
        let front_buffer = Buffer::new(width, height);
        let back_buffer = Buffer::new(width, height);
        let sink = CommandSink::new(width, height);
        proof {
            assert(front_buffer@ =~= blank_grid(width as int, height as int));
            assert(back_buffer@ =~= blank_grid(width as int, height as int));
        }
        Rectext {
            width,
            height,
            front_buffer,
            back_buffer,
            elements: Vec::new(),
            sink,
        }
    }

    /// Register a top-level element: an element already stored under the
    /// key is replaced, otherwise the new one is appended. Positions are
    /// not shifted.
    pub fn add_element(&mut self, id: String, element: Element)
        requires
            old(self).wf(),
            elem_wf(element),
        ensures
            final(self).wf(),
            final(self).width() == old(self).width(),
            final(self).height() == old(self).height(),
            final(self).front() == old(self).front(),
            final(self).back() == old(self).back(),
            final(self).commands() == old(self).commands(),
            ({
                let cs0 = old(self).elements();
                let cs1 = final(self).elements();
                let j = key_index(cs0, id@);
                if j < 0 {
                    &&& cs1.len() == cs0.len() + 1
                    &&& (forall|i: int| 0 <= i < cs0.len() ==> #[trigger] cs1[i] == cs0[i])
                    &&& cs1[cs0.len() as int].0 == id
                    &&& cs1[cs0.len() as int].1 == element
                } else {
                    &&& cs1.len() == cs0.len()
                    &&& (forall|i: int|
                        0 <= i < cs0.len() && i != j ==> #[trigger] cs1[i] == cs0[i])
                    &&& cs1[j].0 == id
                    &&& cs1[j].1 == element
                }
            }),
    {
        upsert_child(&mut self.elements, id, element);
    }

    /// Drop the first element stored under the key; an absent key is a
    /// no-op.
    pub fn remove_element(&mut self, id: &str)
        requires
            old(self).wf(),
        ensures
            final(self).wf(),
            final(self).width() == old(self).width(),
            final(self).height() == old(self).height(),
            final(self).front() == old(self).front(),
            final(self).back() == old(self).back(),
            final(self).commands() == old(self).commands(),
            ({
                let cs0 = old(self).elements();
                let cs1 = final(self).elements();
                let j = key_index(cs0, id@);
                if j < 0 {
                    cs1 == cs0
                } else {
                    cs1 == cs0.remove(j)
                }
            }),
    {
        let ghost cs0 = self.elements@;
        remove_child(&mut self.elements, id);
        proof {
            crate::elements::node::lemma_key_index_bounds(cs0, id@);
            let j = key_index(cs0, id@);
            if j >= 0 {
                assert forall|i: int|
                    0 <= i < self.elements@.len() implies elem_wf(
                    (#[trigger] self.elements@[i]).1,
                ) by {
                    if i < j {
                        assert(self.elements@[i] == cs0[i]);
                    } else {
                        assert(self.elements@[i] == cs0[i + 1]);
                    }
                }
            }
        }
    }

    /// One render cycle up to the flush: clear the back grid, draw every
    /// element into it in registry order, and queue the diff of the back
    /// grid against the front grid. A failing draw aborts the cycle with
    /// its error: the front grid is untouched — it always is, only
    /// [`Rectext::commit`] swaps — and nothing is queued for the cycle.
    /// Flushing the queued commands and then committing the swap is the
    /// caller's part.
    pub fn draw(&mut self) -> (r: Result<(), Error>)
        requires
            old(self).wf(),
        ensures
            final(self).wf(),
            final(self).width() == old(self).width(),
            final(self).height() == old(self).height(),
            final(self).front() == old(self).front(),
            final(self).elements() == old(self).elements(),
            match children_drawn(
                old(self).elements(),
                blank_grid(old(self).width() as int, old(self).height() as int),
                old(self).width() as int,
                old(self).height() as int,
            ) {
                Ok(g) => {
                    &&& r == Ok::<(), Error>(())
                    &&& final(self).back() == g
                    &&& cmds_view(final(self).commands()) == cmds_view(old(self).commands())
                        + diff_cmds(g, old(self).front(), old(self).width() as int)
                },
                Err(e) => r == Err::<(), Error>(e) && final(self).commands() == old(
                    self,
                ).commands(),
            },
    {
        self.back_buffer.clear();
        proof {
            assert(self.back_buffer@ =~= blank_grid(self.width as int, self.height as int));
        }
        match draw_children(&self.elements, &mut self.back_buffer) {
            Ok(()) => {
            }
            Err(e) => {
                return Err(e);
            }
        }
        match encode_diff(&self.back_buffer, &self.front_buffer, &mut self.sink) {
            Ok(()) => {
            }
            Err(_) => {
                proof {
                    assert(false);
                }
            }
        }
        Ok(())
    }

    /// Swap the grids after a successful flush: the frame just drawn
    /// becomes the reference for the next cycle's diff, the old front
    /// grid becomes scratch space. A failed flush must skip this, so the
    /// next cycle diffs against the frame still on screen.
    pub fn commit(&mut self)
        requires
            old(self).wf(),
        ensures
            final(self).wf(),
            final(self).width() == old(self).width(),
            final(self).height() == old(self).height(),
            final(self).front() == old(self).back(),
            final(self).back() == old(self).front(),
            final(self).elements() == old(self).elements(),
            final(self).commands() == old(self).commands(),
    {
        core::mem::swap(&mut self.front_buffer, &mut self.back_buffer);
    }

    /// Queue one command by hand (hide the cursor, clear the screen):
    /// the same validation as the sink's own.
    pub fn buffer_cmd(&mut self, command: TerminalCommand) -> (r: Result<(), Error>)
        requires
            old(self).wf(),
        ensures
            final(self).wf(),
            final(self).width() == old(self).width(),
            final(self).height() == old(self).height(),
            final(self).front() == old(self).front(),
            final(self).back() == old(self).back(),
            final(self).elements() == old(self).elements(),
            match command {
                TerminalCommand::MoveCursorTo(x, y) => {
                    if x > old(self).width() || y > old(self).height() {
                        &&& r == Err::<(), Error>(
                            Error::PositionError {
                                x,
                                y,
                                width: old(self).width(),
                                height: old(self).height(),
                            },
                        )
                        &&& final(self).commands() == old(self).commands()
                    } else {
                        &&& r == Ok::<(), Error>(())
                        &&& final(self).commands() == old(self).commands().push(command)
                    }
                },
                _ => r == Ok::<(), Error>(()) && final(self).commands() == old(
                    self,
                ).commands().push(command),
            },
    {
        self.sink.buffer_cmd(command)
    }

    /// Hand out the queued commands for encoding and flushing, leaving
    /// the queue empty.
    pub fn take_commands(&mut self) -> (r: Vec<TerminalCommand>)
        requires
            old(self).wf(),
        ensures
            final(self).wf(),
            final(self).width() == old(self).width(),
            final(self).height() == old(self).height(),
            final(self).front() == old(self).front(),
            final(self).back() == old(self).back(),
            final(self).elements() == old(self).elements(),
            r@ == old(self).commands(),
            final(self).commands().len() == 0,
    {
        self.sink.take_commands()
    }
}

} // verus!
