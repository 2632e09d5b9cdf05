//! The command sink: the six terminal commands of the output protocol,
//! and a bounded buffer that queues them for one flush per render cycle.
//! Encoding the queued commands into escape sequences and writing them
//! to a stream is the caller's side of the boundary.

use vstd::prelude::*;

use crate::error::Error;

verus! {

/// One command of the output protocol.
pub enum TerminalCommand {
    HideCursor,
    UnhideCursor,
    ClearScreen,
    PrintStr(String),
    PrintChar(char),
    MoveCursorTo(usize, usize),
}

/// The mathematical shape of one command: a kind tag, the printed
/// character, the printed string, and the move coordinates, with unused
/// payloads at fixed defaults. Every command kind fills distinct fields,
/// so distinct commands have distinct views.
pub type CommandView = (usize, char, Seq<char>, usize, usize);

/// The view of one command.
pub open spec fn cmd_view(c: TerminalCommand) -> CommandView {
    match c {
        TerminalCommand::HideCursor => (0usize, ' ', Seq::empty(), 0usize, 0usize),
        TerminalCommand::UnhideCursor => (1usize, ' ', Seq::empty(), 0usize, 0usize),
        TerminalCommand::ClearScreen => (2usize, ' ', Seq::empty(), 0usize, 0usize),
        TerminalCommand::PrintStr(s) => (3usize, ' ', s@, 0usize, 0usize),
        TerminalCommand::PrintChar(ch) => (4usize, ch, Seq::empty(), 0usize, 0usize),
        TerminalCommand::MoveCursorTo(x, y) => (5usize, ' ', Seq::empty(), x, y),
    }
}

/// The view of a command sequence, element-wise and in order.
pub open spec fn cmds_view(s: Seq<TerminalCommand>) -> Seq<CommandView> {
    s.map_values(|c: TerminalCommand| cmd_view(c))
}

/// Appending one command appends its view.
pub proof fn lemma_cmds_view_push(s: Seq<TerminalCommand>, c: TerminalCommand)
    ensures
        cmds_view(s.push(c)) =~= cmds_view(s).push(cmd_view(c)),
{
}

/// An ordered queue of terminal commands, validated against the terminal
/// dimensions it was created with.
pub struct CommandSink {
    width: usize,
    height: usize,
    commands: Vec<TerminalCommand>,
}

impl CommandSink {
    /// The terminal width the sink validates cursor moves against.
    pub closed spec fn width(&self) -> usize {
        self.width
    }

    /// The terminal height the sink validates cursor moves against.
    pub closed spec fn height(&self) -> usize {
        self.height
    }

    /// The commands queued so far, oldest first.
    pub closed spec fn commands(&self) -> Seq<TerminalCommand> {
        self.commands@
    }

    /// The dimensions the sink was created with.
    pub fn size(&self) -> (r: (usize, usize))
        ensures
            r.0 == self.width(),
            r.1 == self.height(),
    {
        (self.width, self.height)
    }

    pub fn new(width: usize, height: usize) -> (r: CommandSink)
        ensures
            r.width() == width,
            r.height() == height,
            r.commands().len() == 0,
    {
        CommandSink { width, height, commands: Vec::new() }
    }

    /// Append a command to the queue. A cursor move beyond the terminal
    /// dimensions is rejected with a `PositionError` carrying the move's
    /// coordinates and the dimensions, and queues nothing.
    pub fn buffer_cmd(&mut self, command: TerminalCommand) -> (r: Result<(), Error>)
        ensures
            final(self).width() == old(self).width(),
            final(self).height() == old(self).height(),
            match command {
                TerminalCommand::MoveCursorTo(x, y) => {
                    if x > old(self).width() || y > old(self).height() {
                        &&& r == Err::<(), Error>(
                            Error::PositionError {
                                x,
                                y,
                                width: old(self).width(),
                                height: old(self).height(),
                            },
                        )
                        &&& final(self).commands() == old(self).commands()
                    } else {
                        &&& r == Ok::<(), Error>(())
                        &&& final(self).commands() == old(self).commands().push(command)
                    }
                },
                _ => r == Ok::<(), Error>(()) && final(self).commands() == old(
                    self,
                ).commands().push(command),
            },
    {
        if let TerminalCommand::MoveCursorTo(x, y) = &command {
            if *x > self.width || *y > self.height {
                return Err(
                    Error::PositionError {
                        x: *x,
                        y: *y,
                        width: self.width,
                        height: self.height,
                    },
                );
            }
        }
        self.commands.push(command);
        Ok(())
    }

    /// Hand the queued commands out for encoding and flushing, leaving
    /// the queue empty.
    pub fn take_commands(&mut self) -> (r: Vec<TerminalCommand>)
        ensures
            final(self).width() == old(self).width(),
            final(self).height() == old(self).height(),
            r@ == old(self).commands(),
            final(self).commands().len() == 0,
    {
        let mut out: Vec<TerminalCommand> = Vec::new();
        core::mem::swap(&mut self.commands, &mut out);
        out
    }
}

} // verus!
