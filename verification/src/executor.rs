//! The executor: one instruction at a time against the current segment of
//! the tape.
//!
//! The executor performs no input or output of its own. [`Executor::step`]
//! interprets one instruction and answers with an [`Action`] that tells the
//! host what to do before the next step: nothing, emit a byte, hand over a
//! line of input, or exchange the segment of the tape. What each call does is
//! fixed by a function on [`State`], the mathematical picture of the
//! executor.
//!
//! Pointer convention. In a paged tape a segment has the cells
//! `0 .. window`, and the pointer may also rest on `window` itself, the
//! sentinel. The sentinel is the trigger for paging and addresses no cell:
//! an instruction that needs a cell there faults. `>` on the sentinel enters
//! the next segment, `<` on cell 0 the previous one, and either way the
//! pointer lands on the sentinel of the segment it enters. In a wrapping
//! tape there is one segment and no sentinel: the pointer moves in a ring
//! over its cells.

use vstd::prelude::*;
use vstd::string::StrSliceExecFns;
use crate::tape::{
    decremented, decrement, fresh_segment, identity_after, identity_before, incremented,
    increment, low_byte, next_identity, previous_identity, truncate, zeroed,
};

verus! {

/// What the host is to do after a step.
#[derive(Clone, Copy, Debug, PartialEq, Eq, Structural)]
pub enum Action {
    /// Nothing: step again.
    Continue,
    /// Write this byte to the output channel, then step again.
    Emit(u8),
    /// Read one line from the input channel and hand it to
    /// [`Executor::accept_line`].
    ReadLine,
    /// Archive the current segment under `outgoing`, materialise the segment
    /// `incoming`, and hand it to [`Executor::accept_segment`].
    Swap { outgoing: u128, incoming: u128 },
    /// The cursor has left the program: the run is over.
    Halt,
}

/// Why a run cannot go on. Every fault is final.
#[derive(Clone, Copy, Debug, PartialEq, Eq, Structural)]
pub enum Fault {
    /// The input line handed over has no first character.
    EmptyInput,
    /// The program holds a character outside the instruction alphabet.
    UnexpectedSymbol { position: usize, symbol: char },
    /// A bracket has to jump, and the table records no partner for it inside
    /// the program.
    MissingJumpTarget { position: usize },
    /// The instruction needs a cell, and the pointer addresses none.
    NoCell { pointer: usize },
    /// The segment handed over does not have the length of the window.
    SegmentLength { expected: usize, found: usize },
    /// A line or a segment was handed over that the executor had not asked
    /// for.
    Unrequested,
}

/// The mathematical picture of an executor.
#[verifier::ext_equal]
pub struct State {
    /// Cells per segment.
    pub window: usize,
    /// Whether the tape continues into further segments or wraps around.
    pub paged: bool,
    /// Position of the next instruction.
    pub cursor: usize,
    /// Position on the current segment.
    pub pointer: usize,
    /// The cells of the current segment.
    pub cells: Seq<u8>,
    /// Identity of the segment that `cells` belongs to.
    pub current: u128,
    /// Identity of the segment the pointer has moved to. It differs from
    /// `current` exactly while a swap is outstanding.
    pub pending: u128,
}

impl State {
    /// What every executor satisfies.
    pub open spec fn wf(self) -> bool {
        &&& self.cells.len() == self.window
        &&& self.pointer <= self.window
        &&& !self.paged ==> self.pending == self.current
        &&& self.pending != self.current ==> self.cursor < usize::MAX
    }

    /// The state before the first instruction: segment 0, all cells zero.
    pub open spec fn initial(window: usize, paged: bool) -> State {
        State {
            window,
            paged,
            cursor: 0,
            pointer: 0,
            cells: zeroed(window),
            current: 0,
            pending: 0,
        }
    }

    /// The pointer has crossed into another segment that is not loaded yet.
    pub open spec fn swap_pending(self) -> bool {
        self.pending != self.current
    }

    /// The pointer addresses a cell.
    pub open spec fn has_cell(self) -> bool {
        self.pointer < self.cells.len()
    }

    /// The cell under the pointer.
    pub open spec fn cell(self) -> u8 {
        self.cells[self.pointer as int]
    }

    /// The run over `commands` has ended.
    pub open spec fn halted(self, commands: Seq<char>) -> bool {
        !self.swap_pending() && self.cursor >= commands.len()
    }

    /// The next instruction is `,` and waits for a line of input.
    pub open spec fn awaits_line(self, commands: Seq<char>) -> bool {
        !self.swap_pending() && self.cursor < commands.len() && commands[self.cursor as int] == ','
    }

    /// The same state with the cursor on the following instruction.
    pub open spec fn advanced(self) -> State {
        State { cursor: (self.cursor + 1) as usize, ..self }
    }

    /// The same state with `value` in the cell under the pointer.
    pub open spec fn with_cell(self, value: u8) -> State {
        State { cells: self.cells.update(self.pointer as int, value), ..self }
    }

    /// The state after `>`.
    pub open spec fn moved_right(self) -> State {
        if self.paged {
            if self.pointer == self.window {
                State { pending: next_identity(self.current), ..self }
            } else {
                State { pointer: (self.pointer + 1) as usize, ..self }.advanced()
            }
        } else {
            if self.pointer + 1 >= self.window {
                State { pointer: 0, ..self }.advanced()
            } else {
                State { pointer: (self.pointer + 1) as usize, ..self }.advanced()
            }
        }
    }

    /// The state after `<`.
    pub open spec fn moved_left(self) -> State {
        if self.pointer > 0 {
            State { pointer: (self.pointer - 1) as usize, ..self }.advanced()
        } else if self.paged {
            State { pointer: self.window, pending: previous_identity(self.current), ..self }
        } else if self.window == 0 {
            self.advanced()
        } else {
            State { pointer: (self.window - 1) as usize, ..self }.advanced()
        }
    }

    /// What the host is asked after a pointer move: a swap if the move
    /// crossed into another segment.
    pub open spec fn after_move(self) -> Action {
        if self.swap_pending() {
            Action::Swap { outgoing: self.current, incoming: self.pending }
        } else {
            Action::Continue
        }
    }

    /// The state after a bracket at the cursor has jumped to its partner,
    /// or the fault if the table records none inside the program.
    pub open spec fn jumped(self, commands: Seq<char>, table: Seq<Option<usize>>) -> Result<
        State,
        Fault,
    > {
        if self.cursor < table.len() && table[self.cursor as int] is Some
            && table[self.cursor as int]->0 < commands.len() {
            Ok(State { cursor: (table[self.cursor as int]->0 + 1) as usize, ..self })
        } else {
            Err(Fault::MissingJumpTarget { position: self.cursor })
        }
    }

    /// The outcome of a bracket: a jump if the branch is taken, and the
    /// following instruction if not.
    pub open spec fn branched(
        self,
        taken: bool,
        commands: Seq<char>,
        table: Seq<Option<usize>>,
    ) -> Result<(State, Action), Fault> {
        if !taken {
            Ok((self.advanced(), Action::Continue))
        } else {
            match self.jumped(commands, table) {
                Ok(next) => Ok((next, Action::Continue)),
                Err(fault) => Err(fault),
            }
        }
    }

    /// One step: the next state and what the host is asked to do, or the
    /// fault that ends the run.
    ///
    /// While a swap is outstanding a step repeats the request for it, and at
    /// the end of the program it reports the halt; neither changes the state.
    /// Nor does `,`: the cell is written when the line is handed over.
    pub open spec fn step(self, commands: Seq<char>, table: Seq<Option<usize>>) -> Result<
        (State, Action),
        Fault,
    > {
        if self.swap_pending() {
            Ok((self, Action::Swap { outgoing: self.current, incoming: self.pending }))
        } else if self.cursor >= commands.len() {
            Ok((self, Action::Halt))
        } else {
            let command = commands[self.cursor as int];
            if command == '>' {
                Ok((self.moved_right(), self.moved_right().after_move()))
            } else if command == '<' {
                Ok((self.moved_left(), self.moved_left().after_move()))
            } else if command == ',' {
                Ok((self, Action::ReadLine))
            } else if command == '+' || command == '-' || command == '.' || command == '['
                || command == ']' {
                if !self.has_cell() {
                    Err(Fault::NoCell { pointer: self.pointer })
                } else if command == '+' {
                    Ok((self.with_cell(incremented(self.cell())).advanced(), Action::Continue))
                } else if command == '-' {
                    Ok((self.with_cell(decremented(self.cell())).advanced(), Action::Continue))
                } else if command == '.' {
                    Ok((self.advanced(), Action::Emit(self.cell())))
                } else if command == '[' {
                    self.branched(self.cell() == 0, commands, table)
                } else {
                    self.branched(self.cell() != 0, commands, table)
                }
            } else {
                Err(Fault::UnexpectedSymbol { position: self.cursor, symbol: command })
            }
        }
    }

    /// Handing over a line of input: its first character, cut to eight bits,
    /// goes into the cell under the pointer.
    pub open spec fn accept_line(self, commands: Seq<char>, line: Seq<char>) -> Result<
        State,
        Fault,
    > {
        if !self.awaits_line(commands) {
            Err(Fault::Unrequested)
        } else if line.len() == 0 {
            Err(Fault::EmptyInput)
        } else if !self.has_cell() {
            Err(Fault::NoCell { pointer: self.pointer })
        } else {
            Ok(self.with_cell(low_byte(line[0])).advanced())
        }
    }

    /// Handing over the incoming segment: it becomes the current one, and
    /// the instruction that crossed the boundary is done.
    pub open spec fn accept_segment(self, segment: Seq<u8>) -> Result<State, Fault> {
        if !self.swap_pending() {
            Err(Fault::Unrequested)
        } else if segment.len() != self.window {
            Err(Fault::SegmentLength { expected: self.window, found: segment.len() as usize })
        } else {
            Ok(State { cells: segment, current: self.pending, ..self }.advanced())
        }
    }
}

/// An executor: the cursor, the pointer and the current segment of the tape.
pub struct Executor {
    window: usize,
    paged: bool,
    cursor: usize,
    pointer: usize,
    segment: Vec<u8>,
    current: u128,
    pending: u128,
}

impl View for Executor {
    type V = State;

    closed spec fn view(&self) -> State {
        State {
            window: self.window,
            paged: self.paged,
            cursor: self.cursor,
            pointer: self.pointer,
            cells: self.segment@,
            current: self.current,
            pending: self.pending,
        }
    }
}

impl Executor {
    /// Holds of every executor there is.
    #[verifier::type_invariant]
    pub open spec fn well_formed(&self) -> bool {
        self@.wf()
    }

    /// An executor before its first instruction, on a tape that continues
    /// into further segments on either side.
    pub fn paged(window: usize) -> (executor: Executor)
        ensures
            executor@ == State::initial(window, true),
            executor@.wf(),
    {
        Executor {
            window,
            paged: true,
            cursor: 0,
            pointer: 0,
            segment: fresh_segment(window),
            current: 0,
            pending: 0,
        }
    }

    /// An executor before its first instruction, on a tape of one segment
    /// that wraps around.
    pub fn wrapping(window: usize) -> (executor: Executor)
        ensures
            executor@ == State::initial(window, false),
            executor@.wf(),
    {
        Executor {
            window,
            paged: false,
            cursor: 0,
            pointer: 0,
            segment: fresh_segment(window),
            current: 0,
            pending: 0,
        }
    }

    /// Cells per segment.
    pub fn window(&self) -> (window: usize)
        ensures
            window == self@.window,
    {
        self.window
    }

    /// Whether the tape continues into further segments.
    pub fn is_paged(&self) -> (paged: bool)
        ensures
            paged == self@.paged,
    {
        self.paged
    }

    /// Position of the next instruction.
    pub fn cursor(&self) -> (cursor: usize)
        ensures
            cursor == self@.cursor,
    {
        self.cursor
    }

    /// Position on the current segment.
    pub fn pointer(&self) -> (pointer: usize)
        ensures
            pointer == self@.pointer,
    {
        self.pointer
    }

    /// Identity of the segment whose cells the executor holds.
    pub fn current_segment(&self) -> (identity: u128)
        ensures
            identity == self@.current,
    {
        self.current
    }

    /// Identity of the segment the pointer has moved to.
    pub fn pending_segment(&self) -> (identity: u128)
        ensures
            identity == self@.pending,
    {
        self.pending
    }

    /// The cells of the current segment.
    pub fn segment(&self) -> (cells: &Vec<u8>)
        ensures
            cells@ == self@.cells,
    {
        &self.segment
    }

    /// The cell under the pointer, if the pointer addresses one.
    pub fn cell(&self) -> (value: Option<u8>)
        ensures
            value == if self@.has_cell() {
                Some(self@.cell())
            } else {
                None
            },
    {
        if self.pointer < self.segment.len() {
            Some(self.segment[self.pointer])
        } else {
            None
        }
    }

    /// Whether the run over `commands` has ended.
    pub fn is_halted(&self, commands: &Vec<char>) -> (halted: bool)
        ensures
            halted == self@.halted(commands@),
    {
        self.pending == self.current && self.cursor >= commands.len()
    }

    /// Interprets the instruction under the cursor and says what the host is
    /// to do next. On a fault the executor is left as it was.
    pub fn step(&mut self, commands: &Vec<char>, table: &Vec<Option<usize>>) -> (result: Result<
        Action,
        Fault,
    >)
        ensures
            final(self)@.wf(),
            match old(self)@.step(commands@, table@) {
                Ok((next, action)) => result == Ok::<Action, Fault>(action) && final(self)@ == next,
                Err(fault) => result == Err::<Action, Fault>(fault) && final(self)@ == old(self)@,
            },
    {
        proof {
            use_type_invariant(&*self);
        }
        if self.pending != self.current {
            return Ok(Action::Swap { outgoing: self.current, incoming: self.pending });
        }
        if self.cursor >= commands.len() {
            return Ok(Action::Halt);
        }
        let command = commands[self.cursor];
        if command == '>' {
            if self.paged && self.pointer == self.window {
                self.pending = identity_after(self.current);
                return Ok(Action::Swap { outgoing: self.current, incoming: self.pending });
            }
            if !self.paged && self.window - self.pointer <= 1 {
                self.pointer = 0;
            } else {
                self.pointer = self.pointer + 1;
            }
            self.cursor = self.cursor + 1;
            Ok(Action::Continue)
        } else if command == '<' {
            if self.pointer > 0 {
                self.pointer = self.pointer - 1;
            } else if self.paged {
                self.pending = identity_before(self.current);
                self.pointer = self.window;
                return Ok(Action::Swap { outgoing: self.current, incoming: self.pending });
            } else if self.window > 0 {
                self.pointer = self.window - 1;
            }
            self.cursor = self.cursor + 1;
            Ok(Action::Continue)
        } else if command == ',' {
            Ok(Action::ReadLine)
        } else if command == '+' || command == '-' || command == '.' || command == '['
            || command == ']' {
            if self.pointer >= self.segment.len() {
                return Err(Fault::NoCell { pointer: self.pointer });
            }
            let value = self.segment[self.pointer];
            if command == '+' {
                self.segment[self.pointer] = increment(value);
                self.cursor = self.cursor + 1;
                Ok(Action::Continue)
            } else if command == '-' {
                self.segment[self.pointer] = decrement(value);
                self.cursor = self.cursor + 1;
                Ok(Action::Continue)
            } else if command == '.' {
                self.cursor = self.cursor + 1;
                Ok(Action::Emit(value))
            } else {
                let taken = if command == '[' {
                    value == 0
                } else {
                    value != 0
                };
                if !taken {
                    self.cursor = self.cursor + 1;
                    return Ok(Action::Continue);
                }
                if self.cursor >= table.len() {
                    return Err(Fault::MissingJumpTarget { position: self.cursor });
                }
                match table[self.cursor] {
                    Some(target) => {
                        if target < commands.len() {
                            self.cursor = target + 1;
                            Ok(Action::Continue)
                        } else {
                            Err(Fault::MissingJumpTarget { position: self.cursor })
                        }
                    },
                    None => Err(Fault::MissingJumpTarget { position: self.cursor }),
                }
            }
        } else {
            Err(Fault::UnexpectedSymbol { position: self.cursor, symbol: command })
        }
    }

    /// Hands over the line of input that a [`Action::ReadLine`] asked for.
    /// Its first character, cut to eight bits, goes into the cell under the
    /// pointer; the rest of the line is dropped. On a fault the executor is
    /// left as it was.
    pub fn accept_line(&mut self, commands: &Vec<char>, line: &str) -> (result: Result<(), Fault>)
        ensures
            final(self)@.wf(),
            match old(self)@.accept_line(commands@, line@) {
                Ok(next) => result is Ok && final(self)@ == next,
                Err(fault) => result == Err::<(), Fault>(fault) && final(self)@ == old(self)@,
            },
    {
        proof {
            use_type_invariant(&*self);
        }
        if self.pending != self.current || self.cursor >= commands.len() || commands[self.cursor]
            != ',' {
            return Err(Fault::Unrequested);
        }
        if line.is_empty() {
            return Err(Fault::EmptyInput);
        }
        if self.pointer >= self.segment.len() {
            return Err(Fault::NoCell { pointer: self.pointer });
        }
        let first = line.get_char(0);
        self.segment[self.pointer] = truncate(first);
        self.cursor = self.cursor + 1;
        Ok(())
    }

    /// Hands over the segment that a [`Action::Swap`] asked for. It replaces
    /// the current segment, and the executor goes on behind the instruction
    /// that crossed the boundary. On a fault the executor is left as it was.
    pub fn accept_segment(&mut self, segment: Vec<u8>) -> (result: Result<(), Fault>)
        ensures
            final(self)@.wf(),
            match old(self)@.accept_segment(segment@) {
                Ok(next) => result is Ok && final(self)@ == next,
                Err(fault) => result == Err::<(), Fault>(fault) && final(self)@ == old(self)@,
            },
    {
        proof {
            use_type_invariant(&*self);
        }
        if self.pending == self.current {
            return Err(Fault::Unrequested);
        }
        if segment.len() != self.window {
            return Err(Fault::SegmentLength { expected: self.window, found: segment.len() });
        }
        self.segment = segment;
        self.current = self.pending;
        self.cursor = self.cursor + 1;
        Ok(())
    }
}

} // verus!
