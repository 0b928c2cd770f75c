//! A whole run in memory: an executor, a paging store, and the two channels
//! as plain values.
//!
//! A [`Session`] plays the host for its executor. It answers every
//! [`Action`]: it appends emitted bytes to its output, hands over the lines
//! of its input one by one, and exchanges segments with its store. A program
//! need not end, so a run takes a budget of turns.

use vstd::prelude::*;
use crate::executor::{Action, Executor, Fault, State};
use crate::paging::{loaded, record_name, PagingStore};

verus! {

/// How a turn or a run ended.
#[derive(Clone, Copy, Debug, PartialEq, Eq, Structural)]
pub enum Status {
    /// The program has not ended: there is a next instruction.
    Running,
    /// The cursor has left the program.
    Halted,
    /// The run was aborted.
    Faulted(Fault),
}

/// The mathematical picture of a session.
#[verifier::ext_equal]
pub struct World {
    /// The executor.
    pub machine: State,
    /// The records of the paging store, by name.
    pub records: Map<Seq<char>, Seq<u8>>,
    /// Every byte emitted so far.
    pub output: Seq<u8>,
    /// How many lines of input have been taken.
    pub consumed: nat,
}

impl World {
    /// What every session satisfies: every record is one window long.
    pub open spec fn wf(self) -> bool {
        &&& self.machine.wf()
        &&& forall|name: Seq<char>| #[trigger]
            self.records.contains_key(name) ==> self.records[name].len() == self.machine.window
    }

    /// The next line of input. Where the input has run out the line is
    /// empty, as at the end of a stream.
    pub open spec fn next_line(self, input: Seq<Seq<char>>) -> Seq<char> {
        if self.consumed < input.len() {
            input[self.consumed as int]
        } else {
            Seq::empty()
        }
    }

    /// One turn: a step of the executor, and the host's answer to it.
    pub open spec fn turn(
        self,
        commands: Seq<char>,
        table: Seq<Option<usize>>,
        input: Seq<Seq<char>>,
    ) -> (World, Status) {
        match self.machine.step(commands, table) {
            Err(fault) => (self, Status::Faulted(fault)),
            Ok((machine, action)) => match action {
                Action::Continue => (World { machine, ..self }, Status::Running),
                Action::Emit(byte) => (
                    World { machine, output: self.output.push(byte), ..self },
                    Status::Running,
                ),
                Action::ReadLine => match machine.accept_line(commands, self.next_line(input)) {
                    Ok(stored) => (
                        World { machine: stored, consumed: self.consumed + 1, ..self },
                        Status::Running,
                    ),
                    Err(fault) => (World { machine, ..self }, Status::Faulted(fault)),
                },
                Action::Swap { outgoing, incoming } => {
                    let records = self.records.insert(record_name(outgoing), machine.cells);
                    match machine.accept_segment(loaded(records, incoming, machine.window)) {
                        Ok(swapped) => (World { machine: swapped, records, ..self }, Status::Running),
                        Err(fault) => (World { machine, records, ..self }, Status::Faulted(fault)),
                    }
                },
                Action::Halt => (World { machine, ..self }, Status::Halted),
            },
        }
    }

    /// The world after `turns` turns, whatever their status.
    pub open spec fn after(
        self,
        commands: Seq<char>,
        table: Seq<Option<usize>>,
        input: Seq<Seq<char>>,
        turns: nat,
    ) -> World
        decreases turns,
    {
        if turns == 0 {
            self
        } else {
            self.turn(commands, table, input).0.after(commands, table, input, (turns - 1) as nat)
        }
    }

    /// A run of at most `budget` turns. It stops early when the program
    /// ends or faults; `Running` says that the budget ran out first.
    pub open spec fn run(
        self,
        commands: Seq<char>,
        table: Seq<Option<usize>>,
        input: Seq<Seq<char>>,
        budget: nat,
    ) -> (World, Status)
        decreases budget,
    {
        if self.machine.halted(commands) {
            (self, Status::Halted)
        } else if budget == 0 {
            (self, Status::Running)
        } else {
            let (next, status) = self.turn(commands, table, input);
            if status == Status::Running {
                next.run(commands, table, input, (budget - 1) as nat)
            } else {
                (next, status)
            }
        }
    }
}

/// The lines of an input, as sequences of characters.
pub open spec fn lines_of(input: Seq<String>) -> Seq<Seq<char>> {
    input.map_values(|line: String| line@)
}

/// A run in memory.
pub struct Session {
    executor: Executor,
    store: PagingStore,
    output: Vec<u8>,
    consumed: usize,
}

impl View for Session {
    type V = World;

    closed spec fn view(&self) -> World {
        World {
            machine: self.executor@,
            records: self.store@,
            output: self.output@,
            consumed: self.consumed as nat,
        }
    }
}

impl Session {
    /// The store creates segments of the executor's window.
    pub closed spec fn store_fits(&self) -> bool {
        self.store.window_size() == self.executor@.window
    }

    /// What every session satisfies.
    pub open spec fn wf(&self) -> bool {
        self@.wf() && self.store_fits()
    }

    /// A session around an executor, with an empty store and empty
    /// channels.
    pub fn new(executor: Executor) -> (session: Session)
        ensures
            session.wf(),
            session@ == (World {
                machine: executor@,
                records: Map::empty(),
                output: Seq::empty(),
                consumed: 0,
            }),
    {
        proof {
            use_type_invariant(&executor);
        }
        let window = executor.window();
        Session { executor, store: PagingStore::new(window), output: Vec::new(), consumed: 0 }
    }

    /// The executor of this session.
    pub fn executor(&self) -> (executor: &Executor)
        ensures
            executor@ == self@.machine,
    {
        &self.executor
    }

    /// The paging store of this session.
    pub fn store(&self) -> (store: &PagingStore)
        ensures
            store@ == self@.records,
    {
        &self.store
    }

    /// Every byte emitted so far.
    pub fn output(&self) -> (output: &Vec<u8>)
        ensures
            output@ == self@.output,
    {
        &self.output
    }

    /// How many lines of input have been taken.
    pub fn lines_consumed(&self) -> (consumed: usize)
        ensures
            consumed == self@.consumed,
    {
        self.consumed
    }

    /// Takes one turn: steps the executor and does what it asks. A `,`
    /// takes the next line of `input`; where the input has run out, the
    /// line is empty.
    pub fn turn(
        &mut self,
        commands: &Vec<char>,
        table: &Vec<Option<usize>>,
        input: &Vec<String>,
    ) -> (status: Status)
        requires
            old(self).wf(),
        ensures
            final(self).wf(),
            final(self)@ == old(self)@.turn(commands@, table@, lines_of(input@)).0,
            status == old(self)@.turn(commands@, table@, lines_of(input@)).1,
    {
        match self.executor.step(commands, table) {
            Err(fault) => Status::Faulted(fault),
            Ok(Action::Continue) => Status::Running,
            Ok(Action::Halt) => Status::Halted,
            Ok(Action::Emit(byte)) => {
                self.output.push(byte);
                Status::Running
            },
            Ok(Action::ReadLine) => {
                let accepted = if self.consumed < input.len() {
                    self.executor.accept_line(commands, input[self.consumed].as_str())
                } else {
                    proof {
                        reveal_strlit("");
                    }
                    self.executor.accept_line(commands, "")
                };
                match accepted {
                    Ok(()) => {
                        self.consumed = self.consumed + 1;
                        Status::Running
                    },
                    Err(fault) => Status::Faulted(fault),
                }
            },
            Ok(Action::Swap { outgoing, incoming }) => {
                self.store.archive(outgoing, self.executor.segment());
                let segment = self.store.load(incoming);
                match self.executor.accept_segment(segment) {
                    Ok(()) => Status::Running,
                    Err(fault) => Status::Faulted(fault),
                }
            },
        }
    }

    /// Runs the program for at most `budget` turns.
    pub fn run(
        &mut self,
        commands: &Vec<char>,
        table: &Vec<Option<usize>>,
        input: &Vec<String>,
        budget: u64,
    ) -> (status: Status)
        requires
            old(self).wf(),
        ensures
            final(self).wf(),
            final(self)@ == old(self)@.run(commands@, table@, lines_of(input@), budget as nat).0,
            status == old(self)@.run(commands@, table@, lines_of(input@), budget as nat).1,
    {
        let mut remaining: u64 = budget;
        loop
            invariant
                self.wf(),
                self@.run(commands@, table@, lines_of(input@), remaining as nat) == old(self)@.run(
                    commands@,
                    table@,
                    lines_of(input@),
                    budget as nat,
                ),
            decreases remaining,
        {
            if self.executor.is_halted(commands) {
                return Status::Halted;
            }
            if remaining == 0 {
                return Status::Running;
            }
            match self.turn(commands, table, input) {
                Status::Running => {},
                Status::Halted => {
                    return Status::Halted;
                },
                Status::Faulted(fault) => {
                    return Status::Faulted(fault);
                },
            }
            remaining = remaining - 1;
        }
    }

    /// Ends the run: purges the store, whose records are scratch for one
    /// run. The executor and the channels stay as they are.
    pub fn finish(&mut self)
        requires
            old(self).wf(),
        ensures
            final(self).wf(),
            final(self)@ == (World { records: Map::empty(), ..old(self)@ }),
    {
        self.store.purge();
    }
}

} // verus!
