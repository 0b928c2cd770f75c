//! What holds of every run: laws that tie the resolver, the executor and
//! the paging store together.

use vstd::prelude::*;
use crate::executor::{Action, Fault, State};
use crate::paging::{law_record_names_differ, loaded, record_name};
use crate::program::is_instruction;
use crate::resolver::{depth, is_jump_table, is_pair, law_jump_table_unique};
use crate::session::{Status, World};
use crate::tape::{next_identity, previous_identity};

verus! {

/// On a program that holds instructions only, with its own jump table, the
/// one fault a step can end in is a pointer that addresses no cell: no
/// symbol is unexpected and no jump target is missing.
pub proof fn law_resolved_program_is_consistent(
    s: State,
    commands: Seq<char>,
    table: Seq<Option<usize>>,
)
    requires
        forall|i: int| 0 <= i < commands.len() ==> is_instruction(commands[i]),
        is_jump_table(commands, table),
    ensures
        s.step(commands, table) matches Err(fault) ==> fault == (Fault::NoCell {
            pointer: s.pointer,
        }),
{
    if !s.swap_pending() && s.cursor < commands.len() {
        let i = s.cursor as int;
        assert(is_instruction(commands[i]));
        if commands[i] == '[' || commands[i] == ']' {
            assert(table[i] is Some);
        }
    }
}

/// A step keeps a well-formed state well formed.
pub proof fn law_step_keeps_wf(s: State, commands: Seq<char>, table: Seq<Option<usize>>)
    requires
        s.wf(),
        commands.len() <= usize::MAX,
    ensures
        s.step(commands, table) matches Ok((next, _)) ==> next.wf(),
{
}

/// A turn keeps a well-formed world well formed, and in a well-formed world
/// the exchange of segments never fails: what the store loads always has the
/// length of the window.
pub proof fn law_turn_keeps_wf(
    w: World,
    commands: Seq<char>,
    table: Seq<Option<usize>>,
    input: Seq<Seq<char>>,
)
    requires
        w.wf(),
        commands.len() <= usize::MAX,
    ensures
        w.turn(commands, table, input).0.wf(),
        !(w.turn(commands, table, input).1 matches Status::Faulted(Fault::SegmentLength { .. })),
        !(w.turn(commands, table, input).1 matches Status::Faulted(Fault::Unrequested)),
{
    law_step_keeps_wf(w.machine, commands, table);
}

/// On a wrapping tape the pointer moves in a ring over the cells of the one
/// segment: right of the last cell lies cell 0, left of cell 0 the last
/// cell. No move asks for a swap or touches a cell.
pub proof fn law_wrapping_pointer(s: State)
    requires
        s.wf(),
        !s.paged,
        s.window > 0,
    ensures
        s.pointer + 1 < s.window ==> s.moved_right().pointer == s.pointer + 1,
        s.pointer + 1 >= s.window ==> s.moved_right().pointer == 0,
        s.pointer > 0 ==> s.moved_left().pointer == s.pointer - 1,
        s.pointer == 0 ==> s.moved_left().pointer == s.window - 1,
        s.moved_right().after_move() == Action::Continue,
        s.moved_left().after_move() == Action::Continue,
        s.moved_right().cells == s.cells,
        s.moved_left().cells == s.cells,
{
}

/// A session on a wrapping tape never leaves its segment and never writes
/// a record.
pub proof fn law_wrapping_never_swaps(
    w: World,
    commands: Seq<char>,
    table: Seq<Option<usize>>,
    input: Seq<Seq<char>>,
)
    requires
        w.wf(),
        !w.machine.paged,
    ensures
        w.turn(commands, table, input).0.records == w.records,
        w.turn(commands, table, input).0.machine.current == w.machine.current,
        !w.turn(commands, table, input).0.machine.paged,
{
}

/// On a paged tape `>` moves the pointer up to the sentinel without leaving
/// the segment. From the sentinel it crosses into the next segment and
/// lands on the sentinel there: the turn archives the cells it leaves and
/// loads those it enters.
pub proof fn law_paged_advance(
    w: World,
    commands: Seq<char>,
    table: Seq<Option<usize>>,
    input: Seq<Seq<char>>,
)
    requires
        w.wf(),
        w.machine.paged,
        !w.machine.swap_pending(),
        w.machine.cursor < commands.len() <= usize::MAX,
        commands[w.machine.cursor as int] == '>',
    ensures
        ({
            let (next, status) = w.turn(commands, table, input);
            let here = w.machine.current;
            let there = next_identity(here);
            &&& status == Status::Running
            &&& next.machine.cursor == w.machine.cursor + 1
            &&& !next.machine.swap_pending()
            &&& w.machine.pointer < w.machine.window ==> {
                &&& next.machine.pointer == w.machine.pointer + 1
                &&& next.machine.current == here
                &&& next.machine.cells == w.machine.cells
                &&& next.records == w.records
            }
            &&& w.machine.pointer == w.machine.window ==> {
                &&& next.machine.pointer == w.machine.window
                &&& next.machine.current == there
                &&& here == u128::MAX ==> there == 0
                &&& next.records == w.records.insert(record_name(here), w.machine.cells)
                &&& next.machine.cells == loaded(next.records, there, w.machine.window)
            }
        }),
{
}

/// On a paged tape `<` moves the pointer down to cell 0 without leaving the
/// segment. From cell 0 it crosses into the previous segment and lands on
/// the sentinel there; from segment 0 that is the segment of the highest
/// identity.
pub proof fn law_paged_retreat(
    w: World,
    commands: Seq<char>,
    table: Seq<Option<usize>>,
    input: Seq<Seq<char>>,
)
    requires
        w.wf(),
        w.machine.paged,
        !w.machine.swap_pending(),
        w.machine.cursor < commands.len() <= usize::MAX,
        commands[w.machine.cursor as int] == '<',
    ensures
        ({
            let (next, status) = w.turn(commands, table, input);
            let here = w.machine.current;
            let there = previous_identity(here);
            &&& status == Status::Running
            &&& next.machine.cursor == w.machine.cursor + 1
            &&& !next.machine.swap_pending()
            &&& w.machine.pointer > 0 ==> {
                &&& next.machine.pointer == w.machine.pointer - 1
                &&& next.machine.current == here
                &&& next.machine.cells == w.machine.cells
                &&& next.records == w.records
            }
            &&& w.machine.pointer == 0 ==> {
                &&& next.machine.pointer == w.machine.window
                &&& next.machine.current == there
                &&& here == 0 ==> there == u128::MAX
                &&& next.records == w.records.insert(record_name(here), w.machine.cells)
                &&& next.machine.cells == loaded(next.records, there, w.machine.window)
            }
        }),
{
}

/// A turn writes no record but that of the segment it leaves, and it loads
/// another segment only in a swap.
pub proof fn law_turn_touches_current_record_only(
    w: World,
    commands: Seq<char>,
    table: Seq<Option<usize>>,
    input: Seq<Seq<char>>,
    identity: u128,
)
    requires
        identity != w.machine.current,
    ensures
        ({
            let next = w.turn(commands, table, input).0;
            let name = record_name(identity);
            let left = record_name(w.machine.current);
            &&& next.records.contains_key(name) == w.records.contains_key(name)
            &&& w.records.contains_key(name) ==> next.records[name] == w.records[name]
            &&& next.machine.current != w.machine.current ==> {
                &&& next.records.contains_key(left)
                &&& next.records[left] == w.machine.cells
                &&& next.machine.cells == loaded(
                    next.records,
                    next.machine.current,
                    w.machine.window,
                )
            }
        }),
{
    law_record_names_differ(identity, w.machine.current);
}

/// While the executor stays away from a segment, the record of that
/// segment stays as it is.
pub proof fn lemma_record_rests(
    w: World,
    commands: Seq<char>,
    table: Seq<Option<usize>>,
    input: Seq<Seq<char>>,
    identity: u128,
    turns: nat,
)
    requires
        forall|k: nat| k < turns ==> (#[trigger] w.after(commands, table, input, k)).machine.current
            != identity,
    ensures
        w.after(commands, table, input, turns).records.contains_key(record_name(identity))
            == w.records.contains_key(record_name(identity)),
        w.records.contains_key(record_name(identity)) ==> w.after(
            commands,
            table,
            input,
            turns,
        ).records[record_name(identity)] == w.records[record_name(identity)],
    decreases turns,
{
    if turns > 0 {
        let next = w.turn(commands, table, input).0;
        assert(w.after(commands, table, input, 0) == w);
        law_turn_touches_current_record_only(w, commands, table, input, identity);
        assert forall|k: nat| k < turns - 1 implies (#[trigger] next.after(
            commands,
            table,
            input,
            k,
        )).machine.current != identity by {
            assert(w.after(commands, table, input, k + 1) == next.after(commands, table, input, k));
        }
        lemma_record_rests(next, commands, table, input, identity, (turns - 1) as nat);
    }
}

/// The world after `n + 1` turns is the world one turn after the world
/// after `n` turns.
pub proof fn lemma_after_last(
    w: World,
    commands: Seq<char>,
    table: Seq<Option<usize>>,
    input: Seq<Seq<char>>,
    turns: nat,
)
    ensures
        w.after(commands, table, input, turns + 1) == w.after(commands, table, input, turns).turn(
            commands,
            table,
            input,
        ).0,
    decreases turns,
{
    if turns > 0 {
        lemma_after_last(
            w.turn(commands, table, input).0,
            commands,
            table,
            input,
            (turns - 1) as nat,
        );
    } else {
        assert(w.after(commands, table, input, 1) == w.turn(commands, table, input).0.after(
            commands,
            table,
            input,
            0,
        ));
    }
}

/// Paging round trip. If a turn takes the executor out of a segment, and
/// `away` turns later it is back in that segment for the first time, then
/// the cells it finds are the cells it left: every value written before the
/// departure is read again at its index.
pub proof fn law_paging_round_trip(
    w: World,
    commands: Seq<char>,
    table: Seq<Option<usize>>,
    input: Seq<Seq<char>>,
    away: nat,
)
    requires
        away >= 1,
        forall|k: nat|
            1 <= k <= away ==> (#[trigger] w.after(commands, table, input, k)).machine.current
                != w.machine.current,
        w.after(commands, table, input, away + 1).machine.current == w.machine.current,
    ensures
        w.after(commands, table, input, away + 1).machine.cells == w.machine.cells,
{
    let home = w.machine.current;
    let left = w.turn(commands, table, input).0;
    assert(w.after(commands, table, input, 1) == left.after(commands, table, input, 0));
    assert(left.machine.current != home);
    law_turn_touches_current_record_only(w, commands, table, input, next_identity(home));
    assert forall|k: nat| k < away - 1 + 1 implies (#[trigger] left.after(
        commands,
        table,
        input,
        k,
    )).machine.current != home by {
        assert(w.after(commands, table, input, k + 1) == left.after(commands, table, input, k));
    }
    let last = left.after(commands, table, input, (away - 1) as nat);
    lemma_record_rests(left, commands, table, input, home, (away - 1) as nat);
    assert(w.after(commands, table, input, away) == last);
    lemma_after_last(w, commands, table, input, away);
    let back = last.turn(commands, table, input).0;
    assert(back.machine.current == home);
    law_turn_touches_current_record_only(last, commands, table, input, home);
}

/// The program `[-]`, which clears the cell under the pointer.
pub open spec fn clear_loop() -> Seq<char> {
    seq!['[', '-', ']']
}

/// The jump table of `[-]`.
pub open spec fn clear_loop_table() -> Seq<Option<usize>> {
    seq![Some(2usize), None, Some(0usize)]
}

/// `clear_loop_table` is the jump table of `clear_loop`.
pub proof fn lemma_clear_loop_table()
    ensures
        is_jump_table(clear_loop(), clear_loop_table()),
{
    let s = clear_loop();
    reveal_with_fuel(depth, 4);
    assert(depth(s, 0) == 0);
    assert(depth(s, 1) == 1);
    assert(depth(s, 2) == 1);
    assert(depth(s, 3) == 0);
    assert(is_pair(s, 0, 2));
}

/// The world in which `[-]` ends: the cell under the pointer is zero and
/// the cursor is behind the loop. Nothing else has changed.
pub open spec fn cleared(w: World) -> World {
    World { machine: State { cursor: 3, ..w.machine.with_cell(0) }, ..w }
}

/// Inside the loop, on `-` with `value` in the cell: the run ends after
/// `2 * value` more turns and no sooner.
proof fn lemma_clear_loop_body(w: World, input: Seq<Seq<char>>, budget: nat)
    requires
        !w.machine.swap_pending(),
        w.machine.cursor == 1,
        w.machine.has_cell(),
        w.machine.cell() >= 1,
    ensures
        budget >= 2 * w.machine.cell() ==> w.run(clear_loop(), clear_loop_table(), input, budget)
            == (cleared(w), Status::Halted),
        budget < 2 * w.machine.cell() ==> w.run(clear_loop(), clear_loop_table(), input, budget).1
            == Status::Running,
    decreases w.machine.cell(),
{
    let commands = clear_loop();
    let table = clear_loop_table();
    let value = w.machine.cell();
    reveal_with_fuel(World::run, 3);
    if budget >= 2 {
        let taken = w.turn(commands, table, input).0;
        assert(taken.machine == w.machine.with_cell((value - 1) as u8).advanced());
        let closed = taken.turn(commands, table, input).0;
        assert(w.run(commands, table, input, budget) == closed.run(
            commands,
            table,
            input,
            (budget - 2) as nat,
        ));
        if value > 1 {
            assert(closed.machine == State { cursor: 1, ..taken.machine });
            lemma_clear_loop_body(closed, input, (budget - 2) as nat);
            assert(cleared(closed) =~= cleared(w));
        } else {
            assert(closed =~= cleared(w));
        }
    }
}

/// The loop `[-]`, entered with any value from 1 to 255 in the cell under
/// the pointer, ends with that cell at zero. It passes through the body
/// once for each unit of the value: the run takes one turn for the `[` and
/// two for each pass, and no budget short of that sees it end.
pub proof fn law_clear_loop(
    w: World,
    table: Seq<Option<usize>>,
    input: Seq<Seq<char>>,
    budget: nat,
)
    requires
        is_jump_table(clear_loop(), table),
        !w.machine.swap_pending(),
        w.machine.cursor == 0,
        w.machine.has_cell(),
        w.machine.cell() >= 1,
    ensures
        budget >= 2 * w.machine.cell() + 1 ==> w.run(clear_loop(), table, input, budget) == (
            cleared(w),
            Status::Halted,
        ),
        budget < 2 * w.machine.cell() + 1 ==> w.run(clear_loop(), table, input, budget).1
            == Status::Running,
        cleared(w).machine.cell() == 0,
{
    let commands = clear_loop();
    lemma_clear_loop_table();
    law_jump_table_unique(commands, table, clear_loop_table());
    reveal_with_fuel(World::run, 2);
    if budget >= 1 {
        let entered = w.turn(commands, table, input).0;
        assert(entered.machine == State { cursor: 1, ..w.machine });
        lemma_clear_loop_body(entered, input, (budget - 1) as nat);
        assert(cleared(entered) =~= cleared(w));
    }
}

/// A run of a program that holds instructions only, with its own jump
/// table, ends in no fault but two: an empty line of input, or a pointer
/// that addresses no cell.
pub proof fn law_resolved_run_is_consistent(
    w: World,
    commands: Seq<char>,
    table: Seq<Option<usize>>,
    input: Seq<Seq<char>>,
    budget: nat,
)
    requires
        w.wf(),
        commands.len() <= usize::MAX,
        forall|i: int| 0 <= i < commands.len() ==> is_instruction(commands[i]),
        is_jump_table(commands, table),
    ensures
        w.run(commands, table, input, budget).0.wf(),
        w.run(commands, table, input, budget).1 matches Status::Faulted(fault) ==> fault
            == Fault::EmptyInput || fault matches Fault::NoCell { .. },
    decreases budget,
{
    if !w.machine.halted(commands) && budget > 0 {
        let (next, status) = w.turn(commands, table, input);
        law_resolved_program_is_consistent(w.machine, commands, table);
        law_turn_keeps_wf(w, commands, table, input);
        if status == Status::Running {
            law_resolved_run_is_consistent(next, commands, table, input, (budget - 1) as nat);
        }
    }
}

/// Cells wrap: `+` on a cell that holds 255 leaves 0, and `-` on a cell
/// that holds 0 leaves 255.
pub proof fn law_cells_wrap(s: State, commands: Seq<char>, table: Seq<Option<usize>>)
    requires
        !s.swap_pending(),
        s.cursor < commands.len(),
        s.has_cell(),
    ensures
        commands[s.cursor as int] == '+' && s.cell() == 255 ==> s.step(commands, table) == Ok::<
            (State, Action),
            Fault,
        >((s.with_cell(0).advanced(), Action::Continue)),
        commands[s.cursor as int] == '-' && s.cell() == 0 ==> s.step(commands, table) == Ok::<
            (State, Action),
            Fault,
        >((s.with_cell(255).advanced(), Action::Continue)),
{
}

/// The channels. A turn appends to the output exactly when it executes
/// `.`, and then the one byte in the cell under the pointer; it takes a
/// line of input exactly when it executes `,` on a line that is not empty,
/// and then one line.
pub proof fn law_channels(
    w: World,
    commands: Seq<char>,
    table: Seq<Option<usize>>,
    input: Seq<Seq<char>>,
)
    ensures
        ({
            let (next, status) = w.turn(commands, table, input);
            let at = |c: char|
                !w.machine.swap_pending() && w.machine.cursor < commands.len()
                    && commands[w.machine.cursor as int] == c && w.machine.has_cell();
            &&& next.output == if at('.') {
                w.output.push(w.machine.cell())
            } else {
                w.output
            }
            &&& next.consumed == if at(',') && w.next_line(input).len() > 0 {
                w.consumed + 1
            } else {
                w.consumed
            }
            &&& at(',') && w.next_line(input).len() == 0 ==> status == Status::Faulted(
                Fault::EmptyInput,
            )
        }),
{
}

/// A run reports a halt exactly when it leaves the cursor behind the last
/// instruction with no swap outstanding.
pub proof fn law_run_halts_at_the_end(
    w: World,
    commands: Seq<char>,
    table: Seq<Option<usize>>,
    input: Seq<Seq<char>>,
    budget: nat,
)
    ensures
        w.run(commands, table, input, budget).1 == Status::Halted <==> w.run(
            commands,
            table,
            input,
            budget,
        ).0.machine.halted(commands),
    decreases budget,
{
    if !w.machine.halted(commands) && budget > 0 {
        let (next, status) = w.turn(commands, table, input);
        if status == Status::Running {
            law_run_halts_at_the_end(next, commands, table, input, (budget - 1) as nat);
        }
    }
}

/// A run that has used up its budget can be taken up again: running for
/// `first` turns and then for `second` more is running for both at once.
pub proof fn law_run_resumes(
    w: World,
    commands: Seq<char>,
    table: Seq<Option<usize>>,
    input: Seq<Seq<char>>,
    first: nat,
    second: nat,
)
    requires
        w.run(commands, table, input, first).1 == Status::Running,
    ensures
        w.run(commands, table, input, first + second) == w.run(commands, table, input, first).0.run(
            commands,
            table,
            input,
            second,
        ),
    decreases first,
{
    if !w.machine.halted(commands) && first > 0 {
        let (next, status) = w.turn(commands, table, input);
        if status == Status::Running {
            law_run_resumes(next, commands, table, input, (first - 1) as nat, second);
        }
    }
}

/// A run that has ended, by a halt or by a fault, ends the same way under
/// every larger budget.
pub proof fn law_run_is_final(
    w: World,
    commands: Seq<char>,
    table: Seq<Option<usize>>,
    input: Seq<Seq<char>>,
    budget: nat,
    more: nat,
)
    requires
        w.run(commands, table, input, budget).1 != Status::Running,
    ensures
        w.run(commands, table, input, budget + more) == w.run(commands, table, input, budget),
    decreases budget,
{
    if !w.machine.halted(commands) && budget > 0 {
        let (next, status) = w.turn(commands, table, input);
        if status == Status::Running {
            law_run_is_final(next, commands, table, input, (budget - 1) as nat, more);
        }
    }
}

} // verus!
