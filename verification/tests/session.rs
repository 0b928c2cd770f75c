use bf_machine::executor::{Executor, Fault};
use bf_machine::program::Program;
use bf_machine::session::{Session, Status};
use bf_machine::tape::TAPE_WINDOW;

fn lines(input: &[&str]) -> Vec<String> {
    input.iter().map(|line| line.to_string()).collect()
}

fn run_paged(source: &str, input: &[&str], window: usize, budget: u64) -> (Session, Status) {
    let program = Program::parse(source).unwrap();
    let mut session = Session::new(Executor::paged(window));
    let status = session.run(program.commands(), program.table(), &lines(input), budget);
    (session, status)
}

#[test]
fn canonical_program_emits_seven() {
    let (session, status) = run_paged("++>+++++[<+>-]<.", &[], TAPE_WINDOW, 1_000);
    assert_eq!(status, Status::Halted);
    assert_eq!(session.output(), &vec![0x07]);
    assert_eq!(session.executor().pointer(), 0);
    assert_eq!(session.executor().cell(), Some(7));
    assert_eq!(session.lines_consumed(), 0);
}

#[test]
fn echo_of_one_line() {
    let (session, status) = run_paged(",.", &["A\n"], TAPE_WINDOW, 10);
    assert_eq!(status, Status::Halted);
    assert_eq!(session.output(), &vec![0x41]);
    assert_eq!(session.lines_consumed(), 1);
}

#[test]
fn each_comma_takes_one_line_and_drops_its_rest() {
    let (session, status) = run_paged(",.,.,.", &["one\n", "two\n", "3\n", "four\n"], 8, 10);
    assert_eq!(status, Status::Halted);
    assert_eq!(session.output(), &vec![b'o', b't', b'3']);
    assert_eq!(session.lines_consumed(), 3);
}

#[test]
fn input_that_has_run_out_is_an_empty_line() {
    let (session, status) = run_paged(",.,.", &["A\n"], 8, 10);
    assert_eq!(status, Status::Faulted(Fault::EmptyInput));
    assert_eq!(session.output(), &vec![0x41]);
    assert_eq!(session.lines_consumed(), 1);
    assert_eq!(session.executor().cursor(), 2);
}

#[test]
fn empty_line_aborts_the_run() {
    let (session, status) = run_paged(",.", &["", "A\n"], 8, 10);
    assert_eq!(status, Status::Faulted(Fault::EmptyInput));
    assert_eq!(session.output(), &Vec::<u8>::new());
    assert_eq!(session.lines_consumed(), 0);
}

#[test]
fn clear_loop_ends_at_zero_for_every_start() {
    for start in 1..=255u64 {
        let source = format!("{}[-]", "+".repeat(start as usize));
        let turns = start + 1 + 2 * start;
        let (session, status) = run_paged(&source, &[], 4, turns);
        assert_eq!(status, Status::Halted);
        assert_eq!(session.executor().cell(), Some(0));
        assert_eq!(session.executor().cursor(), start as usize + 3);
        let (_, early) = run_paged(&source, &[], 4, turns - 1);
        assert_eq!(early, Status::Running);
    }
}

#[test]
fn clear_loop_on_zero_is_skipped() {
    let (session, status) = run_paged("[-]", &[], 4, 1);
    assert_eq!(status, Status::Halted);
    assert_eq!(session.executor().cell(), Some(0));
    assert_eq!(session.executor().cursor(), 3);
}

#[test]
fn endless_loop_uses_up_its_budget() {
    let (session, status) = run_paged("+[]", &[], 4, 10_000);
    assert_eq!(status, Status::Running);
    assert_eq!(session.executor().cell(), Some(1));
    assert_eq!(session.output(), &Vec::<u8>::new());
}

#[test]
fn run_can_be_taken_up_again() {
    let program = Program::parse("+++.").unwrap();
    let mut session = Session::new(Executor::paged(4));
    let input = lines(&[]);
    assert_eq!(session.run(program.commands(), program.table(), &input, 2), Status::Running);
    assert_eq!(session.executor().cell(), Some(2));
    assert_eq!(session.run(program.commands(), program.table(), &input, 1), Status::Running);
    assert_eq!(session.run(program.commands(), program.table(), &input, 0), Status::Running);
    assert_eq!(session.run(program.commands(), program.table(), &input, 1), Status::Halted);
    assert_eq!(session.output(), &vec![3]);
    assert_eq!(session.run(program.commands(), program.table(), &input, 5), Status::Halted);
    assert_eq!(session.output(), &vec![3]);
}

#[test]
fn turn_by_turn() {
    let program = Program::parse("+.").unwrap();
    let mut session = Session::new(Executor::paged(4));
    let input = lines(&[]);
    assert_eq!(session.turn(program.commands(), program.table(), &input), Status::Running);
    assert_eq!(session.turn(program.commands(), program.table(), &input), Status::Running);
    assert_eq!(session.output(), &vec![1]);
    assert_eq!(session.turn(program.commands(), program.table(), &input), Status::Halted);
}

#[test]
fn value_survives_a_round_trip_to_the_next_segment() {
    // Two cells per segment. Write 3 into cell 1 of segment 0, cross to
    // segment 1 and write there, come back and read cell 1 again.
    let (session, status) = run_paged(">+++ >> <++ << < .", &[], 2, 100);
    assert_eq!(status, Status::Halted);
    assert_eq!(session.output(), &vec![3]);
    assert_eq!(session.executor().current_segment(), 0);
    assert_eq!(session.executor().pointer(), 1);
    assert_eq!(session.executor().segment(), &vec![0, 3]);
    assert!(session.store().holds(0));
    assert!(session.store().holds(1));
    assert_eq!(session.store().load(1), vec![0, 2]);
}

#[test]
fn value_survives_a_round_trip_to_the_previous_segment() {
    let (session, status) = run_paged("+++++ < <- > > << .", &[], 2, 100);
    assert_eq!(status, Status::Halted);
    assert_eq!(session.output(), &vec![5]);
    assert_eq!(session.executor().current_segment(), 0);
    assert_eq!(session.executor().pointer(), 0);
    assert_eq!(session.store().load(u128::MAX), vec![0, 255]);
}

#[test]
fn segments_keep_their_cells_over_many_crossings() {
    // Three cells per segment. Mark the last cell of segments 0, 1 and 2
    // with 1, 2 and 3, then walk back and emit them in reverse.
    let source = ">>+ >> <++ >> <+++ . <<< < . <<< < .";
    let (session, status) = run_paged(source, &[], 3, 100);
    assert_eq!(status, Status::Halted);
    assert_eq!(session.output(), &vec![3, 2, 1]);
    assert_eq!(session.executor().current_segment(), 0);
    assert_eq!(session.executor().pointer(), 2);
}

#[test]
fn new_segments_are_zero() {
    let (session, status) = run_paged("+>>> <. <.", &[], 2, 100);
    assert_eq!(status, Status::Halted);
    assert_eq!(session.output(), &vec![0, 0]);
    assert_eq!(session.executor().current_segment(), 1);
    assert_eq!(session.executor().segment(), &vec![0, 0]);
    assert_eq!(session.store().load(0), vec![1, 0]);
}

#[test]
fn standard_window_pages_at_30000() {
    let source = format!("+{}.{}<.", ">".repeat(30_000), ">");
    let (session, status) = run_paged(&source, &[], TAPE_WINDOW, 100_000);
    assert_eq!(status, Status::Faulted(Fault::NoCell { pointer: 30_000 }));
    assert_eq!(session.executor().current_segment(), 0);
    let source = format!("+{}<.", ">".repeat(30_001));
    let (session, status) = run_paged(&source, &[], TAPE_WINDOW, 100_000);
    assert_eq!(status, Status::Halted);
    assert_eq!(session.output(), &vec![0]);
    assert_eq!(session.executor().current_segment(), 1);
    assert_eq!(session.executor().pointer(), 29_999);
    assert_eq!(session.store().load(0)[0], 1);
}

#[test]
fn cell_access_on_the_sentinel_aborts_the_run() {
    let (session, status) = run_paged(">>+", &[], 2, 100);
    assert_eq!(status, Status::Faulted(Fault::NoCell { pointer: 2 }));
    assert_eq!(session.executor().cursor(), 2);
}

#[test]
fn wrapping_session_never_swaps() {
    let program = Program::parse("+>>>+.<.").unwrap();
    let mut session = Session::new(Executor::wrapping(3));
    let status = session.run(program.commands(), program.table(), &lines(&[]), 100);
    assert_eq!(status, Status::Halted);
    assert_eq!(session.output(), &vec![2, 0]);
    assert_eq!(session.executor().current_segment(), 0);
    assert!(!session.store().holds(0));
}

#[test]
fn finish_purges_the_store_and_keeps_the_rest() {
    let (mut session, status) = run_paged("+.>>>", &[], 2, 100);
    assert_eq!(status, Status::Halted);
    assert!(session.store().holds(0));
    session.finish();
    assert!(!session.store().holds(0));
    assert_eq!(session.store().load(0), vec![0, 0]);
    assert_eq!(session.output(), &vec![1]);
    assert_eq!(session.executor().current_segment(), 1);
}
