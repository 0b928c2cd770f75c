//! The instruction alphabet, and the reduction of source text to
//! instructions.

use vstd::prelude::*;
use crate::resolver::{
    closes_matched, is_jump_table, loop_closures, reports, well_bracketed, SyntaxError,
};

verus! {

broadcast use vstd::string::group_string_axioms;

/// The eight instruction symbols. Every other character is commentary.
pub open spec fn is_instruction(c: char) -> bool {
    c == '>' || c == '<' || c == '+' || c == '-' || c == '.' || c == ',' || c == '[' || c == ']'
}

/// The instructions of a source text: its instruction symbols, in order.
pub open spec fn instructions_of(source: Seq<char>) -> Seq<char> {
    source.filter(|c: char| is_instruction(c))
}

/// Whether `c` is one of the eight instruction symbols.
pub fn is_command(c: char) -> (known: bool)
    ensures
        known == is_instruction(c),
{
    c == '>' || c == '<' || c == '+' || c == '-' || c == '.' || c == ',' || c == '[' || c == ']'
}

/// One more character of source text adds itself to the instructions if it
/// is an instruction symbol, and nothing otherwise.
pub proof fn lemma_instructions_step(source: Seq<char>, i: int)
    requires
        0 <= i < source.len(),
    ensures
        instructions_of(source.take(i + 1)) == if is_instruction(source[i]) {
            instructions_of(source.take(i)).push(source[i])
        } else {
            instructions_of(source.take(i))
        },
{
    reveal(Seq::filter);
    assert(source.take(i + 1).drop_last() =~= source.take(i));
}

/// What is left of a source text holds instruction symbols only.
pub proof fn lemma_instructions_only(source: Seq<char>)
    ensures
        forall|i: int|
            0 <= i < instructions_of(source).len() ==> is_instruction(
                #[trigger] instructions_of(source)[i],
            ),
{
    let keep = |c: char| is_instruction(c);
    assert forall|i: int| 0 <= i < instructions_of(source).len() implies is_instruction(
        #[trigger] instructions_of(source)[i],
    ) by {
        source.lemma_filter_pred(keep, i);
    }
}

/// Reduces source text to its instructions. Nothing is rejected: characters
/// outside the alphabet are dropped.
pub fn filter_source(source: &str) -> (commands: Vec<char>)
    ensures
        commands@ == instructions_of(source@),
{
    let mut commands: Vec<char> = Vec::new();
    for c in it: source.chars()
        invariant
            it.seq() == source@,
            commands@ == instructions_of(source@.take(it.index())),
    {
        proof {
            lemma_instructions_step(source@, it.index());
        }
        if is_command(c) {
            commands.push(c);
        }
    }
    assert(source@.take(source@.len() as int) =~= source@);
    commands
}

/// A program ready to run: its instructions and their jump table. Once
/// built it never changes.
pub struct Program {
    commands: Vec<char>,
    table: Vec<Option<usize>>,
}

impl Program {
    /// Holds of every program there is: it consists of instructions only,
    /// and its table is the jump table of those instructions.
    #[verifier::type_invariant]
    pub open spec fn well_formed(&self) -> bool {
        &&& forall|i: int|
            0 <= i < self.instructions().len() ==> is_instruction(#[trigger] self.instructions()[i])
        &&& is_jump_table(self.instructions(), self.jumps())
    }

    /// The instructions, in order.
    pub closed spec fn instructions(&self) -> Seq<char> {
        self.commands@
    }

    /// The jump table.
    pub closed spec fn jumps(&self) -> Seq<Option<usize>> {
        self.table@
    }

    /// Builds the program that `source` holds. Characters outside the
    /// alphabet are dropped; the one thing that can fail is the pairing of
    /// the brackets.
    pub fn parse(source: &str) -> (result: Result<Program, SyntaxError>)
        ensures
            result is Ok <==> well_bracketed(instructions_of(source@)),
            result matches Err(SyntaxError::UnmatchedClose { .. }) <==> !closes_matched(
                instructions_of(source@),
                instructions_of(source@).len() as int,
            ),
            match result {
                Ok(program) => program.instructions() == instructions_of(source@)
                    && program.well_formed(),
                Err(error) => reports(instructions_of(source@), error),
            },
    {
        let commands = filter_source(source);
        proof {
            lemma_instructions_only(source@);
        }
        match loop_closures(&commands) {
            Ok(table) => Ok(Program { commands, table }),
            Err(error) => Err(error),
        }
    }

    /// The instructions, in order.
    pub fn commands(&self) -> (commands: &Vec<char>)
        ensures
            commands@ == self.instructions(),
    {
        &self.commands
    }

    /// The jump table: for each bracket the position of its partner.
    pub fn table(&self) -> (table: &Vec<Option<usize>>)
        ensures
            table@ == self.jumps(),
            is_jump_table(self.instructions(), table@),
    {
        proof {
            use_type_invariant(self);
        }
        &self.table
    }

    /// The number of instructions.
    pub fn len(&self) -> (len: usize)
        ensures
            len == self.instructions().len(),
    {
        self.commands.len()
    }
}

} // verus!
