use bf_machine::program::{filter_source, is_command, Program};
use bf_machine::resolver::{loop_closures, SyntaxError};

fn commands(source: &str) -> Vec<char> {
    source.chars().collect()
}

#[test]
fn empty_program_has_empty_table() {
    assert_eq!(loop_closures(&commands("")), Ok(vec![]));
}

#[test]
fn program_without_brackets_has_no_entries() {
    assert_eq!(loop_closures(&commands("+-<>.,")), Ok(vec![None; 6]));
}

#[test]
fn single_pair_points_both_ways() {
    assert_eq!(loop_closures(&commands("[-]")), Ok(vec![Some(2), None, Some(0)]));
}

#[test]
fn nested_and_sequential_pairs() {
    let table = loop_closures(&commands("[[]][]")).unwrap();
    assert_eq!(table, vec![Some(3), Some(2), Some(1), Some(0), Some(5), Some(4)]);
}

#[test]
fn table_of_canonical_program() {
    let table = loop_closures(&commands("++>+++++[<+>-]<.")).unwrap();
    let mut expected = vec![None; 16];
    expected[8] = Some(13);
    expected[13] = Some(8);
    assert_eq!(table, expected);
}

#[test]
fn following_an_entry_twice_leads_back() {
    let program = commands("+[>[-]<[[+]>]-]>[.,]");
    let table = loop_closures(&program).unwrap();
    assert_eq!(table.len(), program.len());
    for (i, c) in program.iter().enumerate() {
        match table[i] {
            Some(j) => {
                assert!(*c == '[' || *c == ']');
                assert_ne!(i, j);
                assert_eq!(table[j], Some(i));
                if *c == '[' {
                    assert!(i < j);
                    assert_eq!(program[j], ']');
                } else {
                    assert!(j < i);
                    assert_eq!(program[j], '[');
                }
            }
            None => assert!(*c != '[' && *c != ']'),
        }
    }
}

#[test]
fn leading_close_is_cited() {
    assert_eq!(
        loop_closures(&commands("]")),
        Err(SyntaxError::UnmatchedClose { position: 0 })
    );
}

#[test]
fn close_after_balanced_prefix_is_cited() {
    assert_eq!(
        loop_closures(&commands("+[-]>]<[")),
        Err(SyntaxError::UnmatchedClose { position: 5 })
    );
}

#[test]
fn first_stray_close_wins_over_later_faults() {
    assert_eq!(
        loop_closures(&commands("[]]]][[")),
        Err(SyntaxError::UnmatchedClose { position: 2 })
    );
}

#[test]
fn stray_close_is_cited_whatever_the_length() {
    for padding in [0usize, 1, 10, 1000] {
        let mut program: Vec<char> = vec!['+'; padding];
        program.push(']');
        program.extend(vec!['-'; padding]);
        assert_eq!(
            loop_closures(&program),
            Err(SyntaxError::UnmatchedClose { position: padding })
        );
    }
}

#[test]
fn one_open_left_over() {
    assert_eq!(
        loop_closures(&commands("[[]")),
        Err(SyntaxError::UnmatchedOpen { positions: vec![0] })
    );
}

#[test]
fn trailing_open_is_cited() {
    assert_eq!(
        loop_closures(&commands("+[-]>[")),
        Err(SyntaxError::UnmatchedOpen { positions: vec![5] })
    );
}

#[test]
fn all_open_brackets_left_over_are_cited_in_order() {
    assert_eq!(
        loop_closures(&commands("[+[[-]>[")),
        Err(SyntaxError::UnmatchedOpen { positions: vec![0, 2, 7] })
    );
}

#[test]
fn open_residue_is_cited_whatever_the_length() {
    for padding in [0usize, 1, 10, 1000] {
        let mut program: Vec<char> = vec!['+'; padding];
        program.push('[');
        program.extend(vec!['-'; padding]);
        program.push('[');
        assert_eq!(
            loop_closures(&program),
            Err(SyntaxError::UnmatchedOpen { positions: vec![padding, 2 * padding + 1] })
        );
    }
}

#[test]
fn resolver_leaves_the_program_alone() {
    let program = commands("+[>[-]<]");
    let copy = program.clone();
    let _ = loop_closures(&program);
    assert_eq!(program, copy);
}

#[test]
fn alphabet_has_eight_symbols() {
    for c in ['>', '<', '+', '-', '.', ',', '[', ']'] {
        assert!(is_command(c));
    }
    for c in ['a', ' ', '\n', '0', '(', ')', '{', '}', '!', '\u{e9}', '\u{1F600}'] {
        assert!(!is_command(c));
    }
}

#[test]
fn filter_drops_everything_but_instructions() {
    assert_eq!(filter_source(""), commands(""));
    assert_eq!(filter_source("hello world"), commands(""));
    assert_eq!(
        filter_source("read , then\n  [ loop . ] done +-<> \u{e9}"),
        commands(",[.]+-<>")
    );
    assert_eq!(filter_source("++>+++++[<+>-]<."), commands("++>+++++[<+>-]<."));
}

#[test]
fn parse_filters_and_resolves() {
    let program = Program::parse("clear: [ - ] ok").unwrap();
    assert_eq!(program.commands(), &commands("[-]"));
    assert_eq!(program.table(), &vec![Some(2), None, Some(0)]);
    assert_eq!(program.len(), 3);
}

#[test]
fn parse_cites_positions_among_the_instructions() {
    assert_eq!(
        Program::parse("ab ] cd").err(),
        Some(SyntaxError::UnmatchedClose { position: 0 })
    );
    assert_eq!(
        Program::parse("x[ y[ z]").err(),
        Some(SyntaxError::UnmatchedOpen { positions: vec![0] })
    );
}

// What the resolver has to return, found the slow way: for each bracket,
// search for its partner by counting.
fn expected(program: &[char]) -> Result<Vec<Option<usize>>, SyntaxError> {
    let mut level = 0i64;
    for (i, c) in program.iter().enumerate() {
        if *c == '[' {
            level += 1;
        }
        if *c == ']' {
            if level == 0 {
                return Err(SyntaxError::UnmatchedClose { position: i });
            }
            level -= 1;
        }
    }
    let mut table = vec![None; program.len()];
    let mut unclosed = Vec::new();
    for i in 0..program.len() {
        if program[i] != '[' {
            continue;
        }
        let mut level = 0i64;
        let mut partner = None;
        for j in i..program.len() {
            if program[j] == '[' {
                level += 1;
            }
            if program[j] == ']' {
                level -= 1;
            }
            if level == 0 {
                partner = Some(j);
                break;
            }
        }
        match partner {
            Some(j) => {
                table[i] = Some(j);
                table[j] = Some(i);
            }
            None => unclosed.push(i),
        }
    }
    if unclosed.is_empty() {
        Ok(table)
    } else {
        Err(SyntaxError::UnmatchedOpen { positions: unclosed })
    }
}

#[test]
fn resolver_agrees_with_counting_on_all_short_programs() {
    let alphabet = ['[', ']', '+'];
    for length in 0..=8u32 {
        for code in 0..3usize.pow(length) {
            let mut program = Vec::new();
            let mut rest = code;
            for _ in 0..length {
                program.push(alphabet[rest % 3]);
                rest /= 3;
            }
            assert_eq!(loop_closures(&program), expected(&program));
        }
    }
}

#[test]
fn resolver_gives_the_same_answer_every_time() {
    for source in ["[[]", "]", "+[-]>]<[", "[+[[-]>[", "++>+++++[<+>-]<."] {
        let program = commands(source);
        assert_eq!(loop_closures(&program), loop_closures(&program));
    }
}
