//! Bracket matching: from a sequence of instructions to its jump table.
//!
//! What a matching pair is, is stated over the nesting depth of the program's
//! prefixes; the executable scan keeps a stack of open brackets and is proved
//! to agree with that statement.

use vstd::prelude::*;

verus! {

/// How one instruction changes the nesting depth.
pub open spec fn bracket_delta(c: char) -> int {
    if c == '[' {
        1
    } else if c == ']' {
        -1
    } else {
        0
    }
}

/// Nesting depth after the first `n` instructions of `s`: opening brackets
/// seen minus closing brackets seen.
pub open spec fn depth(s: Seq<char>, n: int) -> int
    decreases n,
{
    if n <= 0 {
        0
    } else {
        depth(s, n - 1) + bracket_delta(s[n - 1])
    }
}

/// Every closing bracket among the first `n` instructions has an opening
/// bracket before it to close.
pub open spec fn closes_matched(s: Seq<char>, n: int) -> bool {
    forall|k: int| 0 <= k <= n ==> depth(s, k) >= 0
}

/// Every bracket of `s` has a partner.
pub open spec fn well_bracketed(s: Seq<char>) -> bool {
    closes_matched(s, s.len() as int) && depth(s, s.len() as int) == 0
}

/// The brackets at `open` and `close` are partners: the depth first returns
/// to its level before `open` just after `close`.
pub open spec fn is_pair(s: Seq<char>, open: int, close: int) -> bool {
    &&& 0 <= open < close < s.len()
    &&& s[open] == '['
    &&& s[close] == ']'
    &&& depth(s, close + 1) == depth(s, open)
    &&& forall|k: int| open < k <= close ==> depth(s, k) > depth(s, open)
}

/// The opening bracket at `i` is still waiting for its partner after the
/// first `n` instructions.
pub open spec fn open_at(s: Seq<char>, i: int, n: int) -> bool {
    &&& 0 <= i < n <= s.len()
    &&& s[i] == '['
    &&& forall|k: int| i < k <= n ==> depth(s, k) > depth(s, i)
}

/// `t` is the jump table of `s`: each bracket's entry is its partner's
/// position, and no other position has an entry.
pub open spec fn is_jump_table(s: Seq<char>, t: Seq<Option<usize>>) -> bool {
    &&& t.len() == s.len()
    &&& forall|i: int|
        0 <= i < s.len() ==> match #[trigger] t[i] {
            Some(j) => if s[i] == '[' {
                is_pair(s, i, j as int)
            } else {
                s[i] == ']' && is_pair(s, j as int, i)
            },
            None => s[i] != '[' && s[i] != ']',
        }
}

/// `p` holds the first closing bracket of `s` that has nothing to close.
pub open spec fn stray_close_at(s: Seq<char>, p: int) -> bool {
    &&& 0 <= p < s.len()
    &&& s[p] == ']'
    &&& depth(s, p) == 0
    &&& closes_matched(s, p)
}

/// `r` lists, in rising order, exactly the opening brackets of `s` that are
/// never closed.
pub open spec fn is_open_residue(s: Seq<char>, r: Seq<usize>) -> bool {
    &&& forall|a: int, b: int| 0 <= a < b < r.len() ==> r[a] < r[b]
    &&& forall|a: int| 0 <= a < r.len() ==> open_at(s, #[trigger] r[a] as int, s.len() as int)
    &&& forall|i: int| #[trigger]
        open_at(s, i, s.len() as int) ==> exists|a: int| 0 <= a < r.len() && #[trigger] r[a] == i
}

/// Why a program has no jump table.
#[derive(Debug, PartialEq, Eq)]
pub enum SyntaxError {
    /// A closing bracket with no opening bracket left to close.
    UnmatchedClose { position: usize },
    /// Opening brackets that are never closed, in program order.
    UnmatchedOpen { positions: Vec<usize> },
}

/// `error` is the report that `s` calls for: the first closing bracket that
/// has nothing to close, or, where every closing bracket has a partner,
/// all the opening brackets that are never closed.
pub open spec fn reports(s: Seq<char>, error: SyntaxError) -> bool {
    match error {
        SyntaxError::UnmatchedClose { position } => stray_close_at(s, position as int),
        SyntaxError::UnmatchedOpen { positions } => {
            &&& closes_matched(s, s.len() as int)
            &&& positions@.len() == depth(s, s.len() as int)
            &&& positions@.len() > 0
            &&& is_open_residue(s, positions@)
        },
    }
}

/// A bracket has at most one partner on either side.
pub proof fn lemma_pair_unique(s: Seq<char>, open1: int, close1: int, open2: int, close2: int)
    requires
        is_pair(s, open1, close1),
        is_pair(s, open2, close2),
    ensures
        open1 == open2 <==> close1 == close2,
{
    if open1 == open2 && close1 != close2 {
        if close1 < close2 {
            assert(depth(s, close1 + 1) > depth(s, open2));
        } else {
            assert(depth(s, close2 + 1) > depth(s, open1));
        }
    }
    if close1 == close2 && open1 != open2 {
        if open1 < open2 {
            assert(depth(s, open2) > depth(s, open1));
        } else {
            assert(depth(s, open1) > depth(s, open2));
        }
    }
}

/// Two waiting opening brackets at the same depth are the same bracket.
pub proof fn lemma_open_unique(s: Seq<char>, a: int, b: int, n: int)
    requires
        open_at(s, a, n),
        open_at(s, b, n),
        depth(s, a) == depth(s, b),
    ensures
        a == b,
{
    if a < b {
        assert(depth(s, b) > depth(s, a));
    } else if b < a {
        assert(depth(s, a) > depth(s, b));
    }
}

/// The nesting depth after `n` instructions depends on those instructions
/// alone.
pub proof fn lemma_depth_of_prefix(s: Seq<char>, p: int, n: int)
    requires
        0 <= n <= p <= s.len(),
    ensures
        depth(s.take(p), n) == depth(s, n),
    decreases n,
{
    if n > 0 {
        lemma_depth_of_prefix(s, p, n - 1);
    }
}

/// A stray closing bracket decides the outcome: the program is not well
/// bracketed, and no other position is the stray one.
pub proof fn lemma_stray_close_decides(s: Seq<char>, p: int)
    requires
        stray_close_at(s, p),
    ensures
        !closes_matched(s, s.len() as int),
        !well_bracketed(s),
        forall|q: int| stray_close_at(s, q) ==> q == p,
{
    assert(depth(s, p + 1) == -1);
    assert forall|q: int| stray_close_at(s, q) implies q == p by {
        assert(depth(s, q + 1) == -1);
        if q < p {
            assert(depth(s, q + 1) >= 0);
        } else if p < q {
            assert(depth(s, p + 1) >= 0);
        }
    }
}

/// A closing bracket that directly follows a well-bracketed prefix is the
/// stray one, whatever comes after it.
pub proof fn law_close_after_balanced_prefix(s: Seq<char>, p: int)
    requires
        0 <= p < s.len(),
        s[p] == ']',
        well_bracketed(s.take(p)),
    ensures
        stray_close_at(s, p),
        !well_bracketed(s),
        forall|q: int| stray_close_at(s, q) ==> q == p,
{
    assert forall|k: int| 0 <= k <= p implies depth(s, k) >= 0 by {
        lemma_depth_of_prefix(s, p, k);
        assert(depth(s.take(p), k) >= 0);
    }
    lemma_depth_of_prefix(s, p, p);
    lemma_stray_close_decides(s, p);
}

/// The nesting depth past position `p` is the depth at `p` plus the depth
/// reached within the rest of the program.
pub proof fn lemma_depth_of_suffix(s: Seq<char>, p: int, k: int)
    requires
        0 <= p <= s.len(),
        0 <= k <= s.len() - p,
    ensures
        depth(s, p + k) == depth(s, p) + depth(s.skip(p), k),
    decreases k,
{
    if k > 0 {
        lemma_depth_of_suffix(s, p, k - 1);
        assert(s.skip(p)[k - 1] == s[p + k - 1]);
    }
}

/// An opening bracket between a well-bracketed prefix and a well-bracketed
/// rest is the one unclosed bracket of the program.
pub proof fn law_open_between_balanced_parts(s: Seq<char>, p: int)
    requires
        0 <= p < s.len(),
        p <= usize::MAX,
        s[p] == '[',
        well_bracketed(s.take(p)),
        well_bracketed(s.skip(p + 1)),
    ensures
        closes_matched(s, s.len() as int),
        depth(s, s.len() as int) == 1,
        is_open_residue(s, seq![p as usize]),
{
    let n = s.len() as int;
    let rest = s.skip(p + 1);
    lemma_depth_of_prefix(s, p, p);
    assert(depth(s, p + 1) == 1);
    assert forall|k: int| 0 <= k <= n implies depth(s, k) >= 0 && (k > p ==> depth(s, k) >= 1) by {
        if k <= p {
            lemma_depth_of_prefix(s, p, k);
            assert(depth(s.take(p), k) >= 0);
        } else {
            lemma_depth_of_suffix(s, p + 1, k - (p + 1));
            assert(depth(rest, k - (p + 1)) >= 0);
        }
    }
    lemma_depth_of_suffix(s, p + 1, n - (p + 1));
    let r = seq![p as usize];
    assert(open_at(s, p, n));
    assert forall|i: int| #[trigger] open_at(s, i, n) implies exists|a: int|
        0 <= a < r.len() && #[trigger] r[a] == i by {
        if i < p {
            assert(depth(s, p) > depth(s, i));
            assert(depth(s, i) >= 0);
        } else if i > p {
            assert(depth(s, i) >= 1);
            assert(depth(s, n) > depth(s, i));
        }
        assert(r[0] == i);
    }
}

/// In a jump table exactly the brackets have entries, and following an
/// entry twice leads back: the entry of a bracket's partner is the bracket.
pub proof fn law_jump_table_involution(s: Seq<char>, t: Seq<Option<usize>>)
    requires
        is_jump_table(s, t),
    ensures
        forall|i: int|
            0 <= i < s.len() ==> (#[trigger] t[i] is Some <==> s[i] == '[' || s[i] == ']'),
        forall|i: int|
            0 <= i < s.len() && #[trigger] t[i] is Some ==> {
                let j = t[i]->0 as int;
                0 <= j < s.len() && j != i && t[j] == Some(i as usize)
            },
{
    assert forall|i: int| 0 <= i < s.len() && #[trigger] t[i] is Some implies {
        let j = t[i]->0 as int;
        0 <= j < s.len() && j != i && t[j] == Some(i as usize)
    } by {
        let j = t[i]->0 as int;
        assert(t[j] is Some);
        let back = t[j]->0 as int;
        if s[i] == '[' {
            lemma_pair_unique(s, i, j, back, j);
        } else {
            lemma_pair_unique(s, j, i, j, back);
        }
    }
}

/// A program has at most one jump table.
pub proof fn law_jump_table_unique(s: Seq<char>, t1: Seq<Option<usize>>, t2: Seq<Option<usize>>)
    requires
        is_jump_table(s, t1),
        is_jump_table(s, t2),
    ensures
        t1 == t2,
{
    assert forall|i: int| 0 <= i < s.len() implies t1[i] == t2[i] by {
        if t1[i] is Some {
            assert(t2[i] is Some);
            let a = t1[i]->0 as int;
            let b = t2[i]->0 as int;
            if s[i] == '[' {
                lemma_pair_unique(s, i, a, i, b);
            } else {
                lemma_pair_unique(s, a, i, b, i);
            }
        } else {
            assert(t2[i] is None);
        }
    }
    assert(t1 =~= t2);
}

/// Two lists of the unclosed opening brackets agree position by position.
proof fn lemma_open_residue_agree(s: Seq<char>, r1: Seq<usize>, r2: Seq<usize>, k: int)
    requires
        is_open_residue(s, r1),
        is_open_residue(s, r2),
        0 <= k < r1.len(),
        k < r2.len(),
    ensures
        r1[k] == r2[k],
    decreases k,
{
    let n = s.len() as int;
    if r1[k] < r2[k] {
        assert(open_at(s, r1[k] as int, n));
        let a = choose|a: int| 0 <= a < r2.len() && r2[a] == r1[k] as int;
        if a > k {
            assert(r2[k] < r2[a]);
        }
        lemma_open_residue_agree(s, r1, r2, a);
        assert(r1[a] < r1[k]);
    } else if r2[k] < r1[k] {
        assert(open_at(s, r2[k] as int, n));
        let a = choose|a: int| 0 <= a < r1.len() && r1[a] == r2[k] as int;
        if a > k {
            assert(r1[k] < r1[a]);
        }
        lemma_open_residue_agree(s, r1, r2, a);
        assert(r2[a] < r2[k]);
    }
}

/// A program has at most one list of unclosed opening brackets.
pub proof fn law_open_residue_unique(s: Seq<char>, r1: Seq<usize>, r2: Seq<usize>)
    requires
        is_open_residue(s, r1),
        is_open_residue(s, r2),
    ensures
        r1 == r2,
{
    let n = s.len() as int;
    if r1.len() > r2.len() {
        let m = r2.len() as int;
        assert(open_at(s, r1[m] as int, n));
        let a = choose|a: int| 0 <= a < r2.len() && r2[a] == r1[m] as int;
        lemma_open_residue_agree(s, r1, r2, a);
        assert(r1[a] < r1[m]);
    } else if r2.len() > r1.len() {
        let m = r1.len() as int;
        assert(open_at(s, r2[m] as int, n));
        let a = choose|a: int| 0 <= a < r1.len() && r1[a] == r2[m] as int;
        lemma_open_residue_agree(s, r1, r2, a);
        assert(r2[a] < r2[m]);
    }
    assert forall|k: int| 0 <= k < r1.len() implies r1[k] == r2[k] by {
        lemma_open_residue_agree(s, r1, r2, k);
    }
    assert(r1 =~= r2);
}

/// Pairs up the brackets of `commands`.
///
/// The scan runs left to right with a stack of the opening brackets that
/// still wait for a partner. It succeeds exactly on well-bracketed programs.
/// Otherwise it reports the first closing bracket that has nothing to close,
/// or, where there is none, every opening bracket left waiting at the end.
pub fn loop_closures(commands: &Vec<char>) -> (result: Result<Vec<Option<usize>>, SyntaxError>)
    ensures
        result is Ok <==> well_bracketed(commands@),
        result matches Err(SyntaxError::UnmatchedClose { .. }) <==> !closes_matched(
            commands@,
            commands@.len() as int,
        ),
        match result {
            Ok(table) => is_jump_table(commands@, table@),
            Err(error) => reports(commands@, error),
        },
{
    let len = commands.len();
    let mut stack: Vec<usize> = Vec::new();
    let mut closure: Vec<Option<usize>> = vec![None; len];
    let mut index: usize = 0;
    while index < len
        invariant
            len == commands@.len(),
            index <= len,
            closure@.len() == len,
            stack@.len() == depth(commands@, index as int),
            closes_matched(commands@, index as int),
            forall|k: int|
                0 <= k < stack@.len() ==> open_at(
                    commands@,
                    #[trigger] stack@[k] as int,
                    index as int,
                ) && depth(commands@, stack@[k] as int) == k,
            forall|i: int|
                0 <= i < len ==> match #[trigger] closure@[i] {
                    Some(j) => i < index && j < index && if commands@[i] == '[' {
                        is_pair(commands@, i, j as int)
                    } else {
                        commands@[i] == ']' && is_pair(commands@, j as int, i)
                    },
                    None => i >= index || (commands@[i] != ']' && (commands@[i] == '[' ==> open_at(
                        commands@,
                        i,
                        index as int,
                    ))),
                },
        decreases len - index,
    {
        let command = commands[index];
        if command == '[' {
            stack.push(index);
        } else if command == ']' {
            if stack.len() == 0 {
                proof {
                    lemma_stray_close_decides(commands@, index as int);
                }
                return Err(SyntaxError::UnmatchedClose { position: index });
            }
            let partner = stack.pop().unwrap();
            closure.set(index, Some(partner));
            closure.set(partner, Some(index));
        }
        index += 1;
    }
    if stack.len() != 0 {
        proof {
            let s = commands@;
            let r = stack@;
            assert forall|a: int, b: int| 0 <= a < b < r.len() implies r[a] < r[b] by {
                if r[a] >= r[b] {
                    assert(open_at(s, r[b] as int, len as int));
                    assert(open_at(s, r[a] as int, len as int));
                }
            }
            assert forall|i: int| #[trigger] open_at(s, i, len as int) implies exists|a: int|
                0 <= a < r.len() && #[trigger] r[a] == i by {
                let d = depth(s, i);
                assert(depth(s, len as int) > d);
                assert(d >= 0);
                lemma_open_unique(s, i, r[d] as int, len as int);
            }
        }
        Err(SyntaxError::UnmatchedOpen { positions: stack })
    } else {
        proof {
            let s = commands@;
            assert forall|i: int| 0 <= i < s.len() implies match #[trigger] closure@[i] {
                Some(j) => if s[i] == '[' {
                    is_pair(s, i, j as int)
                } else {
                    s[i] == ']' && is_pair(s, j as int, i)
                },
                None => s[i] != '[' && s[i] != ']',
            } by {
                if closure@[i] is None && s[i] == '[' {
                    assert(open_at(s, i, len as int));
                    assert(depth(s, len as int) > depth(s, i));
                    assert(depth(s, i) >= 0);
                }
            }
        }
        Ok(closure)
    }
}

} // verus!
