//! Bracket validation and matching for loop instructions.
use vstd::prelude::*;
use crate::chars::collect_chars;
use crate::errors::ExecutionError;
use crate::errors::ErrorKind;
use crate::location::line_of;
use crate::location::column_of;

verus! {

/// Number of loop-open characters among the first `n` characters of `s`.
pub open spec fn open_count(s: Seq<char>, n: int) -> int
    decreases n,
{
    if n <= 0 {
        0
    } else {
        open_count(s, n - 1) + if s[n - 1] == '[' {
            1int
        } else {
            0int
        }
    }
}

/// Number of loop-close characters among the first `n` characters of `s`.
pub open spec fn close_count(s: Seq<char>, n: int) -> int
    decreases n,
{
    if n <= 0 {
        0
    } else {
        close_count(s, n - 1) + if s[n - 1] == ']' {
            1int
        } else {
            0int
        }
    }
}

/// Index of the last occurrence of `c` among the first `n` characters of `s`,
/// or 0 if there is none.
pub open spec fn last_occurrence(s: Seq<char>, c: char, n: int) -> int
    decreases n,
{
    if n <= 0 {
        0
    } else if s[n - 1] == c {
        n - 1
    } else {
        last_occurrence(s, c, n - 1)
    }
}

/// The forward scan for a matching bracket: starting at `j` with the given
/// running depth, the first position at which the depth returns to zero,
/// or 0 if the scan runs off the end.
pub open spec fn fwd_scan(s: Seq<char>, j: int, depth: int) -> int
    decreases s.len() - j,
{
    if j < 0 || j >= s.len() {
        0
    } else {
        let d = depth + if s[j] == '[' {
            1int
        } else if s[j] == ']' {
            -1int
        } else {
            0int
        };
        if d == 0 {
            j
        } else {
            fwd_scan(s, j + 1, d)
        }
    }
}

/// The backward scan for a matching bracket: starting at `j` with the given
/// running depth, the first position (moving left) at which the depth returns
/// to zero, or 0 if the scan runs off the start.
pub open spec fn bwd_scan(s: Seq<char>, j: int, depth: int) -> int
    decreases j + 1,
{
    if j < 0 || j >= s.len() {
        0
    } else {
        let d = depth + if s[j] == ']' {
            1int
        } else if s[j] == '[' {
            -1int
        } else {
            0int
        };
        if d == 0 {
            j
        } else {
            bwd_scan(s, j - 1, d)
        }
    }
}

/// The structural partner of the bracket at `start`: a loop-close scans
/// backward for its loop-open, anything else scans forward.
pub open spec fn match_target(s: Seq<char>, start: int) -> int {
    if 0 <= start < s.len() && s[start] == ']' {
        bwd_scan(s, start, 0)
    } else {
        fwd_scan(s, start, 0)
    }
}

proof fn lemma_fwd_scan_range(s: Seq<char>, j: int, depth: int)
    requires
        s.len() > 0,
    ensures
        0 <= fwd_scan(s, j, depth) < s.len(),
    decreases s.len() - j,
{
    if 0 <= j < s.len() {
        let d = depth + if s[j] == '[' {
            1int
        } else if s[j] == ']' {
            -1int
        } else {
            0int
        };
        if d != 0 {
            lemma_fwd_scan_range(s, j + 1, d);
        }
    }
}

proof fn lemma_bwd_scan_range(s: Seq<char>, j: int, depth: int)
    requires
        s.len() > 0,
    ensures
        0 <= bwd_scan(s, j, depth) < s.len(),
    decreases j + 1,
{
    if 0 <= j < s.len() {
        let d = depth + if s[j] == ']' {
            1int
        } else if s[j] == '[' {
            -1int
        } else {
            0int
        };
        if d != 0 {
            lemma_bwd_scan_range(s, j - 1, d);
        }
    }
}

/// The partner of an in-bounds bracket is itself in bounds.
pub proof fn lemma_match_target_range(s: Seq<char>, start: int)
    requires
        0 <= start < s.len(),
    ensures
        0 <= match_target(s, start) < s.len(),
{
    if s[start] == ']' {
        lemma_bwd_scan_range(s, start, 0);
    } else {
        lemma_fwd_scan_range(s, start, 0);
    }
}

/// Finds the partner of the bracket at `start` within the program characters.
pub(crate) fn match_in(prog: &Vec<char>, start: usize) -> (r: usize)
    requires
        start < prog@.len(),
    ensures
        r == match_target(prog@, start as int),
        r < prog@.len(),
{
    proof {
        lemma_match_target_range(prog@, start as int);
    }
    let len = prog.len();
    if prog[start] == ']' {
        let mut j = start;
        let mut depth: i128 = 0;
        loop
            invariant
                j <= start < len,
                len == prog@.len(),
                prog@[start as int] == ']',
                -(start as int - j as int) <= depth <= start as int - j as int,
                bwd_scan(prog@, j as int, depth as int) == match_target(prog@, start as int),
                0 <= match_target(prog@, start as int) < len,
            decreases j,
        {
            let d: i128 = depth + if prog[j] == ']' {
                1
            } else if prog[j] == '[' {
                -1
            } else {
                0
            };
            if d == 0 {
                return j;
            }
            if j == 0 {
                proof {
                    assert(bwd_scan(prog@, -1, d as int) == 0);
                    assert(bwd_scan(prog@, 0, depth as int) == 0);
                }
                return 0;
            }
            j -= 1;
            depth = d;
        }
    } else {
        let mut j = start;
        let mut depth: i128 = 0;
        while j < len
            invariant
                start <= j <= len,
                len == prog@.len(),
                !(prog@[start as int] == ']'),
                0 <= start < len,
                -(j as int - start as int) <= depth <= j as int - start as int,
                fwd_scan(prog@, j as int, depth as int) == match_target(prog@, start as int),
                0 <= match_target(prog@, start as int) < len,
            decreases len - j,
        {
            let d: i128 = depth + if prog[j] == '[' {
                1
            } else if prog[j] == ']' {
                -1
            } else {
                0
            };
            if d == 0 {
                return j;
            }
            j += 1;
            depth = d;
        }
        0
    }
}

/// Finds the offset of the structural partner of the bracket at
/// `start_index`: a loop-close is matched by scanning backward, anything
/// else by scanning forward; 0 is returned when the scan finds no partner.
pub fn find_matching_bracket(start_index: usize, program: &str) -> (r: usize)
    requires
        start_index < program@.len(),
    ensures
        r == match_target(program@, start_index as int),
        r < program@.len(),
{
    let prog = collect_chars(program);
    match_in(&prog, start_index)
}

proof fn lemma_last_occurrence_found(s: Seq<char>, c: char, n: int)
    requires
        open_count(s, n) > 0 && c == '[' || close_count(s, n) > 0 && c == ']',
    ensures
        0 <= last_occurrence(s, c, n) < n,
        s[last_occurrence(s, c, n)] == c,
    decreases n,
{
    if n > 0 && s[n - 1] != c {
        lemma_last_occurrence_found(s, c, n - 1);
    }
}

/// Scans the whole program and confirms that it holds as many loop-open as
/// loop-close characters. On a mismatch, the reported offset is that of the
/// last loop-open (or loop-close) seen overall: a deterministic heuristic,
/// not necessarily the innermost genuinely unmatched bracket.
pub fn check_brackets_match(program: &str) -> (r: Result<(), ExecutionError>)
    ensures
        ({
            let s = program@;
            let n = s.len() as int;
            match r {
                Ok(()) => open_count(s, n) == close_count(s, n),
                Err(e) => {
                    &&& open_count(s, n) != close_count(s, n)
                    &&& e.code == 1
                    &&& ({
                        let c = if open_count(s, n) > close_count(s, n) {
                            '['
                        } else {
                            ']'
                        };
                        let off = last_occurrence(s, c, n);
                        e.kind matches ErrorKind::Syntax { line, column, problem } && {
                            &&& line == line_of(s, off)
                            &&& column == column_of(s, off)
                            &&& (open_count(s, n) > close_count(s, n) ==> problem@
                                == "Unmatched bracket '['"@)
                            &&& (open_count(s, n) < close_count(s, n) ==> problem@
                                == "Unmatched bracket ']'"@)
                        }
                    })
                },
            }
        }),
{
    let prog = collect_chars(program);
    let len = prog.len();
    let mut opens: usize = 0;
    let mut closes: usize = 0;
    let mut last_open: usize = 0;
    let mut last_close: usize = 0;
    let mut i: usize = 0;
    while i < len
        invariant
            i <= len,
            len == program@.len(),
            prog@ == program@,
            opens == open_count(program@, i as int),
            closes == close_count(program@, i as int),
            opens <= i,
            closes <= i,
            last_open == last_occurrence(program@, '[', i as int),
            last_close == last_occurrence(program@, ']', i as int),
        decreases len - i,
    {
        let c = prog[i];
        if c == '[' {
            last_open = i;
            opens += 1;
        } else if c == ']' {
            last_close = i;
            closes += 1;
        }
        i += 1;
    }
    if opens == closes {
        return Ok(());
    }
    if opens > closes {
        proof {
            lemma_last_occurrence_found(program@, '[', len as int);
        }
        Err(ExecutionError::new_syntax(last_open, "Unmatched bracket '['", program))
    } else {
        proof {
            lemma_last_occurrence_found(program@, ']', len as int);
        }
        Err(ExecutionError::new_syntax(last_close, "Unmatched bracket ']'", program))
    }
}

} // verus!
