//! The execution engine: a small-step state machine over the tape, the data
//! pointer and the instruction cursor, with the exec interpreter proved to
//! follow it step by step.
use vstd::prelude::*;
use vstd::string::StringExecFns;
use vstd::utf8::encode_scalar;
use crate::brackets::match_target;
use crate::brackets::check_brackets_match;
use crate::brackets::match_in;
use crate::brackets::open_count;
use crate::brackets::close_count;
use crate::brackets::last_occurrence;
use crate::chars::collect_chars;
use crate::decimal::dec_bytes;
use crate::decimal::dec_chars;
use crate::decimal::push_dec_u8;
use crate::decimal::usize_to_string;
use crate::encoding::encode_char;
use crate::errors::ErrorKind;
use crate::errors::ExecutionError;
use crate::location::line_of;
use crate::location::column_of;

verus! {

/// Number of cells on the tape.
pub const TAPE_LEN: usize = 65536;

/// Largest value the data pointer may hold.
pub const MAX_POINTER: usize = 65535;

/// Maximum number of loop-close jumps the watchdog tolerates since the last
/// counter reset.
pub const MAX_ITERS: u16 = 65535;

/// Cap on the total number of jumps a single run may take. A run that jumps
/// this often is judged runaway whatever the watchdog counter says; it bounds
/// every execution without affecting any run of feasible length.
pub const JUMP_LIMIT: u64 = 0xFFFF_FFFF_FFFF_FFFF;

/// Which characters are active instructions: the base set alone, or the base
/// set together with the decimal-print and accumulate-input extensions.
#[derive(Clone, Copy, PartialEq, Eq, Structural, Debug)]
pub enum SyntaxMode {
    Base,
    Extended,
}

/// The recognized instructions, with a catch-all for characters that have no
/// effect under the active syntax mode.
#[derive(Clone, Copy, PartialEq, Eq, Structural, Debug)]
pub enum Instruction {
    MoveRight,
    MoveLeft,
    Increment,
    Decrement,
    Output,
    Input,
    PrintDecimal,
    AccumulateInput,
    LoopOpen,
    LoopClose,
    Inert,
}

/// Which instruction a character denotes under the active syntax mode.
pub open spec fn spec_decode(c: char, mode: SyntaxMode) -> Instruction {
    if c == '>' {
        Instruction::MoveRight
    } else if c == '<' {
        Instruction::MoveLeft
    } else if c == '+' {
        Instruction::Increment
    } else if c == '-' {
        Instruction::Decrement
    } else if c == '.' {
        Instruction::Output
    } else if c == ',' {
        Instruction::Input
    } else if c == ':' && mode == SyntaxMode::Extended {
        Instruction::PrintDecimal
    } else if c == ';' && mode == SyntaxMode::Extended {
        Instruction::AccumulateInput
    } else if c == '[' {
        Instruction::LoopOpen
    } else if c == ']' {
        Instruction::LoopClose
    } else {
        Instruction::Inert
    }
}

/// Decodes one character under the active syntax mode.
pub fn decode(c: char, mode: SyntaxMode) -> (r: Instruction)
    ensures
        r == spec_decode(c, mode),
{
    if c == '>' {
        Instruction::MoveRight
    } else if c == '<' {
        Instruction::MoveLeft
    } else if c == '+' {
        Instruction::Increment
    } else if c == '-' {
        Instruction::Decrement
    } else if c == '.' {
        Instruction::Output
    } else if c == ',' {
        Instruction::Input
    } else if c == ':' && mode == SyntaxMode::Extended {
        Instruction::PrintDecimal
    } else if c == ';' && mode == SyntaxMode::Extended {
        Instruction::AccumulateInput
    } else if c == '[' {
        Instruction::LoopOpen
    } else if c == ']' {
        Instruction::LoopClose
    } else {
        Instruction::Inert
    }
}

/// The fatal conditions the engine can reach, with where they arose.
pub ghost enum FailKind {
    PointerOverflow { at: int },
    PointerUnderflow { at: int },
    CellOverflow { at: int, cell: int },
    CellUnderflow { at: int, cell: int },
    IterationLimit,
}

/// Whether the machine is still dispatching, finished, or stopped at a fault.
pub ghost enum RunStatus {
    Running,
    Halted,
    Failed { kind: FailKind },
}

/// The whole state of one execution.
#[verifier::ext_equal]
pub ghost struct EngineState {
    /// Offset of the next instruction in the program.
    pub cursor: int,
    /// The data pointer.
    pub ptr: int,
    /// The tape cells.
    pub tape: Seq<u8>,
    /// Loop-close jumps taken since the watchdog counter was last reset.
    pub iters: int,
    /// Jumps taken over the whole run, never reset.
    pub jumps: int,
    /// Number of input characters consumed so far.
    pub inpos: int,
    /// Bytes emitted so far.
    pub out: Seq<u8>,
    pub status: RunStatus,
}

/// The state a fresh run starts from.
pub open spec fn init_state(ptr: int, tape: Seq<u8>) -> EngineState {
    EngineState {
        cursor: 0,
        ptr,
        tape,
        iters: 0,
        jumps: 0,
        inpos: 0,
        out: Seq::empty(),
        status: RunStatus::Running,
    }
}

pub open spec fn advance(s: EngineState) -> EngineState {
    EngineState { cursor: s.cursor + 1, ..s }
}

pub open spec fn fail(s: EngineState, kind: FailKind) -> EngineState {
    EngineState { status: RunStatus::Failed { kind }, ..s }
}

/// Writes the given bytes to consecutive cells starting at `ptr`, wrapping
/// around the end of the tape, and stopping at the first zero byte.
pub open spec fn write_spread(tape: Seq<u8>, ptr: int, bytes: Seq<u8>, j: int) -> Seq<u8>
    decreases bytes.len() - j,
{
    if j < 0 || j >= bytes.len() || bytes[j] == 0 {
        tape
    } else {
        write_spread(tape.update((ptr + j) % 65536, bytes[j]), ptr, bytes, j + 1)
    }
}

/// Adds the given bytes to consecutive cells starting at `ptr`, wrapping both
/// the index and the sum, and stopping at the first zero byte.
pub open spec fn add_spread(tape: Seq<u8>, ptr: int, bytes: Seq<u8>, j: int) -> Seq<u8>
    decreases bytes.len() - j,
{
    if j < 0 || j >= bytes.len() || bytes[j] == 0 {
        tape
    } else {
        add_spread(
            tape.update((ptr + j) % 65536, ((tape[(ptr + j) % 65536] + bytes[j]) % 256) as u8),
            ptr,
            bytes,
            j + 1,
        )
    }
}

/// One step of the machine: the per-character transition table, together with
/// the watchdog check and the halt test.
pub open spec fn step(
    prog: Seq<char>,
    mode: SyntaxMode,
    safe: bool,
    input: Seq<char>,
    s: EngineState,
) -> EngineState {
    if !(s.status is Running) {
        s
    } else if s.iters > MAX_ITERS as int {
        fail(s, FailKind::IterationLimit)
    } else if s.cursor >= prog.len() {
        EngineState { status: RunStatus::Halted, ..s }
    } else {
        let c = prog[s.cursor];
        match spec_decode(c, mode) {
            Instruction::MoveRight => if s.ptr < 65535 {
                advance(EngineState { ptr: s.ptr + 1, ..s })
            } else if safe {
                fail(s, FailKind::PointerOverflow { at: s.cursor })
            } else {
                advance(EngineState { ptr: 0, ..s })
            },
            Instruction::MoveLeft => {
                if s.ptr > 0 {
                    advance(EngineState { ptr: s.ptr - 1, ..s })
                } else if safe {
                    fail(s, FailKind::PointerUnderflow { at: s.cursor })
                } else {
                    advance(EngineState { ptr: 65535, ..s })
                }
            },
            Instruction::Increment => if s.tape[s.ptr] < 255 {
                advance(EngineState { tape: s.tape.update(s.ptr, (s.tape[s.ptr] + 1) as u8), ..s })
            } else if safe {
                fail(s, FailKind::CellOverflow { at: s.cursor, cell: s.ptr })
            } else {
                advance(EngineState { tape: s.tape.update(s.ptr, 0u8), ..s })
            },
            Instruction::Decrement => if s.tape[s.ptr] > 0 {
                advance(EngineState { tape: s.tape.update(s.ptr, (s.tape[s.ptr] - 1) as u8), ..s })
            } else if safe {
                fail(s, FailKind::CellUnderflow { at: s.cursor, cell: s.ptr })
            } else {
                advance(EngineState { tape: s.tape.update(s.ptr, 255u8), ..s })
            },
            Instruction::Output => advance(EngineState { out: s.out + seq![s.tape[s.ptr]], ..s }),
            Instruction::Input => if s.inpos < input.len() {
                let bytes = encode_scalar(input[s.inpos] as u32);
                if safe {
                    advance(
                        EngineState {
                            tape: s.tape.update(s.ptr, bytes[0]),
                            inpos: s.inpos + 1,
                            ..s
                        },
                    )
                } else {
                    advance(
                        EngineState {
                            tape: write_spread(s.tape, s.ptr, bytes, 0),
                            inpos: s.inpos + 1,
                            ..s
                        },
                    )
                }
            } else {
                advance(s)
            },
            Instruction::PrintDecimal => advance(
                EngineState { out: s.out + dec_bytes(s.tape[s.ptr] as nat), ..s },
            ),
            Instruction::AccumulateInput => if s.inpos < input.len() {
                let bytes = encode_scalar(input[s.inpos] as u32);
                if safe {
                    advance(
                        EngineState {
                            tape: s.tape.update(
                                s.ptr,
                                ((s.tape[s.ptr] + bytes[0]) % 256) as u8,
                            ),
                            inpos: s.inpos + 1,
                            ..s
                        },
                    )
                } else {
                    advance(
                        EngineState {
                            tape: add_spread(s.tape, s.ptr, bytes, 0),
                            inpos: s.inpos + 1,
                            ..s
                        },
                    )
                }
            } else {
                advance(s)
            },
            Instruction::LoopOpen => if s.tape[s.ptr] == 0 {
                if s.jumps >= JUMP_LIMIT as int {
                    fail(s, FailKind::IterationLimit)
                } else {
                    EngineState {
                        cursor: match_target(prog, s.cursor) + 1,
                        iters: 0,
                        jumps: s.jumps + 1,
                        ..s
                    }
                }
            } else {
                advance(s)
            },
            Instruction::LoopClose => if s.tape[s.ptr] != 0 {
                if s.jumps >= JUMP_LIMIT as int {
                    fail(s, FailKind::IterationLimit)
                } else {
                    EngineState {
                        cursor: match_target(prog, s.cursor) + 1,
                        iters: s.iters + 1,
                        jumps: s.jumps + 1,
                        ..s
                    }
                }
            } else {
                advance(s)
            },
            Instruction::Inert => advance(s),
        }
    }
}

/// The machine after `n` steps from `s`.
pub open spec fn steps(
    n: nat,
    prog: Seq<char>,
    mode: SyntaxMode,
    safe: bool,
    input: Seq<char>,
    s: EngineState,
) -> EngineState
    decreases n,
{
    if n == 0 {
        s
    } else {
        step(prog, mode, safe, input, steps((n - 1) as nat, prog, mode, safe, input, s))
    }
}

/// A state from which the machine makes no further move.
pub open spec fn is_terminal(s: EngineState) -> bool {
    !(s.status is Running)
}

pub proof fn lemma_steps_succ(
    n: nat,
    prog: Seq<char>,
    mode: SyntaxMode,
    safe: bool,
    input: Seq<char>,
    s: EngineState,
)
    ensures
        steps(n + 1, prog, mode, safe, input, s) == step(
            prog,
            mode,
            safe,
            input,
            steps(n, prog, mode, safe, input, s),
        ),
{
}

pub proof fn lemma_steps_add(
    a: nat,
    b: nat,
    prog: Seq<char>,
    mode: SyntaxMode,
    safe: bool,
    input: Seq<char>,
    s: EngineState,
)
    ensures
        steps(a + b, prog, mode, safe, input, s) == steps(
            b,
            prog,
            mode,
            safe,
            input,
            steps(a, prog, mode, safe, input, s),
        ),
    decreases b,
{
    if b > 0 {
        lemma_steps_add(a, (b - 1) as nat, prog, mode, safe, input, s);
        assert(a + b - 1 == a + (b - 1) as nat);
    }
}

/// A terminal state is a fixed point of the machine.
pub proof fn lemma_terminal_fixed(
    n: nat,
    prog: Seq<char>,
    mode: SyntaxMode,
    safe: bool,
    input: Seq<char>,
    s: EngineState,
)
    requires
        is_terminal(s),
    ensures
        steps(n, prog, mode, safe, input, s) == s,
    decreases n,
{
    if n > 0 {
        lemma_terminal_fixed((n - 1) as nat, prog, mode, safe, input, s);
    }
}

/// Law: execution is deterministic. From one starting state, on one program,
/// mode, policy and input, every step count that reaches a terminal state
/// reaches the same one — in particular the output bytes and the final tape
/// of a completed run are unique.
pub proof fn lemma_run_deterministic(
    n1: nat,
    n2: nat,
    prog: Seq<char>,
    mode: SyntaxMode,
    safe: bool,
    input: Seq<char>,
    s: EngineState,
)
    requires
        is_terminal(steps(n1, prog, mode, safe, input, s)),
        is_terminal(steps(n2, prog, mode, safe, input, s)),
    ensures
        steps(n1, prog, mode, safe, input, s) == steps(n2, prog, mode, safe, input, s),
{
    if n1 <= n2 {
        lemma_steps_add(n1, (n2 - n1) as nat, prog, mode, safe, input, s);
        lemma_terminal_fixed(
            (n2 - n1) as nat,
            prog,
            mode,
            safe,
            input,
            steps(n1, prog, mode, safe, input, s),
        );
    } else {
        lemma_steps_add(n2, (n1 - n2) as nat, prog, mode, safe, input, s);
        lemma_terminal_fixed(
            (n1 - n2) as nat,
            prog,
            mode,
            safe,
            input,
            steps(n2, prog, mode, safe, input, s),
        );
    }
}

/// Runs `program` to completion or to its first fatal error, against the
/// given tape and pointer. Characters of `input` are consumed in order by the
/// input instructions; once they run out, a read fails and is silently
/// ignored. Emitted bytes are appended to `output`. The result is exactly a
/// terminal state of the step machine reached from the initial state.
#[verifier::loop_isolation(false)]
#[verifier::rlimit(100)]
pub fn interpret(
    program: &str,
    ptr: usize,
    arr: Vec<u8>,
    mode: SyntaxMode,
    safe: bool,
    input: &Vec<char>,
    output: &mut Vec<u8>,
) -> (r: Result<(usize, Vec<u8>), ExecutionError>)
    requires
        ptr < 65536,
        arr@.len() == 65536,
    ensures
        ({
            let s0 = init_state(ptr as int, arr@);
            match r {
                Ok((p, a)) => {
                    &&& p < 65536
                    &&& a@.len() == 65536
                    &&& exists|m: nat|
                        {
                            let fin = #[trigger] steps(m, program@, mode, safe, input@, s0);
                            &&& fin.status is Halted
                            &&& p as int == fin.ptr
                            &&& a@ == fin.tape
                            &&& final(output)@ == old(output)@ + fin.out
                        }
                },
                Err(e) => exists|m: nat|
                    {
                        let fin = #[trigger] steps(m, program@, mode, safe, input@, s0);
                        &&& fin.status matches RunStatus::Failed { kind } && error_matches(
                            e,
                            kind,
                            program@,
                        )
                        &&& final(output)@ == old(output)@ + fin.out
                    },
            }
        }),
{
    let ghost s0 = init_state(ptr as int, arr@);
    let ghost base_len = old(output)@.len();
    let prog = collect_chars(program);
    let prog_len = prog.len();
    let mut tape = arr;
    let mut cur: usize = ptr;
    let mut i: usize = 0;
    let mut iters: u32 = 0;
    let mut jumps: u64 = 0;
    let mut inpos: usize = 0;
    let ghost mut n: nat = 0;
    loop
        invariant
            i <= prog_len,
            tape@.len() == 65536,
            cur < 65536,
            iters <= 65536,
            jumps <= JUMP_LIMIT,
            inpos <= input@.len(),
            output@.len() >= base_len,
            output@.take(base_len as int) == old(output)@,
            steps(n, program@, mode, safe, input@, s0) == (EngineState {
                cursor: i as int,
                ptr: cur as int,
                tape: tape@,
                iters: iters as int,
                jumps: jumps as int,
                inpos: inpos as int,
                out: output@.skip(base_len as int),
                status: RunStatus::Running,
            }),
        decreases JUMP_LIMIT - jumps, prog_len - i,
    {
        let ghost pre = steps(n, program@, mode, safe, input@, s0);
        if iters > 65535 {
            let e = ExecutionError::new_iter(65535);
            proof {
                lemma_steps_succ(n, program@, mode, safe, input@, s0);
                n = n + 1;
                assert(steps(n, program@, mode, safe, input@, s0) == fail(
                    pre,
                    FailKind::IterationLimit,
                ));
                assert(output@ =~= output@.take(base_len as int) + output@.skip(base_len as int));
            }
            return Err(e);
        }
        if i >= prog_len {
            proof {
                lemma_steps_succ(n, program@, mode, safe, input@, s0);
                n = n + 1;
                assert(steps(n, program@, mode, safe, input@, s0) =~~= (EngineState {
                    status: RunStatus::Halted,
                    ..pre
                }));
                assert(output@ =~= output@.take(base_len as int) + output@.skip(base_len as int));
            }
            return Ok((cur, tape));
        }
        let c = prog[i];
        match decode(c, mode) {
            Instruction::MoveRight => {
                if cur < 65535 {
                    cur += 1;
                    i += 1;
                } else if safe {
                    let e = ExecutionError::new_overflow(i, "Overflow", "data pointer", program);
                    proof {
                        lemma_steps_succ(n, program@, mode, safe, input@, s0);
                        n = n + 1;
                        assert(steps(n, program@, mode, safe, input@, s0) == fail(
                            pre,
                            FailKind::PointerOverflow { at: i as int },
                        ));
                        assert(output@ =~= output@.take(base_len as int) + output@.skip(
                            base_len as int,
                        ));
                    }
                    return Err(e);
                } else {
                    cur = 0;
                    i += 1;
                }
                proof {
                    lemma_steps_succ(n, program@, mode, safe, input@, s0);
                    n = n + 1;
                    assert(steps(n, program@, mode, safe, input@, s0) =~~= (EngineState {
                        cursor: i as int,
                        ptr: cur as int,
                        tape: tape@,
                        iters: iters as int,
                        jumps: jumps as int,
                        inpos: inpos as int,
                        out: output@.skip(base_len as int),
                        status: RunStatus::Running,
                    }));
                }
            },
            Instruction::MoveLeft => {
                if cur > 0 {
                    cur -= 1;
                    i += 1;
                } else if safe {
                    let e = ExecutionError::new_overflow(i, "Underflow", "data pointer", program);
                    proof {
                        lemma_steps_succ(n, program@, mode, safe, input@, s0);
                        n = n + 1;
                        assert(steps(n, program@, mode, safe, input@, s0) == fail(
                            pre,
                            FailKind::PointerUnderflow { at: i as int },
                        ));
                        assert(output@ =~= output@.take(base_len as int) + output@.skip(
                            base_len as int,
                        ));
                    }
                    return Err(e);
                } else {
                    cur = 65535;
                    i += 1;
                }
                proof {
                    lemma_steps_succ(n, program@, mode, safe, input@, s0);
                    n = n + 1;
                    assert(steps(n, program@, mode, safe, input@, s0) =~~= (EngineState {
                        cursor: i as int,
                        ptr: cur as int,
                        tape: tape@,
                        iters: iters as int,
                        jumps: jumps as int,
                        inpos: inpos as int,
                        out: output@.skip(base_len as int),
                        status: RunStatus::Running,
                    }));
                }
            },
            Instruction::Increment => {
                let v = tape[cur];
                if v < 255 {
                    tape[cur] = v + 1;
                    i += 1;
                } else if safe {
                    let num = usize_to_string(cur);
                    let mut place = String::from_str("array index ");
                    place.append(num.as_str());
                    let e = ExecutionError::new_overflow(i, "Overflow", place.as_str(), program);
                    proof {
                        lemma_steps_succ(n, program@, mode, safe, input@, s0);
                        n = n + 1;
                        assert(steps(n, program@, mode, safe, input@, s0) == fail(
                            pre,
                            FailKind::CellOverflow { at: i as int, cell: cur as int },
                        ));
                        assert(output@ =~= output@.take(base_len as int) + output@.skip(
                            base_len as int,
                        ));
                    }
                    return Err(e);
                } else {
                    tape[cur] = 0;
                    i += 1;
                }
                proof {
                    lemma_steps_succ(n, program@, mode, safe, input@, s0);
                    n = n + 1;
                    assert(steps(n, program@, mode, safe, input@, s0) =~~= (EngineState {
                        cursor: i as int,
                        ptr: cur as int,
                        tape: tape@,
                        iters: iters as int,
                        jumps: jumps as int,
                        inpos: inpos as int,
                        out: output@.skip(base_len as int),
                        status: RunStatus::Running,
                    }));
                }
            },
            Instruction::Decrement => {
                let v = tape[cur];
                if v > 0 {
                    tape[cur] = v - 1;
                    i += 1;
                } else if safe {
                    let num = usize_to_string(cur);
                    let mut place = String::from_str("array index ");
                    place.append(num.as_str());
                    let e = ExecutionError::new_overflow(i, "Underflow", place.as_str(), program);
                    proof {
                        lemma_steps_succ(n, program@, mode, safe, input@, s0);
                        n = n + 1;
                        assert(steps(n, program@, mode, safe, input@, s0) == fail(
                            pre,
                            FailKind::CellUnderflow { at: i as int, cell: cur as int },
                        ));
                        assert(output@ =~= output@.take(base_len as int) + output@.skip(
                            base_len as int,
                        ));
                    }
                    return Err(e);
                } else {
                    tape[cur] = 255;
                    i += 1;
                }
                proof {
                    lemma_steps_succ(n, program@, mode, safe, input@, s0);
                    n = n + 1;
                    assert(steps(n, program@, mode, safe, input@, s0) =~~= (EngineState {
                        cursor: i as int,
                        ptr: cur as int,
                        tape: tape@,
                        iters: iters as int,
                        jumps: jumps as int,
                        inpos: inpos as int,
                        out: output@.skip(base_len as int),
                        status: RunStatus::Running,
                    }));
                }
            },
            Instruction::Output => {
                let v = tape[cur];
                output.push(v);
                i += 1;
                proof {
                    lemma_steps_succ(n, program@, mode, safe, input@, s0);
                    n = n + 1;
                    assert(output@.skip(base_len as int) =~= pre.out + seq![v]);
                    assert(output@.take(base_len as int) =~= old(output)@);
                    assert(steps(n, program@, mode, safe, input@, s0) =~~= (EngineState {
                        cursor: i as int,
                        ptr: cur as int,
                        tape: tape@,
                        iters: iters as int,
                        jumps: jumps as int,
                        inpos: inpos as int,
                        out: output@.skip(base_len as int),
                        status: RunStatus::Running,
                    }));
                }
            },
            Instruction::Input => {
                if inpos < input.len() {
                    let cin = input[inpos];
                    let enc = encode_char(cin);
                    inpos += 1;
                    if safe {
                        let b0 = enc[0];
                        tape[cur] = b0;
                    } else {
                        let ghost tape_pre = tape@;
                        let enc_len = enc.len();
                        let mut j: usize = 0;
                        while j < enc_len && enc[j] != 0
                            invariant
                                j <= enc_len,
                                enc_len == enc@.len(),
                                tape@.len() == 65536,
                                write_spread(tape@, cur as int, enc@, j as int) == write_spread(
                                    tape_pre,
                                    cur as int,
                                    enc@,
                                    0,
                                ),
                            decreases enc_len - j,
                        {
                            let b = enc[j];
                            let idx = (cur + j) % 65536;
                            tape[idx] = b;
                            j += 1;
                        }
                        proof {
                            assert(tape@ == write_spread(tape_pre, cur as int, enc@, 0));
                        }
                    }
                    i += 1;
                } else {
                    i += 1;
                }
                proof {
                    lemma_steps_succ(n, program@, mode, safe, input@, s0);
                    n = n + 1;
                    assert(steps(n, program@, mode, safe, input@, s0) =~~= (EngineState {
                        cursor: i as int,
                        ptr: cur as int,
                        tape: tape@,
                        iters: iters as int,
                        jumps: jumps as int,
                        inpos: inpos as int,
                        out: output@.skip(base_len as int),
                        status: RunStatus::Running,
                    }));
                }
            },
            Instruction::PrintDecimal => {
                let v = tape[cur];
                push_dec_u8(output, v);
                i += 1;
                proof {
                    lemma_steps_succ(n, program@, mode, safe, input@, s0);
                    n = n + 1;
                    assert(output@.skip(base_len as int) =~= pre.out + dec_bytes(v as nat));
                    assert(output@.take(base_len as int) =~= old(output)@);
                    assert(steps(n, program@, mode, safe, input@, s0) =~~= (EngineState {
                        cursor: i as int,
                        ptr: cur as int,
                        tape: tape@,
                        iters: iters as int,
                        jumps: jumps as int,
                        inpos: inpos as int,
                        out: output@.skip(base_len as int),
                        status: RunStatus::Running,
                    }));
                }
            },
            Instruction::AccumulateInput => {
                if inpos < input.len() {
                    let cin = input[inpos];
                    let enc = encode_char(cin);
                    inpos += 1;
                    if safe {
                        let b0 = enc[0];
                        let v = tape[cur];
                        tape[cur] = (((v as u16) + (b0 as u16)) % 256) as u8;
                    } else {
                        let ghost tape_pre = tape@;
                        let enc_len = enc.len();
                        let mut j: usize = 0;
                        while j < enc_len && enc[j] != 0
                            invariant
                                j <= enc_len,
                                enc_len == enc@.len(),
                                tape@.len() == 65536,
                                add_spread(tape@, cur as int, enc@, j as int) == add_spread(
                                    tape_pre,
                                    cur as int,
                                    enc@,
                                    0,
                                ),
                            decreases enc_len - j,
                        {
                            let b = enc[j];
                            let idx = (cur + j) % 65536;
                            let v = tape[idx];
                            tape[idx] = (((v as u16) + (b as u16)) % 256) as u8;
                            j += 1;
                        }
                        proof {
                            assert(tape@ == add_spread(tape_pre, cur as int, enc@, 0));
                        }
                    }
                    i += 1;
                } else {
                    i += 1;
                }
                proof {
                    lemma_steps_succ(n, program@, mode, safe, input@, s0);
                    n = n + 1;
                    assert(steps(n, program@, mode, safe, input@, s0) =~~= (EngineState {
                        cursor: i as int,
                        ptr: cur as int,
                        tape: tape@,
                        iters: iters as int,
                        jumps: jumps as int,
                        inpos: inpos as int,
                        out: output@.skip(base_len as int),
                        status: RunStatus::Running,
                    }));
                }
            },
            Instruction::LoopOpen => {
                let v = tape[cur];
                if v == 0 {
                    if jumps == JUMP_LIMIT {
                        let e = ExecutionError::new_iter(65535);
                        proof {
                            lemma_steps_succ(n, program@, mode, safe, input@, s0);
                            n = n + 1;
                            assert(steps(n, program@, mode, safe, input@, s0) == fail(
                                pre,
                                FailKind::IterationLimit,
                            ));
                            assert(output@ =~= output@.take(base_len as int) + output@.skip(
                                base_len as int,
                            ));
                        }
                        return Err(e);
                    }
                    let t = match_in(&prog, i);
                    i = t + 1;
                    iters = 0;
                    jumps += 1;
                } else {
                    i += 1;
                }
                proof {
                    lemma_steps_succ(n, program@, mode, safe, input@, s0);
                    n = n + 1;
                    assert(steps(n, program@, mode, safe, input@, s0) =~~= (EngineState {
                        cursor: i as int,
                        ptr: cur as int,
                        tape: tape@,
                        iters: iters as int,
                        jumps: jumps as int,
                        inpos: inpos as int,
                        out: output@.skip(base_len as int),
                        status: RunStatus::Running,
                    }));
                }
            },
            Instruction::LoopClose => {
                let v = tape[cur];
                if v != 0 {
                    if jumps == JUMP_LIMIT {
                        let e = ExecutionError::new_iter(65535);
                        proof {
                            lemma_steps_succ(n, program@, mode, safe, input@, s0);
                            n = n + 1;
                            assert(steps(n, program@, mode, safe, input@, s0) == fail(
                                pre,
                                FailKind::IterationLimit,
                            ));
                            assert(output@ =~= output@.take(base_len as int) + output@.skip(
                                base_len as int,
                            ));
                        }
                        return Err(e);
                    }
                    let t = match_in(&prog, i);
                    i = t + 1;
                    iters += 1;
                    jumps += 1;
                } else {
                    i += 1;
                }
                proof {
                    lemma_steps_succ(n, program@, mode, safe, input@, s0);
                    n = n + 1;
                    assert(steps(n, program@, mode, safe, input@, s0) =~~= (EngineState {
                        cursor: i as int,
                        ptr: cur as int,
                        tape: tape@,
                        iters: iters as int,
                        jumps: jumps as int,
                        inpos: inpos as int,
                        out: output@.skip(base_len as int),
                        status: RunStatus::Running,
                    }));
                }
            },
            Instruction::Inert => {
                i += 1;
                proof {
                    lemma_steps_succ(n, program@, mode, safe, input@, s0);
                    n = n + 1;
                    assert(steps(n, program@, mode, safe, input@, s0) =~~= (EngineState {
                        cursor: i as int,
                        ptr: cur as int,
                        tape: tape@,
                        iters: iters as int,
                        jumps: jumps as int,
                        inpos: inpos as int,
                        out: output@.skip(base_len as int),
                        status: RunStatus::Running,
                    }));
                }
            },
        }
    }
}

/// A fresh all-zero tape.
pub fn zero_tape() -> (v: Vec<u8>)
    ensures
        v@ == Seq::new(65536, |k: int| 0u8),
{
    let mut v: Vec<u8> = Vec::new();
    let mut i: usize = 0;
    while i < 65536
        invariant
            i <= 65536,
            v@.len() == i,
            forall|k: int| 0 <= k < i ==> v@[k] == 0u8,
        decreases 65536 - i,
    {
        v.push(0);
        i += 1;
    }
    proof {
        assert(v@ =~= Seq::new(65536, |k: int| 0u8));
    }
    v
}

/// Validates the program's brackets, then runs it from a fresh state: pointer
/// 0 and an all-zero tape. On unbalanced brackets the syntax error is
/// returned and nothing is executed.
pub fn execute_file(
    program: &str,
    safe: bool,
    mode: SyntaxMode,
    input: &Vec<char>,
    output: &mut Vec<u8>,
) -> (r: Result<(), ExecutionError>)
    ensures
        ({
            let s = program@;
            let len = s.len() as int;
            let s0 = init_state(0, Seq::new(65536, |k: int| 0u8));
            if open_count(s, len) != close_count(s, len) {
                &&& r matches Err(e) && {
                    &&& e.code == 1
                    &&& ({
                        let c = if open_count(s, len) > close_count(s, len) {
                            '['
                        } else {
                            ']'
                        };
                        let off = last_occurrence(s, c, len);
                        &&& e.kind matches ErrorKind::Syntax { line, column, problem } && {
                            &&& line == line_of(s, off)
                            &&& column == column_of(s, off)
                            &&& (open_count(s, len) > close_count(s, len) ==> problem@
                                == "Unmatched bracket '['"@)
                            &&& (open_count(s, len) < close_count(s, len) ==> problem@
                                == "Unmatched bracket ']'"@)
                        }
                    })
                }
                &&& final(output)@ == old(output)@
            } else {
                match r {
                    Ok(()) => exists|m: nat|
                        {
                            let fin = #[trigger] steps(m, s, mode, safe, input@, s0);
                            &&& fin.status is Halted
                            &&& final(output)@ == old(output)@ + fin.out
                        },
                    Err(e) => exists|m: nat|
                        {
                            let fin = #[trigger] steps(m, s, mode, safe, input@, s0);
                            &&& fin.status matches RunStatus::Failed { kind } && error_matches(
                                e,
                                kind,
                                s,
                            )
                            &&& final(output)@ == old(output)@ + fin.out
                        },
                }
            }
        }),
{
    if let Err(err) = check_brackets_match(program) {
        return Err(err);
    }
    let arr = zero_tape();
    match interpret(program, 0, arr, mode, safe, input, output) {
        Ok(_) => Ok(()),
        Err(err) => Err(err),
    }
}

/// True when no character of `prog` is an input instruction under `mode`.
pub open spec fn has_no_input_instructions(prog: Seq<char>, mode: SyntaxMode) -> bool {
    forall|k: int|
        0 <= k < prog.len() ==> {
            &&& !((#[trigger] spec_decode(prog[k], mode)) is Input)
            &&& !(spec_decode(prog[k], mode) is AccumulateInput)
        }
}

/// The cursor never goes negative: it only advances or jumps to one past a
/// bracket partner, which lies within the program.
pub proof fn lemma_steps_cursor_nonneg(
    n: nat,
    prog: Seq<char>,
    mode: SyntaxMode,
    safe: bool,
    input: Seq<char>,
    s: EngineState,
)
    requires
        s.cursor >= 0,
    ensures
        steps(n, prog, mode, safe, input, s).cursor >= 0,
    decreases n,
{
    if n > 0 {
        lemma_steps_cursor_nonneg((n - 1) as nat, prog, mode, safe, input, s);
        let t = steps((n - 1) as nat, prog, mode, safe, input, s);
        if t.status is Running && t.iters <= MAX_ITERS as int && 0 <= t.cursor < prog.len() {
            crate::brackets::lemma_match_target_range(prog, t.cursor);
        }
    }
}

/// Law: a program without input instructions is insensitive to the input
/// supplied — after any number of steps the machine states coincide, so in
/// particular the output bytes and the final tape of its runs do.
pub proof fn lemma_input_independent(
    n: nat,
    prog: Seq<char>,
    mode: SyntaxMode,
    safe: bool,
    in1: Seq<char>,
    in2: Seq<char>,
    s: EngineState,
)
    requires
        has_no_input_instructions(prog, mode),
        s.cursor >= 0,
    ensures
        steps(n, prog, mode, safe, in1, s) == steps(n, prog, mode, safe, in2, s),
    decreases n,
{
    if n > 0 {
        lemma_input_independent((n - 1) as nat, prog, mode, safe, in1, in2, s);
        lemma_steps_cursor_nonneg((n - 1) as nat, prog, mode, safe, in1, s);
        let t = steps((n - 1) as nat, prog, mode, safe, in1, s);
        if t.status is Running && t.iters <= MAX_ITERS as int && 0 <= t.cursor < prog.len() {
            assert(!(spec_decode(prog[t.cursor], mode) is Input));
            assert(!(spec_decode(prog[t.cursor], mode) is AccumulateInput));
        }
        assert(step(prog, mode, safe, in1, t) == step(prog, mode, safe, in2, t));
    }
}

/// How a returned error corresponds to the machine's fatal condition.
pub open spec fn error_matches(e: ExecutionError, k: FailKind, prog: Seq<char>) -> bool {
    match k {
        FailKind::PointerOverflow { at } => {
            &&& e.code == 75
            &&& e.kind matches ErrorKind::Overflow { line, column, problem, place } && {
                &&& line == line_of(prog, at)
                &&& column == column_of(prog, at)
                &&& problem@ == "Overflow"@
                &&& place@ == "data pointer"@
            }
        },
        FailKind::PointerUnderflow { at } => {
            &&& e.code == 75
            &&& e.kind matches ErrorKind::Overflow { line, column, problem, place } && {
                &&& line == line_of(prog, at)
                &&& column == column_of(prog, at)
                &&& problem@ == "Underflow"@
                &&& place@ == "data pointer"@
            }
        },
        FailKind::CellOverflow { at, cell } => {
            &&& e.code == 75
            &&& e.kind matches ErrorKind::Overflow { line, column, problem, place } && {
                &&& line == line_of(prog, at)
                &&& column == column_of(prog, at)
                &&& problem@ == "Overflow"@
                &&& place@ == "array index "@ + dec_chars(cell as nat)
            }
        },
        FailKind::CellUnderflow { at, cell } => {
            &&& e.code == 75
            &&& e.kind matches ErrorKind::Overflow { line, column, problem, place } && {
                &&& line == line_of(prog, at)
                &&& column == column_of(prog, at)
                &&& problem@ == "Underflow"@
                &&& place@ == "array index "@ + dec_chars(cell as nat)
            }
        },
        FailKind::IterationLimit => {
            &&& e.code == 1
            &&& e.kind matches ErrorKind::Iteration { max_iters } && max_iters == MAX_ITERS
        },
    }
}

} // verus!
