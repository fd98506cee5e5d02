use brainfuck::engine::interpret;
use brainfuck::engine::execute_file;
use brainfuck::engine::zero_tape;
use brainfuck::engine::SyntaxMode;
use brainfuck::errors::ErrorKind;

fn run(
    program: &str,
    mode: SyntaxMode,
    safe: bool,
    input: &[char],
) -> (Result<(usize, Vec<u8>), brainfuck::errors::ExecutionError>, Vec<u8>) {
    let input: Vec<char> = input.to_vec();
    let mut output: Vec<u8> = Vec::new();
    let r = interpret(program, 0, zero_tape(), mode, safe, &input, &mut output);
    (r, output)
}

#[test]
fn empty_program_halts_immediately() {
    let (r, output) = run("", SyntaxMode::Base, true, &[]);
    let (ptr, tape) = r.unwrap();
    assert_eq!(ptr, 0);
    assert_eq!(tape.len(), 65536);
    assert!(tape.iter().all(|&b| b == 0));
    assert!(output.is_empty());
}

#[test]
fn plus_counts_up_and_prints() {
    // 255 increments then one output give the byte value 255 in safe mode.
    let mut program = "+".repeat(255);
    program.push('.');
    let (r, output) = run(&program, SyntaxMode::Base, true, &[]);
    assert!(r.is_ok());
    assert_eq!(output, vec![255]);
}

#[test]
fn cell_overflow_fails_in_safe_mode() {
    let program = "+".repeat(256);
    let (r, output) = run(&program, SyntaxMode::Base, true, &[]);
    let err = r.unwrap_err();
    assert_eq!(err.code, 75);
    assert_eq!(
        err.details(),
        "1:256 - Overflow Error - Overflow at array index 0"
    );
    assert!(output.is_empty());
}

#[test]
fn cell_overflow_wraps_in_unsafe_mode() {
    let mut program = "+".repeat(256);
    program.push('.');
    let (r, output) = run(&program, SyntaxMode::Base, false, &[]);
    assert!(r.is_ok());
    assert_eq!(output, vec![0]);
}

#[test]
fn cell_underflow_fails_in_safe_mode() {
    let (r, _) = run("-", SyntaxMode::Base, true, &[]);
    let err = r.unwrap_err();
    assert_eq!(err.code, 75);
    assert_eq!(
        err.details(),
        "1:1 - Overflow Error - Underflow at array index 0"
    );
}

#[test]
fn cell_underflow_wraps_in_unsafe_mode() {
    let (r, output) = run("-.", SyntaxMode::Base, false, &[]);
    assert!(r.is_ok());
    assert_eq!(output, vec![255]);
}

#[test]
fn pointer_underflow_fails_in_safe_mode() {
    let (r, _) = run("<", SyntaxMode::Base, true, &[]);
    let err = r.unwrap_err();
    assert_eq!(err.code, 75);
    assert_eq!(err.details(), "1:1 - Overflow Error - Underflow at data pointer");
}

#[test]
fn pointer_underflow_wraps_in_unsafe_mode() {
    let (r, _) = run("<", SyntaxMode::Base, false, &[]);
    let (ptr, _) = r.unwrap();
    assert_eq!(ptr, 65535);
}

#[test]
fn pointer_overflow_wraps_in_unsafe_mode() {
    let mut tape = zero_tape();
    tape[65535] = 7;
    let input: Vec<char> = Vec::new();
    let mut output: Vec<u8> = Vec::new();
    let r = interpret(">", 65535, tape, SyntaxMode::Base, false, &input, &mut output);
    let (ptr, _) = r.unwrap();
    assert_eq!(ptr, 0);
}

#[test]
fn pointer_overflow_fails_in_safe_mode() {
    let tape = zero_tape();
    let input: Vec<char> = Vec::new();
    let mut output: Vec<u8> = Vec::new();
    let r = interpret(">", 65535, tape, SyntaxMode::Base, true, &input, &mut output);
    let err = r.unwrap_err();
    assert_eq!(err.details(), "1:1 - Overflow Error - Overflow at data pointer");
}

#[test]
fn cell_echo() {
    // Program ",." given input character A outputs A.
    let (r, output) = run(",.", SyntaxMode::Base, true, &['A']);
    assert!(r.is_ok());
    assert_eq!(output, b"A".to_vec());
}

#[test]
fn input_exhausted_is_ignored() {
    let (r, output) = run(",.", SyntaxMode::Base, true, &[]);
    assert!(r.is_ok());
    assert_eq!(output, vec![0]);
}

#[test]
fn input_safe_mode_stores_first_byte_only() {
    let (r, output) = run(",.>.", SyntaxMode::Base, true, &['\u{e9}']);
    assert!(r.is_ok());
    assert_eq!(output, vec![0xC3, 0]);
}

#[test]
fn input_unsafe_mode_spreads_encoded_bytes() {
    let (r, output) = run(",.>.", SyntaxMode::Base, false, &['\u{e9}']);
    assert!(r.is_ok());
    assert_eq!(output, vec![0xC3, 0xA9]);
}

#[test]
fn loop_skipped_when_cell_is_zero() {
    let (r, output) = run("[.]", SyntaxMode::Base, true, &[]);
    assert!(r.is_ok());
    assert!(output.is_empty());
}

#[test]
fn loop_counts_down() {
    // Set cell 0 to 3, then move it to cell 1 and print it.
    let (r, output) = run("+++[->+<]>.", SyntaxMode::Base, true, &[]);
    assert!(r.is_ok());
    assert_eq!(output, vec![3]);
}

#[test]
fn iteration_guard_stops_runaway_loop() {
    // A loop whose cell never reaches zero ends with an iteration error.
    let (r, _) = run("+[+-]", SyntaxMode::Base, true, &[]);
    let err = r.unwrap_err();
    assert_eq!(err.code, 1);
    assert_eq!(
        err.details(),
        "Iteration Error - Exceeded max number of iterations (65535)"
    );
    assert!(matches!(err.kind, ErrorKind::Iteration { max_iters: 65535 }));
}

#[test]
fn deterministic_runs() {
    let program = "++[->+++<]>.";
    let a = run(program, SyntaxMode::Base, true, &[]);
    let b = run(program, SyntaxMode::Base, true, &[]);
    let (ra, out_a) = a;
    let (rb, out_b) = b;
    assert_eq!(out_a, out_b);
    assert_eq!(ra.unwrap(), rb.unwrap());
}

#[test]
fn extended_decimal_print() {
    let (r, output) = run("+++:", SyntaxMode::Extended, true, &[]);
    assert!(r.is_ok());
    assert_eq!(output, b"3".to_vec());
}

#[test]
fn extended_decimal_print_multi_digit() {
    let mut program = "+".repeat(200);
    program.push(':');
    let (r, output) = run(&program, SyntaxMode::Extended, true, &[]);
    assert!(r.is_ok());
    assert_eq!(output, b"200".to_vec());
}

#[test]
fn extended_accumulating_input() {
    // ',' stores 'A' (65), then ';' adds 'A' again: 130.
    let (r, output) = run(",;.", SyntaxMode::Extended, true, &['A', 'A']);
    assert!(r.is_ok());
    assert_eq!(output, vec![130]);
}

#[test]
fn extension_characters_are_inert_in_base_mode() {
    let (r, output) = run("+++:;", SyntaxMode::Base, true, &[]);
    assert!(r.is_ok());
    assert!(output.is_empty());
}

#[test]
fn other_characters_are_ignored() {
    let (r, output) = run("+ hello + world +.", SyntaxMode::Base, true, &[]);
    assert!(r.is_ok());
    assert_eq!(output, vec![3]);
}

#[test]
fn state_threads_between_runs() {
    // As in a shell session: the tape and pointer of one run seed the next.
    let input: Vec<char> = Vec::new();
    let mut output: Vec<u8> = Vec::new();
    let (ptr, tape) = interpret(
        "+>++",
        0,
        zero_tape(),
        SyntaxMode::Base,
        true,
        &input,
        &mut output,
    )
    .unwrap();
    assert_eq!(ptr, 1);
    let (ptr2, tape2) = interpret(".", ptr, tape, SyntaxMode::Base, true, &input, &mut output)
        .unwrap();
    assert_eq!(ptr2, 1);
    assert_eq!(output, vec![2]);
    assert_eq!(tape2[0], 1);
    assert_eq!(tape2[1], 2);
}

#[test]
fn execute_file_rejects_unbalanced_program() {
    let input: Vec<char> = Vec::new();
    let mut output: Vec<u8> = Vec::new();
    let err = execute_file("[[]", true, SyntaxMode::Base, &input, &mut output).unwrap_err();
    assert_eq!(err.details(), "1:2 - Syntax Error - Unmatched bracket '['");
    assert!(output.is_empty());
}

#[test]
fn execute_file_runs_fresh_program() {
    let input: Vec<char> = Vec::new();
    let mut output: Vec<u8> = Vec::new();
    let r = execute_file("++++++[->++++++++<]>.", true, SyntaxMode::Base, &input, &mut output);
    assert!(r.is_ok());
    assert_eq!(output, vec![48]);
}

#[test]
fn output_appends_to_existing_bytes() {
    let input: Vec<char> = Vec::new();
    let mut output: Vec<u8> = vec![9];
    let r = interpret("+.", 0, zero_tape(), SyntaxMode::Base, true, &input, &mut output);
    assert!(r.is_ok());
    assert_eq!(output, vec![9, 1]);
}
