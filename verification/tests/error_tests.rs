use brainfuck::errors::ExecutionError;
use brainfuck::errors::ErrorKind;
use brainfuck::decimal::usize_to_string;
use brainfuck::encoding::encode_char;
use brainfuck::chars::collect_chars;

#[test]
fn overflow_error_renders_location_and_place() {
    let e = ExecutionError::new_overflow(6, "Overflow", "array index 3", "++++\n+++++");
    assert_eq!(e.code, 75);
    assert_eq!(e.details(), "2:2 - Overflow Error - Overflow at array index 3");
}

#[test]
fn syntax_error_renders_problem() {
    let e = ExecutionError::new_syntax(0, "Unmatched bracket ']'", "]");
    assert_eq!(e.code, 1);
    assert_eq!(e.details(), "1:1 - Syntax Error - Unmatched bracket ']'");
}

#[test]
fn parsing_error_renders_location() {
    let e = ExecutionError::new_parsing(2, "+++");
    assert_eq!(e.code, 1);
    assert_eq!(e.details(), "1:3 - Parsing Error");
}

#[test]
fn file_error_renders_message() {
    let e = ExecutionError::new_file("The specified file was not found");
    assert_eq!(e.code, 2);
    assert_eq!(
        e.details(),
        "File Handling Error - The specified file was not found"
    );
}

#[test]
fn iteration_error_renders_maximum() {
    let e = ExecutionError::new_iter(65535);
    assert_eq!(e.code, 1);
    assert_eq!(
        e.details(),
        "Iteration Error - Exceeded max number of iterations (65535)"
    );
    assert!(matches!(e.kind, ErrorKind::Iteration { max_iters: 65535 }));
}

#[test]
fn decimal_rendering() {
    assert_eq!(usize_to_string(0), "0");
    assert_eq!(usize_to_string(7), "7");
    assert_eq!(usize_to_string(65535), "65535");
    assert_eq!(usize_to_string(1203040), "1203040");
}

#[test]
fn utf8_encoding_widths() {
    assert_eq!(encode_char('A'), vec![0x41]);
    assert_eq!(encode_char('\u{0}'), vec![0]);
    assert_eq!(encode_char('\u{e9}'), vec![0xC3, 0xA9]);
    assert_eq!(encode_char('\u{20ac}'), vec![0xE2, 0x82, 0xAC]);
    assert_eq!(encode_char('\u{1f600}'), vec![0xF0, 0x9F, 0x98, 0x80]);
}

#[test]
fn collect_chars_yields_characters_in_order() {
    assert_eq!(collect_chars("+-\u{e9}"), vec!['+', '-', '\u{e9}']);
    assert_eq!(collect_chars(""), Vec::<char>::new());
}
