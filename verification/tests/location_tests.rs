use brainfuck::location::find_location;

#[test]
fn second_line_first_column() {
    // The second line starts at offset 5.
    let program = "++++\n-----";
    assert_eq!(find_location(5, program), (2, 1));
}

#[test]
fn first_offset_is_line_one_column_one() {
    assert_eq!(find_location(0, "+++"), (1, 1));
}

#[test]
fn column_counts_within_line() {
    assert_eq!(find_location(3, "++++"), (1, 4));
}

#[test]
fn later_lines_and_columns() {
    let program = "+\n++\n+++";
    assert_eq!(find_location(6, program), (3, 2));
}
