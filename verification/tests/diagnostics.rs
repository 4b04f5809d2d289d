use urcljit::diagnostics::render_diagnostic;
use urcljit::parser::parse;

fn render(src: &str, name: &str) -> String {
    let failure = parse(src).expect_err("source should be rejected");
    assert!(failure.start <= failure.end && failure.end <= src.len());
    render_diagnostic(src, name, &failure).iter().collect()
}

#[test]
fn diagnostic_underlines_the_offending_span() {
    let out = render("8 4 8 8\nFOO R1 R2 R3\nHLT\n", "demo.urcl");
    assert_eq!(
        out,
        "error: unrecognized token, expected: label mnemonic newline\n \
         --> demo.urcl:2:1\nFOO R1 R2 R3\n^^^\n"
    );
}

#[test]
fn diagnostic_points_into_the_middle_of_a_line() {
    let out = render("8 4 8 8\nADD R1 @ 3\n", "demo.urcl");
    assert_eq!(
        out,
        "error: invalid token\n --> demo.urcl:2:8\nADD R1 @ 3\n       ^\n"
    );
}

#[test]
fn diagnostic_at_end_of_input_points_past_the_last_line() {
    let out = render("8 4 8 8\nADD R1 1", "demo.urcl");
    assert_eq!(
        out,
        "error: unexpected end of input, expected: integer minus register stack-pointer \
         identifier\n --> demo.urcl:2:9\nADD R1 1\n        ^\n"
    );
}

#[test]
fn diagnostic_names_the_expected_kinds_for_a_wrong_token() {
    let out = render("8 -4 8 8\nHLT\n", "demo.urcl");
    assert_eq!(
        out,
        "error: unrecognized token, expected: integer\n --> demo.urcl:1:3\n8 -4 8 8\n  ^\n"
    );
}
