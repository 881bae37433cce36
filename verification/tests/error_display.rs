use hack_assembler::error::AsmError;

#[test]
fn test_asm_error_display() {
    let error = AsmError::InvalidInstruction {
        line: 1,
        instruction: "MOV A, B".to_string(),
    };
    assert_eq!(error.message(), "Invalid instruction on line 1: MOV A, B");

    let error = AsmError::SyntaxError {
        line: 2,
        message: "Expected a comma".to_string(),
    };
    assert_eq!(error.message(), "Syntax error on line 2: Expected a comma");
}

#[test]
fn multi_digit_line_numbers_render_in_decimal() {
    let error = AsmError::InvalidInstruction {
        line: 120,
        instruction: "D=W".to_string(),
    };
    assert_eq!(error.message(), "Invalid instruction on line 120: D=W");

    let error = AsmError::SyntaxError {
        line: 305,
        message: "bad".to_string(),
    };
    assert_eq!(error.message(), "Syntax error on line 305: bad");
}

#[test]
fn aggregate_error_lists_each_diagnostic() {
    let errors = vec![
        AsmError::InvalidInstruction {
            line: 1,
            instruction: "MOV A, B".to_string(),
        },
        AsmError::SyntaxError {
            line: 2,
            message: "Expected a comma".to_string(),
        },
    ];
    let aggregate = hack_assembler::error::AssemblyError::AsmErrors(errors);
    assert_eq!(
        aggregate.message(),
        "Assembly encountered the following errors:\n  - Invalid instruction on line 1: MOV A, B\n  - Syntax error on line 2: Expected a comma\n"
    );
}
