use hack_assembler::assembler::Assembler;
use hack_assembler::error::{AsmError, AssemblyError};
use hack_assembler::symbol_table::SymbolTable;

fn assemble(source: &[&str]) -> Result<Vec<String>, AssemblyError> {
    let lines: Vec<String> = source.iter().map(|s| s.to_string()).collect();
    let mut assembler = Assembler::new(SymbolTable::new());
    assembler.assemble(&lines)
}

#[test]
fn a_instruction_five() {
    let out = assemble(&["@5"]).unwrap();
    assert_eq!(out, vec!["0000000000000101".to_string()]);
}

#[test]
fn a_instruction_boundaries() {
    let out = assemble(&["@0", "@32767"]).unwrap();
    assert_eq!(out[0], "0000000000000000");
    assert_eq!(out[1], "0111111111111111");
}

#[test]
fn fresh_variable_allocates_sixteen_and_reuses_it() {
    let out = assemble(&["@sum", "D=A", "@sum"]).unwrap();
    assert_eq!(out[0], "0000000000010000");
    assert_eq!(out[2], "0000000000010000");
}

#[test]
fn distinct_variables_take_consecutive_addresses() {
    let out = assemble(&["@first", "@second", "@first"]).unwrap();
    assert_eq!(out[0], "0000000000010000");
    assert_eq!(out[1], "0000000000010001");
    assert_eq!(out[2], "0000000000010000");
}

#[test]
fn label_resolves_to_index_of_following_instruction() {
    let out = assemble(&[
        "@0", "@1", "@2", "@3", "@4", "@5", "@6", "(LOOP)", "@LOOP",
    ])
    .unwrap();
    assert_eq!(out.len(), 8);
    assert_eq!(out[7], "0000000000000111");
}

#[test]
fn forward_label_reference_resolves() {
    let out = assemble(&["@END", "0;JMP", "(END)", "@END"]).unwrap();
    assert_eq!(out[0], "0000000000000010");
    assert_eq!(out[2], "0000000000000010");
}

#[test]
fn c_instruction_dest_and_comp() {
    let out = assemble(&["D=D+A"]).unwrap();
    assert_eq!(out, vec!["1110000010010000".to_string()]);
}

#[test]
fn c_instruction_comp_and_jump() {
    let out = assemble(&["D;JGT"]).unwrap();
    assert_eq!(out, vec!["1110001100000001".to_string()]);
}

#[test]
fn memory_comp_sets_a_bit() {
    let out = assemble(&["D=D+M;JGT"]).unwrap();
    assert_eq!(out, vec!["1111000010010001".to_string()]);
    assert_eq!(&out[0][3..4], "1");
}

#[test]
fn labels_only_produces_empty_output() {
    let out = assemble(&["(ONE)", "(TWO)", "(THREE)"]).unwrap();
    assert!(out.is_empty());
}

#[test]
fn blank_and_comment_lines_advance_no_address() {
    // the label still binds to 0, and the first variable still gets 16
    let out = assemble(&["// header", "", "(START)", "   ", "@START", "@var"]).unwrap();
    assert_eq!(out, vec!["0000000000000000".to_string(), "0000000000010000".to_string()]);
}

#[test]
fn trailing_comment_is_stripped() {
    let out = assemble(&["@5 // load five", "  D=A  // copy"]).unwrap();
    assert_eq!(out[0], "0000000000000101");
    assert_eq!(out[1], "1110110000010000");
}

#[test]
fn output_lines_are_sixteen_binary_digits() {
    let out = assemble(&["@12345", "D=M", "(HERE)", "@HERE", "0;JMP"]).unwrap();
    assert_eq!(out.len(), 4);
    for line in &out {
        assert_eq!(line.len(), 16);
        assert!(line.chars().all(|c| c == '0' || c == '1'));
    }
}

#[test]
fn assembling_twice_is_byte_identical() {
    let source = ["@x", "D=A", "(L)", "@L", "D;JNE", "@y", "M=D"];
    let first = assemble(&source).unwrap();
    let second = assemble(&source).unwrap();
    assert_eq!(first, second);
}

#[test]
fn predefined_symbols_resolve() {
    let out = assemble(&["@SP", "@LCL", "@ARG", "@THIS", "@THAT", "@R15", "@SCREEN", "@KBD"])
        .unwrap();
    assert_eq!(out[0], "0000000000000000");
    assert_eq!(out[1], "0000000000000001");
    assert_eq!(out[2], "0000000000000010");
    assert_eq!(out[3], "0000000000000011");
    assert_eq!(out[4], "0000000000000100");
    assert_eq!(out[5], "0000000000001111");
    assert_eq!(out[6], "0100000000000000");
    assert_eq!(out[7], "0110000000000000");
}

#[test]
fn non_ascii_line_fails_with_its_line_number() {
    let result = assemble(&["@1", "@2", "@caf\u{e9}"]);
    let AssemblyError::AsmErrors(errors) = result.unwrap_err();
    assert_eq!(errors.len(), 1);
    assert!(matches!(
        &errors[0],
        AsmError::SyntaxError { line: 3, .. }
    ));
    assert_eq!(
        errors[0].message(),
        "Syntax error on line 3: Non-ASCII characters are not allowed"
    );
}

#[test]
fn unknown_computation_is_fatal() {
    let result = assemble(&["D=W"]);
    let AssemblyError::AsmErrors(errors) = result.unwrap_err();
    assert_eq!(errors.len(), 1);
    match &errors[0] {
        AsmError::InvalidInstruction { line, instruction } => {
            assert_eq!(*line, 1);
            assert_eq!(instruction, "W");
        }
        other => panic!("unexpected diagnostic: {:?}", other),
    }
}

#[test]
fn empty_a_symbol_is_invalid() {
    let result = assemble(&["@"]);
    let AssemblyError::AsmErrors(errors) = result.unwrap_err();
    assert!(matches!(
        &errors[0],
        AsmError::InvalidInstruction { line: 1, .. }
    ));
}

#[test]
fn double_equals_is_invalid() {
    let result = assemble(&["A=D=1"]);
    let AssemblyError::AsmErrors(errors) = result.unwrap_err();
    match &errors[0] {
        AsmError::InvalidInstruction { line, instruction } => {
            assert_eq!(*line, 1);
            assert_eq!(instruction, "A=D=1");
        }
        other => panic!("unexpected diagnostic: {:?}", other),
    }
}

#[test]
fn every_diagnostic_is_reported() {
    let result = assemble(&["D=W", "@5", "M=Q"]);
    let AssemblyError::AsmErrors(errors) = result.unwrap_err();
    assert_eq!(errors.len(), 2);
    assert!(matches!(&errors[0], AsmError::InvalidInstruction { line: 1, .. }));
    assert!(matches!(&errors[1], AsmError::InvalidInstruction { line: 3, .. }));
}

#[test]
fn unknown_dest_falls_back_to_null() {
    let out = assemble(&["X=D+1"]).unwrap();
    assert_eq!(out, vec!["1110011111000000".to_string()]);
}

#[test]
fn unknown_jump_falls_back_to_null() {
    let out = assemble(&["D;XYZ"]).unwrap();
    assert_eq!(out, vec!["1110001100000000".to_string()]);
}

#[test]
fn numeric_overflowing_symbol_is_a_variable() {
    // 70000 does not fit in 16 bits, so it is treated as a name
    let out = assemble(&["@70000"]).unwrap();
    assert_eq!(out, vec!["0000000000010000".to_string()]);
}

#[test]
fn whole_program_matches_expected_words() {
    // computes RAM[2] = max(RAM[0], RAM[1])
    let source = [
        "// max of two numbers",
        "@R0",
        "D=M",
        "@R1",
        "D=D-M",
        "@FIRST",
        "D;JGT",
        "@R1",
        "D=M",
        "@OUT",
        "0;JMP",
        "(FIRST)",
        "@R0",
        "D=M",
        "(OUT)",
        "@R2",
        "M=D",
        "(END)",
        "@END",
        "0;JMP",
    ];
    let expected = [
        "0000000000000000",
        "1111110000010000",
        "0000000000000001",
        "1111010011010000",
        "0000000000001010",
        "1110001100000001",
        "0000000000000001",
        "1111110000010000",
        "0000000000001100",
        "1110101010000111",
        "0000000000000000",
        "1111110000010000",
        "0000000000000010",
        "1110001100001000",
        "0000000000001110",
        "1110101010000111",
    ];
    let out = assemble(&source).unwrap();
    assert_eq!(out.len(), expected.len());
    for (line, want) in out.iter().zip(expected.iter()) {
        assert_eq!(line, want);
    }
}
