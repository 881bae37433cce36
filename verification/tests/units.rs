use hack_assembler::assembler::sanitize_line;
use hack_assembler::instruction::{
    AInstruction, CInstruction, Comp, Dest, Instruction, Jump,
};
use hack_assembler::symbol_table::SymbolTable;
use hack_assembler::Config;

#[test]
fn dest_tokens_resolve() {
    assert_eq!(Dest::parse_token("null"), Some(Dest::Null));
    assert_eq!(Dest::parse_token("M"), Some(Dest::M));
    assert_eq!(Dest::parse_token("AMD"), Some(Dest::AMD));
    assert_eq!(Dest::parse_token("Q"), None);
}

#[test]
fn jump_tokens_resolve() {
    assert_eq!(Jump::parse_token("null"), Some(Jump::Null));
    assert_eq!(Jump::parse_token("JGT"), Some(Jump::JGT));
    assert_eq!(Jump::parse_token("JMP"), Some(Jump::JMP));
    assert_eq!(Jump::parse_token("JXX"), None);
}

#[test]
fn comp_tokens_resolve() {
    assert_eq!(Comp::parse_token("0"), Some(Comp::Zero));
    assert_eq!(Comp::parse_token("D|M"), Some(Comp::DOrM));
    assert_eq!(Comp::parse_token("A-D"), Some(Comp::AMinusD));
    assert_eq!(Comp::parse_token("W"), None);
}

#[test]
fn comp_codes_split_into_a_bit_and_six_bits() {
    assert_eq!(Comp::DPlusA.to_binary(), 0b000010);
    assert!(!Comp::DPlusA.uses_m());
    assert_eq!(Comp::DPlusM.to_binary(), 0b000010);
    assert!(Comp::DPlusM.uses_m());
    assert_eq!(Comp::Zero.to_binary(), 0b101010);
    assert!(!Comp::Zero.uses_m());
    assert_eq!(Comp::M.to_binary(), 0b110000);
    assert!(Comp::M.uses_m());
}

#[test]
fn c_instruction_encodes_all_fields() {
    let c = CInstruction::new(Dest::MD, Comp::MPlusOne, Jump::JLE);
    assert_eq!(c.to_binary(), "1111110111011110");
}

#[test]
fn a_instruction_keeps_its_value() {
    let a = AInstruction::new(5);
    assert_eq!(a.value(), 5);
}

#[test]
fn parse_dispatches_on_first_character() {
    assert!(matches!(
        Instruction::parse("@5", 1),
        Ok(Instruction::A(_))
    ));
    assert!(matches!(
        Instruction::parse("@loop", 1),
        Ok(Instruction::Variable(name)) if name == "loop"
    ));
    assert!(matches!(
        Instruction::parse("(loop)", 1),
        Ok(Instruction::L(name)) if name == "loop"
    ));
    assert!(matches!(
        Instruction::parse("D=A", 1),
        Ok(Instruction::C(_))
    ));
    assert!(Instruction::parse("@", 1).is_err());
}

#[test]
fn sanitize_skips_and_trims() {
    assert_eq!(sanitize_line("", 1).unwrap(), None);
    assert_eq!(sanitize_line("   ", 1).unwrap(), None);
    assert_eq!(sanitize_line("// only a comment", 1).unwrap(), None);
    assert_eq!(
        sanitize_line("  D=A  // set D", 1).unwrap(),
        Some("D=A".to_string())
    );
    assert_eq!(sanitize_line(" @5 ", 1).unwrap(), Some("@5".to_string()));
    assert!(sanitize_line("caf\u{e9}", 4).is_err());
    // Unicode whitespace trims away like ASCII whitespace
    assert_eq!(
        sanitize_line("\u{a0}@5\u{a0}", 1).unwrap(),
        Some("@5".to_string())
    );
    assert_eq!(sanitize_line("\u{2003}\u{a0}", 1).unwrap(), None);
}

#[test]
fn symbol_table_first_binding_wins() {
    let mut table = SymbolTable::new();
    assert!(table.contains("SP"));
    assert_eq!(table.get_address("SCREEN"), Some(16384));
    assert_eq!(table.get_address("missing"), None);

    table.add_label("LOOP".to_string(), 7);
    table.add_label("LOOP".to_string(), 99);
    assert_eq!(table.get_address("LOOP"), Some(7));

    assert_eq!(table.add_variable("x".to_string()), 16);
    assert_eq!(table.add_variable("y".to_string()), 17);
    assert_eq!(table.add_variable("x".to_string()), 16);
}

#[test]
fn config_accepts_only_asm_extension() {
    let config = Config::from_input_path("program.asm".to_string()).unwrap();
    assert_eq!(config.input_file, "program.asm");
    assert_eq!(config.output_file, "program.hack");

    let config = Config::from_input_path("dir/sub/Pong.asm".to_string()).unwrap();
    assert_eq!(config.output_file, "dir/sub/Pong.hack");

    assert!(Config::from_input_path("program.txt".to_string()).is_none());
    assert!(Config::from_input_path("program".to_string()).is_none());
    assert!(Config::from_input_path(".asm".to_string()).is_none());
    assert!(Config::from_input_path("dir.asm/file".to_string()).is_none());
}
