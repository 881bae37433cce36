//! The instruction model: the textual parser for A-, C- and label forms,
//! and the bit-exact encoder for 16-character binary output lines.

use vstd::prelude::*;

use crate::error::{AsmError, AsmErrorView};
use crate::text::{
    all_digits, digits_value, find_char, find_char_at, find_char_from, lemma_digits_value_nonneg,
    parse_u16, str_eq, trim_spec, trim_str,
};

verus! {

/// The destination field of a C-instruction.
#[derive(Debug, Clone, Copy, PartialEq, Eq, Structural)]
pub enum Dest {
    Null,
    M,
    D,
    MD,
    A,
    AM,
    AD,
    AMD,
}

/// The computation field of a C-instruction.
#[derive(Debug, Clone, Copy, PartialEq, Eq, Structural)]
pub enum Comp {
    Zero,
    One,
    NegOne,
    D,
    A,
    NotD,
    NotA,
    NegD,
    NegA,
    DPlusOne,
    APlusOne,
    DMinusOne,
    AMinusOne,
    DPlusA,
    DMinusA,
    AMinusD,
    DAndA,
    DOrA,
    M,
    NotM,
    NegM,
    MPlusOne,
    MMinusOne,
    DPlusM,
    DMinusM,
    MMinusD,
    DAndM,
    DOrM,
}

/// The jump field of a C-instruction.
#[derive(Debug, Clone, Copy, PartialEq, Eq, Structural)]
pub enum Jump {
    Null,
    JGT,
    JEQ,
    JGE,
    JLT,
    JNE,
    JLE,
    JMP,
}

/// The 3-bit encoding of a destination: a bitwise OR of A=4, D=2, M=1.
pub open spec fn dest_code(d: Dest) -> u16 {
    match d {
        Dest::Null => 0,
        Dest::M => 1,
        Dest::D => 2,
        Dest::MD => 3,
        Dest::A => 4,
        Dest::AM => 5,
        Dest::AD => 6,
        Dest::AMD => 7,
    }
}

/// The 3-bit encoding of a jump condition.
pub open spec fn jump_code(j: Jump) -> u16 {
    match j {
        Jump::Null => 0,
        Jump::JGT => 1,
        Jump::JEQ => 2,
        Jump::JGE => 3,
        Jump::JLT => 4,
        Jump::JNE => 5,
        Jump::JLE => 6,
        Jump::JMP => 7,
    }
}

/// The 7-bit encoding of a computation: the `a` operand flag in bit 6,
/// the six-bit computation code below it.
pub open spec fn comp_bits(c: Comp) -> u16 {
    match c {
        Comp::Zero => 0b0101010,
        Comp::One => 0b0111111,
        Comp::NegOne => 0b0111010,
        Comp::D => 0b0001100,
        Comp::A => 0b0110000,
        Comp::NotD => 0b0001101,
        Comp::NotA => 0b0110001,
        Comp::NegD => 0b0001111,
        Comp::NegA => 0b0110011,
        Comp::DPlusOne => 0b0011111,
        Comp::APlusOne => 0b0110111,
        Comp::DMinusOne => 0b0001110,
        Comp::AMinusOne => 0b0110010,
        Comp::DPlusA => 0b0000010,
        Comp::DMinusA => 0b0010011,
        Comp::AMinusD => 0b0000111,
        Comp::DAndA => 0b0000000,
        Comp::DOrA => 0b0010101,
        Comp::M => 0b1110000,
        Comp::NotM => 0b1110001,
        Comp::NegM => 0b1110011,
        Comp::MPlusOne => 0b1110111,
        Comp::MMinusOne => 0b1110010,
        Comp::DPlusM => 0b1000010,
        Comp::DMinusM => 0b1010011,
        Comp::MMinusD => 0b1000111,
        Comp::DAndM => 0b1000000,
        Comp::DOrM => 0b1010101,
    }
}

/// Whether the computation reads the M (memory) operand.
pub open spec fn comp_uses_m(c: Comp) -> bool {
    comp_bits(c) & 0b1000000 != 0
}

impl Dest {
    /// The 3-bit value `d1 d2 d3` of this destination.
    pub fn code(self) -> (r: u16)
        ensures
            r == dest_code(self),
            r <= 7,
    {
        match self {
            Dest::Null => 0,
            Dest::M => 1,
            Dest::D => 2,
            Dest::MD => 3,
            Dest::A => 4,
            Dest::AM => 5,
            Dest::AD => 6,
            Dest::AMD => 7,
        }
    }
}

impl Jump {
    /// The 3-bit value `j1 j2 j3` of this jump condition.
    pub fn code(self) -> (r: u16)
        ensures
            r == jump_code(self),
            r <= 7,
    {
        match self {
            Jump::Null => 0,
            Jump::JGT => 1,
            Jump::JEQ => 2,
            Jump::JGE => 3,
            Jump::JLT => 4,
            Jump::JNE => 5,
            Jump::JLE => 6,
            Jump::JMP => 7,
        }
    }
}

impl Comp {
    fn bits(self) -> (r: u16)
        ensures
            r == comp_bits(self),
            r <= 127,
    {
        match self {
            Comp::Zero => 0b0101010,
            Comp::One => 0b0111111,
            Comp::NegOne => 0b0111010,
            Comp::D => 0b0001100,
            Comp::A => 0b0110000,
            Comp::NotD => 0b0001101,
            Comp::NotA => 0b0110001,
            Comp::NegD => 0b0001111,
            Comp::NegA => 0b0110011,
            Comp::DPlusOne => 0b0011111,
            Comp::APlusOne => 0b0110111,
            Comp::DMinusOne => 0b0001110,
            Comp::AMinusOne => 0b0110010,
            Comp::DPlusA => 0b0000010,
            Comp::DMinusA => 0b0010011,
            Comp::AMinusD => 0b0000111,
            Comp::DAndA => 0b0000000,
            Comp::DOrA => 0b0010101,
            Comp::M => 0b1110000,
            Comp::NotM => 0b1110001,
            Comp::NegM => 0b1110011,
            Comp::MPlusOne => 0b1110111,
            Comp::MMinusOne => 0b1110010,
            Comp::DPlusM => 0b1000010,
            Comp::DMinusM => 0b1010011,
            Comp::MMinusD => 0b1000111,
            Comp::DAndM => 0b1000000,
            Comp::DOrM => 0b1010101,
        }
    }

    /// The six-bit computation code `c1..c6`, without the `a` flag.
    pub fn to_binary(self) -> (r: u16)
        ensures
            r == comp_bits(self) & 0b0111111,
    {
        self.bits() & 0b0111111
    }

    /// Whether the computation references the M operand.
    pub fn uses_m(self) -> (r: bool)
        ensures
            r == comp_uses_m(self),
    {
        self.bits() & 0b1000000 != 0
    }
}

/// The destination denoted by a token; `None` for an unknown token.
pub open spec fn dest_of_token(t: Seq<char>) -> Option<Dest> {
    if t == "null"@ {
        Some(Dest::Null)
    } else if t == "M"@ {
        Some(Dest::M)
    } else if t == "D"@ {
        Some(Dest::D)
    } else if t == "MD"@ {
        Some(Dest::MD)
    } else if t == "A"@ {
        Some(Dest::A)
    } else if t == "AM"@ {
        Some(Dest::AM)
    } else if t == "AD"@ {
        Some(Dest::AD)
    } else if t == "AMD"@ {
        Some(Dest::AMD)
    } else {
        None
    }
}

/// The jump condition denoted by a token; `None` for an unknown token.
pub open spec fn jump_of_token(t: Seq<char>) -> Option<Jump> {
    if t == "null"@ {
        Some(Jump::Null)
    } else if t == "JGT"@ {
        Some(Jump::JGT)
    } else if t == "JEQ"@ {
        Some(Jump::JEQ)
    } else if t == "JGE"@ {
        Some(Jump::JGE)
    } else if t == "JLT"@ {
        Some(Jump::JLT)
    } else if t == "JNE"@ {
        Some(Jump::JNE)
    } else if t == "JLE"@ {
        Some(Jump::JLE)
    } else if t == "JMP"@ {
        Some(Jump::JMP)
    } else {
        None
    }
}

/// The computation denoted by a token; `None` for an unknown token.
pub open spec fn comp_of_token(t: Seq<char>) -> Option<Comp> {
    if t == "0"@ {
        Some(Comp::Zero)
    } else if t == "1"@ {
        Some(Comp::One)
    } else if t == "-1"@ {
        Some(Comp::NegOne)
    } else if t == "D"@ {
        Some(Comp::D)
    } else if t == "A"@ {
        Some(Comp::A)
    } else if t == "!D"@ {
        Some(Comp::NotD)
    } else if t == "!A"@ {
        Some(Comp::NotA)
    } else if t == "-D"@ {
        Some(Comp::NegD)
    } else if t == "-A"@ {
        Some(Comp::NegA)
    } else if t == "D+1"@ {
        Some(Comp::DPlusOne)
    } else if t == "A+1"@ {
        Some(Comp::APlusOne)
    } else if t == "D-1"@ {
        Some(Comp::DMinusOne)
    } else if t == "A-1"@ {
        Some(Comp::AMinusOne)
    } else if t == "D+A"@ {
        Some(Comp::DPlusA)
    } else if t == "D-A"@ {
        Some(Comp::DMinusA)
    } else if t == "A-D"@ {
        Some(Comp::AMinusD)
    } else if t == "D&A"@ {
        Some(Comp::DAndA)
    } else if t == "D|A"@ {
        Some(Comp::DOrA)
    } else if t == "M"@ {
        Some(Comp::M)
    } else if t == "!M"@ {
        Some(Comp::NotM)
    } else if t == "-M"@ {
        Some(Comp::NegM)
    } else if t == "M+1"@ {
        Some(Comp::MPlusOne)
    } else if t == "M-1"@ {
        Some(Comp::MMinusOne)
    } else if t == "D+M"@ {
        Some(Comp::DPlusM)
    } else if t == "D-M"@ {
        Some(Comp::DMinusM)
    } else if t == "M-D"@ {
        Some(Comp::MMinusD)
    } else if t == "D&M"@ {
        Some(Comp::DAndM)
    } else if t == "D|M"@ {
        Some(Comp::DOrM)
    } else {
        None
    }
}

impl Dest {
    /// Resolves a destination token.
    pub fn parse_token(token: &str) -> (r: Option<Dest>)
        ensures
            r == dest_of_token(token@),
    {
        if str_eq(token, "null") {
            Some(Dest::Null)
        } else if str_eq(token, "M") {
            Some(Dest::M)
        } else if str_eq(token, "D") {
            Some(Dest::D)
        } else if str_eq(token, "MD") {
            Some(Dest::MD)
        } else if str_eq(token, "A") {
            Some(Dest::A)
        } else if str_eq(token, "AM") {
            Some(Dest::AM)
        } else if str_eq(token, "AD") {
            Some(Dest::AD)
        } else if str_eq(token, "AMD") {
            Some(Dest::AMD)
        } else {
            None
        }
    }
}

impl Jump {
    /// Resolves a jump token.
    pub fn parse_token(token: &str) -> (r: Option<Jump>)
        ensures
            r == jump_of_token(token@),
    {
        if str_eq(token, "null") {
            Some(Jump::Null)
        } else if str_eq(token, "JGT") {
            Some(Jump::JGT)
        } else if str_eq(token, "JEQ") {
            Some(Jump::JEQ)
        } else if str_eq(token, "JGE") {
            Some(Jump::JGE)
        } else if str_eq(token, "JLT") {
            Some(Jump::JLT)
        } else if str_eq(token, "JNE") {
            Some(Jump::JNE)
        } else if str_eq(token, "JLE") {
            Some(Jump::JLE)
        } else if str_eq(token, "JMP") {
            Some(Jump::JMP)
        } else {
            None
        }
    }
}

impl Comp {
    /// Resolves a computation token.
    pub fn parse_token(token: &str) -> (r: Option<Comp>)
        ensures
            r == comp_of_token(token@),
    {
        if str_eq(token, "0") {
            Some(Comp::Zero)
        } else if str_eq(token, "1") {
            Some(Comp::One)
        } else if str_eq(token, "-1") {
            Some(Comp::NegOne)
        } else if str_eq(token, "D") {
            Some(Comp::D)
        } else if str_eq(token, "A") {
            Some(Comp::A)
        } else if str_eq(token, "!D") {
            Some(Comp::NotD)
        } else if str_eq(token, "!A") {
            Some(Comp::NotA)
        } else if str_eq(token, "-D") {
            Some(Comp::NegD)
        } else if str_eq(token, "-A") {
            Some(Comp::NegA)
        } else if str_eq(token, "D+1") {
            Some(Comp::DPlusOne)
        } else if str_eq(token, "A+1") {
            Some(Comp::APlusOne)
        } else if str_eq(token, "D-1") {
            Some(Comp::DMinusOne)
        } else if str_eq(token, "A-1") {
            Some(Comp::AMinusOne)
        } else if str_eq(token, "D+A") {
            Some(Comp::DPlusA)
        } else if str_eq(token, "D-A") {
            Some(Comp::DMinusA)
        } else if str_eq(token, "A-D") {
            Some(Comp::AMinusD)
        } else if str_eq(token, "D&A") {
            Some(Comp::DAndA)
        } else if str_eq(token, "D|A") {
            Some(Comp::DOrA)
        } else if str_eq(token, "M") {
            Some(Comp::M)
        } else if str_eq(token, "!M") {
            Some(Comp::NotM)
        } else if str_eq(token, "-M") {
            Some(Comp::NegM)
        } else if str_eq(token, "M+1") {
            Some(Comp::MPlusOne)
        } else if str_eq(token, "M-1") {
            Some(Comp::MMinusOne)
        } else if str_eq(token, "D+M") {
            Some(Comp::DPlusM)
        } else if str_eq(token, "D-M") {
            Some(Comp::DMinusM)
        } else if str_eq(token, "M-D") {
            Some(Comp::MMinusD)
        } else if str_eq(token, "D&M") {
            Some(Comp::DAndM)
        } else if str_eq(token, "D|M") {
            Some(Comp::DOrM)
        } else {
            None
        }
    }
}

/// A literal numeric load: `@value`.
#[derive(Debug, Clone, Copy, PartialEq, Eq, Structural)]
pub struct AInstruction {
    value: u16,
}

impl View for AInstruction {
    type V = u16;

    closed spec fn view(&self) -> u16 {
        self.value
    }
}

impl AInstruction {
    pub fn new(value: u16) -> (r: Self)
        ensures
            r@ == value,
    {
        AInstruction { value }
    }

    pub fn value(&self) -> (r: u16)
        ensures
            r == self@,
    {
        self.value
    }
}

/// A compute instruction: destination, computation and jump fields.
#[derive(Debug, Clone, Copy, PartialEq, Eq, Structural)]
pub struct CInstruction {
    dest: Dest,
    comp: Comp,
    jump: Jump,
}

impl View for CInstruction {
    type V = (Dest, Comp, Jump);

    closed spec fn view(&self) -> (Dest, Comp, Jump) {
        (self.dest, self.comp, self.jump)
    }
}

impl CInstruction {
    pub fn new(dest: Dest, comp: Comp, jump: Jump) -> (r: Self)
        ensures
            r@ == (dest, comp, jump),
    {
        CInstruction { dest, comp, jump }
    }
}

/// One parsed source line.
#[derive(Debug)]
pub enum Instruction {
    /// `@value` with a decimal literal.
    A(AInstruction),
    /// A compute instruction.
    C(CInstruction),
    /// `(name)`: a label declaration, contributing no output word.
    L(String),
    /// `@name` with a symbolic name, resolved during emission.
    Variable(String),
}

/// The mathematical shape of an `Instruction`.
pub enum InstructionView {
    A(u16),
    C(Dest, Comp, Jump),
    L(Seq<char>),
    Variable(Seq<char>),
}

impl View for Instruction {
    type V = InstructionView;

    open spec fn view(&self) -> InstructionView {
        match self {
            Instruction::A(a) => InstructionView::A(a@),
            Instruction::C(c) => InstructionView::C(c@.0, c@.1, c@.2),
            Instruction::L(name) => InstructionView::L(name@),
            Instruction::Variable(name) => InstructionView::Variable(name@),
        }
    }
}

impl DeepView for Instruction {
    type V = InstructionView;

    open spec fn deep_view(&self) -> InstructionView {
        self.view()
    }
}

impl Clone for Instruction {
    fn clone(&self) -> (res: Self)
        ensures
            res@ == self@,
    {
        match self {
            Instruction::A(a) => Instruction::A(*a),
            Instruction::C(c) => Instruction::C(*c),
            Instruction::L(name) => Instruction::L(name.clone()),
            Instruction::Variable(name) => Instruction::Variable(name.clone()),
        }
    }
}

/// The views of a parse result's two sides.
pub open spec fn parse_result_view(r: Result<Instruction, AsmError>) -> Result<
    InstructionView,
    AsmErrorView,
> {
    match r {
        Ok(i) => Ok(i@),
        Err(e) => Err(e@),
    }
}

/// What parsing a C-form line yields: the text up to the first `;` is
/// `dest=comp` or bare `comp`; the text after it is the jump token.
/// An unknown destination or jump token falls back to its null form;
/// an unknown computation token is fatal for the line.
pub open spec fn parse_c_spec(t: Seq<char>, line_number: usize) -> Result<
    InstructionView,
    AsmErrorView,
> {
    let comp_dest = if find_char(t, ';') is Some {
        t.subrange(0, find_char(t, ';')->0)
    } else {
        t
    };
    let jump_tok = if find_char(t, ';') is Some {
        t.subrange(find_char(t, ';')->0 + 1, t.len() as int)
    } else {
        "null"@
    };
    if find_char(comp_dest, '=') is Some && find_char_from(
        comp_dest,
        '=',
        (find_char(comp_dest, '=')->0 + 1) as nat,
    ) is Some {
        Err(AsmErrorView::InvalidInstruction { line: line_number, instruction: t })
    } else {
        let dest_tok = if find_char(comp_dest, '=') is Some {
            comp_dest.subrange(0, find_char(comp_dest, '=')->0)
        } else {
            "null"@
        };
        let comp_tok = if find_char(comp_dest, '=') is Some {
            comp_dest.subrange(find_char(comp_dest, '=')->0 + 1, comp_dest.len() as int)
        } else {
            comp_dest
        };
        match comp_of_token(comp_tok) {
            Some(comp) => {
                let dest = match dest_of_token(dest_tok) {
                    Some(d) => d,
                    None => Dest::Null,
                };
                let jump = match jump_of_token(jump_tok) {
                    Some(j) => j,
                    None => Jump::Null,
                };
                Ok(InstructionView::C(dest, comp, jump))
            },
            None => Err(
                AsmErrorView::InvalidInstruction { line: line_number, instruction: comp_tok },
            ),
        }
    }
}

/// What parsing a source line yields, after trimming: an `@`-form, a
/// `(label)` form, or a C-form.
pub open spec fn parse_spec(s: Seq<char>, line_number: usize) -> Result<
    InstructionView,
    AsmErrorView,
> {
    let t = trim_spec(s);
    if t.len() > 0 && t[0] == '@' {
        let sym = t.subrange(1, t.len() as int);
        if sym.len() == 0 {
            Err(AsmErrorView::InvalidInstruction { line: line_number, instruction: t })
        } else if all_digits(sym) && digits_value(sym) <= u16::MAX {
            Ok(InstructionView::A(digits_value(sym) as u16))
        } else {
            Ok(InstructionView::Variable(sym))
        }
    } else if t.len() >= 2 && t[0] == '(' && t.last() == ')' {
        Ok(InstructionView::L(t.subrange(1, t.len() - 1)))
    } else {
        parse_c_spec(t, line_number)
    }
}

fn parse_c_instruction(instruction: &str, line_number: usize) -> (r: Result<Instruction, AsmError>)
    ensures
        parse_result_view(r) == parse_c_spec(instruction@, line_number),
{
    let n = instruction.unicode_len();
    let semi = find_char_at(instruction, ';', 0);
    let comp_dest: &str = match semi {
        Some(i) => instruction.substring_char(0, i),
        None => instruction,
    };
    let jump_str: &str = match semi {
        Some(i) => instruction.substring_char(i + 1, n),
        None => "null",
    };
    let m = comp_dest.unicode_len();
    let eq = find_char_at(comp_dest, '=', 0);
    let (dest_str, comp_str): (&str, &str) = match eq {
        Some(i) => {
            if find_char_at(comp_dest, '=', i + 1).is_some() {
                return Err(
                    AsmError::InvalidInstruction {
                        line: line_number,
                        instruction: instruction.to_owned(),
                    },
                );
            }
            (comp_dest.substring_char(0, i), comp_dest.substring_char(i + 1, m))
        },
        None => ("null", comp_dest),
    };
    let dest = match Dest::parse_token(dest_str) {
        Some(d) => d,
        None => Dest::Null,
    };
    let comp = match Comp::parse_token(comp_str) {
        Some(c) => c,
        None => {
            return Err(
                AsmError::InvalidInstruction { line: line_number, instruction: comp_str.to_owned() },
            );
        },
    };
    let jump = match Jump::parse_token(jump_str) {
        Some(j) => j,
        None => Jump::Null,
    };
    Ok(Instruction::C(CInstruction::new(dest, comp, jump)))
}

impl Instruction {
    /// Parses one sanitized source line, dispatching on its first
    /// character: `@` begins an A-form, `(`…`)` is a label, anything
    /// else is read as a C-form.
    pub fn parse(instruction: &str, line_number: usize) -> (r: Result<Instruction, AsmError>)
        ensures
            parse_result_view(r) == parse_spec(instruction@, line_number),
    {
        let t = trim_str(instruction);
        let n = t.unicode_len();
        if n > 0 && t.get_char(0) == '@' {
            let symbol = t.substring_char(1, n);
            if n == 1 {
                Err(
                    AsmError::InvalidInstruction {
                        line: line_number,
                        instruction: t.to_owned(),
                    },
                )
            } else {
                match parse_u16(symbol) {
                    Some(num) => {
                        proof {
                            lemma_digits_value_nonneg(symbol@);
                        }
                        Ok(Instruction::A(AInstruction::new(num)))
                    },
                    None => Ok(Instruction::Variable(symbol.to_owned())),
                }
            }
        } else if n >= 2 && t.get_char(0) == '(' && t.get_char(n - 1) == ')' {
            let label = t.substring_char(1, n - 1);
            Ok(Instruction::L(label.to_owned()))
        } else {
            proof {
                if n == 1 && t@[0] == '(' {
                    assert(t@.last() == '(');
                }
            }
            parse_c_instruction(t, line_number)
        }
    }
}

/// The character for bit `k` of `w`.
pub open spec fn bit_char(w: u16, k: u16) -> char {
    if (w >> k) & 1 == 1 {
        '1'
    } else {
        '0'
    }
}

/// The 16-character binary text of `w`, most significant bit first.
pub open spec fn bits16(w: u16) -> Seq<char> {
    Seq::new(16, |i: int| bit_char(w, (15 - i) as u16))
}

/// Renders `w` as 16 binary digits, most significant bit first.
pub fn encode_word16(w: u16) -> (r: String)
    ensures
        r@ == bits16(w),
{
    let mut s = String::new();
    let mut k: usize = 0;
    while k < 16
        invariant
            0 <= k <= 16,
            s@ =~= bits16(w).subrange(0, k as int),
        decreases 16 - k,
    {
        let shift: u16 = (15 - k) as u16;
        let bit: u16 = (w >> shift) & 1;
        if bit == 1 {
            s.append("1");
        } else {
            s.append("0");
        }
        proof {
            reveal_strlit("0");
            reveal_strlit("1");
            assert(s@ =~= bits16(w).subrange(0, k + 1));
        }
        k = k + 1;
    }
    proof {
        assert(bits16(w).subrange(0, 16) =~= bits16(w));
    }
    s
}

/// The 16-bit word of a C-instruction: `111`, the `a` flag, six
/// computation bits, three destination bits, three jump bits.
pub open spec fn c_word(dest: Dest, comp: Comp, jump: Jump) -> u16 {
    (0xE000 + comp_bits(comp) * 64 + dest_code(dest) * 8 + jump_code(jump)) as u16
}

proof fn lemma_code_bounds(dest: Dest, comp: Comp, jump: Jump)
    ensures
        comp_bits(comp) <= 127,
        dest_code(dest) <= 7,
        jump_code(jump) <= 7,
        0xE000 + comp_bits(comp) * 64 + dest_code(dest) * 8 + jump_code(jump) <= 0xFFFF,
{
}

impl CInstruction {
    /// The 16-character binary text of this instruction.
    pub fn to_binary(&self) -> (r: String)
        ensures
            r@ == bits16(c_word(self@.0, self@.1, self@.2)),
    {
        let a_flag: u16 = if self.comp.uses_m() {
            0b1000000
        } else {
            0
        };
        proof {
            lemma_code_bounds(self.dest, self.comp, self.jump);
            let cb = comp_bits(self.comp);
            if comp_uses_m(self.comp) {
                assert(64 + (cb & 0b0111111) == cb) by (bit_vector)
                    requires
                        cb & 0b1000000 != 0,
                        cb <= 127,
                ;
            } else {
                assert((cb & 0b0111111) == cb) by (bit_vector)
                    requires
                        cb & 0b1000000 == 0,
                        cb <= 127,
                ;
            }
        }
        let word: u16 = 0xE000 + (a_flag + self.comp.to_binary()) * 64 + self.dest.code() * 8
            + self.jump.code();
        encode_word16(word)
    }
}

/// The destination of a 3-bit code.
pub open spec fn dest_of_code(code: u16) -> Option<Dest> {
    if code == 0 {
        Some(Dest::Null)
    } else if code == 1 {
        Some(Dest::M)
    } else if code == 2 {
        Some(Dest::D)
    } else if code == 3 {
        Some(Dest::MD)
    } else if code == 4 {
        Some(Dest::A)
    } else if code == 5 {
        Some(Dest::AM)
    } else if code == 6 {
        Some(Dest::AD)
    } else if code == 7 {
        Some(Dest::AMD)
    } else {
        None
    }
}

/// The jump condition of a 3-bit code.
pub open spec fn jump_of_code(code: u16) -> Option<Jump> {
    if code == 0 {
        Some(Jump::Null)
    } else if code == 1 {
        Some(Jump::JGT)
    } else if code == 2 {
        Some(Jump::JEQ)
    } else if code == 3 {
        Some(Jump::JGE)
    } else if code == 4 {
        Some(Jump::JLT)
    } else if code == 5 {
        Some(Jump::JNE)
    } else if code == 6 {
        Some(Jump::JLE)
    } else if code == 7 {
        Some(Jump::JMP)
    } else {
        None
    }
}

/// The computation of a 7-bit code (`a` flag included).
pub open spec fn comp_of_code(code: u16) -> Option<Comp> {
    if code == 0b0101010 {
        Some(Comp::Zero)
    } else if code == 0b0111111 {
        Some(Comp::One)
    } else if code == 0b0111010 {
        Some(Comp::NegOne)
    } else if code == 0b0001100 {
        Some(Comp::D)
    } else if code == 0b0110000 {
        Some(Comp::A)
    } else if code == 0b0001101 {
        Some(Comp::NotD)
    } else if code == 0b0110001 {
        Some(Comp::NotA)
    } else if code == 0b0001111 {
        Some(Comp::NegD)
    } else if code == 0b0110011 {
        Some(Comp::NegA)
    } else if code == 0b0011111 {
        Some(Comp::DPlusOne)
    } else if code == 0b0110111 {
        Some(Comp::APlusOne)
    } else if code == 0b0001110 {
        Some(Comp::DMinusOne)
    } else if code == 0b0110010 {
        Some(Comp::AMinusOne)
    } else if code == 0b0000010 {
        Some(Comp::DPlusA)
    } else if code == 0b0010011 {
        Some(Comp::DMinusA)
    } else if code == 0b0000111 {
        Some(Comp::AMinusD)
    } else if code == 0b0000000 {
        Some(Comp::DAndA)
    } else if code == 0b0010101 {
        Some(Comp::DOrA)
    } else if code == 0b1110000 {
        Some(Comp::M)
    } else if code == 0b1110001 {
        Some(Comp::NotM)
    } else if code == 0b1110011 {
        Some(Comp::NegM)
    } else if code == 0b1110111 {
        Some(Comp::MPlusOne)
    } else if code == 0b1110010 {
        Some(Comp::MMinusOne)
    } else if code == 0b1000010 {
        Some(Comp::DPlusM)
    } else if code == 0b1010011 {
        Some(Comp::DMinusM)
    } else if code == 0b1000111 {
        Some(Comp::MMinusD)
    } else if code == 0b1000000 {
        Some(Comp::DAndM)
    } else if code == 0b1010101 {
        Some(Comp::DOrM)
    } else {
        None
    }
}

/// The fields a 16-bit C-instruction word decodes to: `None` unless the
/// word begins with `111` and its computation code is in the table.
pub open spec fn decode_c_word(w: u16) -> Option<(Dest, Comp, Jump)> {
    if w >> 13 == 0b111 {
        match comp_of_code((w >> 6) & 0x7F) {
            Some(comp) => match (dest_of_code((w >> 3) & 7), jump_of_code(w & 7)) {
                (Some(dest), Some(jump)) => Some((dest, comp, jump)),
                _ => None,
            },
            None => None,
        }
    } else {
        None
    }
}

/// Round trip of the C-form encoding: re-reading the fields out of the
/// 16-bit word a `(dest, comp, jump)` triple encodes to yields the same
/// triple.
pub proof fn lemma_c_word_round_trip(dest: Dest, comp: Comp, jump: Jump)
    ensures
        decode_c_word(c_word(dest, comp, jump)) == Some((dest, comp, jump)),
{
    lemma_code_bounds(dest, comp, jump);
    let cb = comp_bits(comp);
    let d = dest_code(dest);
    let j = jump_code(jump);
    let w = c_word(dest, comp, jump);
    assert(w == 0xE000 + cb * 64 + d * 8 + j);
    assert(w >> 13 == 0b111 && (w >> 6) & 0x7F == cb && (w >> 3) & 7 == d && w & 7 == j)
        by (bit_vector)
        requires
            cb <= 127,
            d <= 7,
            j <= 7,
            w == 0xE000 + cb * 64 + d * 8 + j,
    ;
    assert(comp_of_code(cb) == Some(comp));
    assert(dest_of_code(d) == Some(dest));
    assert(jump_of_code(j) == Some(jump));
}

} // verus!
