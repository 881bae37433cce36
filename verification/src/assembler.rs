//! The two-pass driver: pass 1 binds labels to instruction addresses,
//! pass 2 parses the source again, resolves variables and emits the
//! 16-character binary lines.

use vstd::prelude::*;

use crate::error::{AsmError, AsmErrorView, AssemblyError};
use crate::instruction::{bits16, c_word, parse_spec, Instruction, InstructionView};
use crate::symbol_table::{SymbolTable, SymbolTableView};
use crate::text::{all_ascii, comment_start, find_comment, is_ascii_char, trim_spec, trim_str};

verus! {

/// What sanitizing a raw line yields: `Ok(None)` for a blank or
/// pure-comment line, `Ok(Some(text))` for retained text with any
/// trailing comment removed, `Err` for non-ASCII content.
pub open spec fn sanitize_spec(line: Seq<char>, line_number: usize) -> Result<
    Option<Seq<char>>,
    AsmErrorView,
> {
    let trimmed = trim_spec(line);
    if trimmed.len() == 0 {
        Ok(None)
    } else if !all_ascii(trimmed) {
        Err(
            AsmErrorView::SyntaxError {
                line: line_number,
                message: "Non-ASCII characters are not allowed"@,
            },
        )
    } else if trimmed.len() >= 2 && trimmed[0] == '/' && trimmed[1] == '/' {
        Ok(None)
    } else if comment_start(trimmed) is Some {
        Ok(Some(trim_spec(trimmed.subrange(0, comment_start(trimmed)->0))))
    } else {
        Ok(Some(trimmed))
    }
}

/// The views of a sanitize result's sides.
pub open spec fn sanitize_result_view(r: Result<Option<String>, AsmError>) -> Result<
    Option<Seq<char>>,
    AsmErrorView,
> {
    match r {
        Ok(None) => Ok(None),
        Ok(Some(s)) => Ok(Some(s@)),
        Err(e) => Err(e@),
    }
}

/// Strips a raw source line down to the text worth parsing: trims it,
/// rejects non-ASCII content, skips blank and `//`-only lines, and cuts
/// a trailing `//` comment.
pub fn sanitize_line(line: &str, line_number: usize) -> (r: Result<Option<String>, AsmError>)
    ensures
        sanitize_result_view(r) == sanitize_spec(line@, line_number),
{
    let trimmed = trim_str(line);
    let n = trimmed.unicode_len();
    if n == 0 {
        return Ok(None);
    }
    let mut i: usize = 0;
    while i < n
        invariant
            0 <= i <= n,
            n == trimmed@.len(),
            1 <= n,
            trimmed@ == trim_spec(line@),
            forall|j: int| 0 <= j < i ==> is_ascii_char(#[trigger] trimmed@[j]),
        decreases n - i,
    {
        let c = trimmed.get_char(i);
        if c as u32 > 127 {
            proof {
                assert(!is_ascii_char(trimmed@[i as int]));
                assert(!all_ascii(trimmed@));
            }
            return Err(
                AsmError::SyntaxError {
                    line: line_number,
                    message: String::from_str("Non-ASCII characters are not allowed"),
                },
            );
        }
        i = i + 1;
    }
    if n >= 2 && trimmed.get_char(0) == '/' && trimmed.get_char(1) == '/' {
        return Ok(None);
    }
    match find_comment(trimmed) {
        Some(idx) => {
            let before = trimmed.substring_char(0, idx);
            let retrimmed = trim_str(before);
            Ok(Some(retrimmed.to_owned()))
        },
        None => Ok(Some(trimmed.to_owned())),
    }
}

/// What one source line contributes to a pass.
pub enum LineOutcome {
    /// Blank or comment-only: the line is dropped.
    Skip,
    /// A sanitize or parse diagnostic.
    LineError(AsmErrorView),
    /// A parsed instruction.
    Instr(InstructionView),
}

/// Sanitizing and parsing one line, as both passes do it.
pub open spec fn line_outcome(line: Seq<char>, line_number: usize) -> LineOutcome {
    match sanitize_spec(line, line_number) {
        Err(e) => LineOutcome::LineError(e),
        Ok(None) => LineOutcome::Skip,
        Ok(Some(text)) => match parse_spec(text, line_number) {
            Err(e) => LineOutcome::LineError(e),
            Ok(iv) => LineOutcome::Instr(iv),
        },
    }
}

/// The driver state pass 1 threads through the source.
pub struct Pass1State {
    pub symbols: SymbolTableView,
    pub errors: Seq<AsmErrorView>,
    pub current_address: u16,
    pub line_number: usize,
}

/// A symbol table after a first-winner label binding.
pub open spec fn add_label_spec(sym: SymbolTableView, name: Seq<char>, address: u16) -> SymbolTableView {
    SymbolTableView {
        table: if sym.table.contains_key(name) {
            sym.table
        } else {
            sym.table.insert(name, address)
        },
        next_variable_address: sym.next_variable_address,
    }
}

/// One line of pass 1: a label binds to the current instruction address,
/// any other instruction advances it, and diagnostics accumulate.
pub open spec fn pass1_step(st: Pass1State, line: Seq<char>) -> Pass1State {
    let ln = (st.line_number + 1) as usize;
    match line_outcome(line, ln) {
        LineOutcome::Skip => Pass1State {
            symbols: st.symbols,
            errors: st.errors,
            current_address: st.current_address,
            line_number: ln,
        },
        LineOutcome::LineError(e) => Pass1State {
            symbols: st.symbols,
            errors: st.errors.push(e),
            current_address: st.current_address,
            line_number: ln,
        },
        LineOutcome::Instr(iv) => match iv {
            InstructionView::L(name) => Pass1State {
                symbols: add_label_spec(st.symbols, name, st.current_address),
                errors: st.errors,
                current_address: st.current_address,
                line_number: ln,
            },
            _ => Pass1State {
                symbols: st.symbols,
                errors: st.errors,
                current_address: (st.current_address + 1) as u16,
                line_number: ln,
            },
        },
    }
}

/// Pass 1 after its first `n` lines.
pub open spec fn pass1_at(init: Pass1State, lines: Seq<Seq<char>>, n: int) -> Pass1State
    decreases n,
{
    if n <= 0 {
        init
    } else {
        pass1_step(pass1_at(init, lines, n - 1), lines[n - 1])
    }
}

/// The instructions pass 2 collects from the first `n` lines, in source
/// order; lines with diagnostics contribute nothing (pass 1 already
/// recorded them).
pub open spec fn instructions_at(lines: Seq<Seq<char>>, n: int) -> Seq<InstructionView>
    decreases n,
{
    if n <= 0 {
        Seq::empty()
    } else {
        let prev = instructions_at(lines, n - 1);
        match line_outcome(lines[n - 1], n as usize) {
            LineOutcome::Instr(iv) => prev.push(iv),
            _ => prev,
        }
    }
}

/// Emitting one instruction: the output word, if any, and the symbol
/// table after it. A fresh variable allocates the cursor address.
pub open spec fn emit_one(sym: SymbolTableView, instr: InstructionView) -> (
    Option<Seq<char>>,
    SymbolTableView,
) {
    match instr {
        InstructionView::A(value) => (Some(bits16(value)), sym),
        InstructionView::C(dest, comp, jump) => (Some(bits16(c_word(dest, comp, jump))), sym),
        InstructionView::L(_) => (None, sym),
        InstructionView::Variable(name) => if sym.table.contains_key(name) {
            (Some(bits16(sym.table[name])), sym)
        } else {
            (
                Some(bits16(sym.next_variable_address)),
                SymbolTableView {
                    table: sym.table.insert(name, sym.next_variable_address),
                    next_variable_address: (sym.next_variable_address + 1) as u16,
                },
            )
        },
    }
}

/// The symbol table after emitting the first `n` instructions.
pub open spec fn emit_sym_at(
    instrs: Seq<InstructionView>,
    sym0: SymbolTableView,
    n: int,
) -> SymbolTableView
    decreases n,
{
    if n <= 0 {
        sym0
    } else {
        emit_one(emit_sym_at(instrs, sym0, n - 1), instrs[n - 1]).1
    }
}

/// The output word of instruction `k`, given the emission state built by
/// the instructions before it.
pub open spec fn emit_line(
    instrs: Seq<InstructionView>,
    sym0: SymbolTableView,
    k: int,
) -> Option<Seq<char>> {
    emit_one(emit_sym_at(instrs, sym0, k), instrs[k]).0
}

/// The output lines of the first `n` instructions, in order.
pub open spec fn emit_lines_at(
    instrs: Seq<InstructionView>,
    sym0: SymbolTableView,
    n: int,
) -> Seq<Seq<char>>
    decreases n,
{
    if n <= 0 {
        Seq::empty()
    } else {
        let prev = emit_lines_at(instrs, sym0, n - 1);
        match emit_line(instrs, sym0, n - 1) {
            Some(line) => prev.push(line),
            None => prev,
        }
    }
}

/// The mathematical shape of an `Assembler`.
pub struct AssemblerView {
    pub symbol_table: SymbolTableView,
    pub errors: Seq<AsmErrorView>,
    pub current_address: u16,
    pub line_number: usize,
}

/// The pass-1 state an assembler starts from.
pub open spec fn pass1_init(a: AssemblerView) -> Pass1State {
    Pass1State {
        symbols: a.symbol_table,
        errors: a.errors,
        current_address: a.current_address,
        line_number: a.line_number,
    }
}

/// What a whole translation yields: the output lines in source order, or
/// every diagnostic the passes accumulated.
pub open spec fn assemble_spec(a: AssemblerView, lines: Seq<Seq<char>>) -> Result<
    Seq<Seq<char>>,
    Seq<AsmErrorView>,
> {
    let p1 = pass1_at(pass1_init(a), lines, lines.len() as int);
    let instrs = instructions_at(lines, lines.len() as int);
    if p1.errors.len() > 0 {
        Err(p1.errors)
    } else {
        Ok(emit_lines_at(instrs, p1.symbols, instrs.len() as int))
    }
}

/// The views of an assemble result's sides.
pub open spec fn assemble_result_view(r: Result<Vec<String>, AssemblyError>) -> Result<
    Seq<Seq<char>>,
    Seq<AsmErrorView>,
> {
    match r {
        Ok(v) => Ok(v.deep_view()),
        Err(e) => Err(e@),
    }
}

/// The two-pass translation session: the symbol table, the accumulated
/// diagnostics, the instruction address cursor of pass 1 and the current
/// source line.
pub struct Assembler {
    symbol_table: SymbolTable,
    errors: Vec<AsmError>,
    current_address: u16,
    line_number: usize,
}

impl View for Assembler {
    type V = AssemblerView;

    closed spec fn view(&self) -> AssemblerView {
        AssemblerView {
            symbol_table: self.symbol_table@,
            errors: self.errors.deep_view(),
            current_address: self.current_address,
            line_number: self.line_number,
        }
    }
}

impl Assembler {
    /// A fresh session over the given symbol table.
    pub fn new(symbol_table: SymbolTable) -> (r: Self)
        ensures
            r@.symbol_table == symbol_table@,
            r@.errors == Seq::<AsmErrorView>::empty(),
            r@.current_address == 0,
            r@.line_number == 0,
    {
        let r = Assembler { symbol_table, errors: Vec::new(), current_address: 0, line_number: 0 };
        proof {
            assert(r@.errors =~= Seq::<AsmErrorView>::empty());
        }
        r
    }

    /// Pass 1: scan the source for label declarations and bind each to
    /// the address of the instruction that follows it.
    fn build_symbol_table(&mut self, lines: &Vec<String>)
        requires
            old(self)@.line_number + lines@.len() <= usize::MAX,
            old(self)@.current_address + lines@.len() <= u16::MAX,
        ensures
            pass1_init(final(self)@) == pass1_at(
                pass1_init(old(self)@),
                lines.deep_view(),
                lines@.len() as int,
            ),
    {
        let ghost init = pass1_init(self@);
        let ghost ls = lines.deep_view();
        let mut idx: usize = 0;
        while idx < lines.len()
            invariant
                0 <= idx <= lines.len(),
                ls == lines.deep_view(),
                ls.len() == lines@.len(),
                pass1_init(self@) == pass1_at(init, ls, idx as int),
                self.line_number == init.line_number + idx,
                self.current_address <= init.current_address + idx,
                init.line_number + lines@.len() <= usize::MAX,
                init.current_address + lines@.len() <= u16::MAX,
            decreases lines.len() - idx,
        {
            let ghost st = pass1_init(self@);
            let line: &String = &lines[idx];
            proof {
                assert(ls[idx as int] == line@);
            }
            self.line_number = self.line_number + 1;
            let sanitized = sanitize_line(line.as_str(), self.line_number);
            match sanitized {
                Err(e) => {
                    self.errors.push(e);
                    proof {
                        assert(self.errors.deep_view() =~= st.errors.push(e@));
                    }
                },
                Ok(None) => {},
                Ok(Some(text)) => {
                    match Instruction::parse(text.as_str(), self.line_number) {
                        Ok(instruction) => match instruction {
                            Instruction::L(label) => {
                                self.symbol_table.add_label(label, self.current_address);
                            },
                            _ => {
                                self.current_address = self.current_address + 1;
                            },
                        },
                        Err(e) => {
                            self.errors.push(e);
                            proof {
                                assert(self.errors.deep_view() =~= st.errors.push(e@));
                            }
                        },
                    }
                },
            }
            proof {
                assert(pass1_init(self@) == pass1_step(st, ls[idx as int]));
                assert(pass1_at(init, ls, idx + 1) == pass1_step(
                    pass1_at(init, ls, idx as int),
                    ls[idx as int],
                ));
            }
            idx = idx + 1;
        }
    }

    /// Emission of one parsed instruction: `A` and `C` forms encode
    /// directly, a variable resolves through the symbol table (allocating
    /// on first sight), and a label contributes nothing.
    fn handle_instruction(&mut self, instruction: Instruction) -> (r: Option<String>)
        requires
            (instruction@ matches InstructionView::Variable(name) ==> old(
                self,
            )@.symbol_table.table.contains_key(name) || old(
                self,
            )@.symbol_table.next_variable_address < u16::MAX),
        ensures
            final(self)@.symbol_table == emit_one(old(self)@.symbol_table, instruction@).1,
            (match r {
                Some(line) => emit_one(old(self)@.symbol_table, instruction@).0 == Some(line@),
                None => emit_one(old(self)@.symbol_table, instruction@).0 is None,
            }),
            final(self)@.errors == old(self)@.errors,
            final(self)@.current_address == old(self)@.current_address,
            final(self)@.line_number == old(self)@.line_number,
    {
        match instruction {
            Instruction::A(a_instruction) => {
                let address = a_instruction.value();
                Some(crate::instruction::encode_word16(address))
            },
            Instruction::C(c_instruction) => Some(c_instruction.to_binary()),
            Instruction::Variable(variable_name) => {
                let address = self.symbol_table.add_variable(variable_name);
                Some(crate::instruction::encode_word16(address))
            },
            Instruction::L(_) => None,
        }
    }

    /// The whole translation: pass 1 binds labels, pass 2 parses the
    /// source again and collects instructions; if any diagnostics were
    /// accumulated the translation fails with all of them, otherwise the
    /// instructions encode to one 16-character line each, in source
    /// order.
    pub fn assemble(&mut self, lines: &Vec<String>) -> (r: Result<Vec<String>, AssemblyError>)
        requires
            old(self)@.line_number + lines@.len() <= usize::MAX,
            lines@.len() < usize::MAX,
            old(self)@.current_address + lines@.len() <= u16::MAX,
            old(self)@.symbol_table.next_variable_address + lines@.len() <= u16::MAX,
        ensures
            assemble_result_view(r) == assemble_spec(old(self)@, lines.deep_view()),
    {
        let ghost ls = lines.deep_view();
        let ghost init = pass1_init(old(self)@);
        self.build_symbol_table(lines);
        let ghost p1 = pass1_at(init, ls, ls.len() as int);
        proof {
            lemma_pass1_next_unchanged(init, ls, ls.len() as int);
        }
        self.line_number = 1;

        let mut instructions: Vec<Instruction> = Vec::new();
        let mut idx: usize = 0;
        while idx < lines.len()
            invariant
                0 <= idx <= lines.len(),
                ls == lines.deep_view(),
                ls.len() == lines@.len(),
                lines@.len() < usize::MAX,
                self.line_number == idx + 1,
                instructions.deep_view() =~= instructions_at(ls, idx as int),
                self@.symbol_table == p1.symbols,
                self@.errors == p1.errors,
                self@.current_address == p1.current_address,
            decreases lines.len() - idx,
        {
            let ghost before = instructions.deep_view();
            let line: &String = &lines[idx];
            proof {
                assert(ls[idx as int] == line@);
            }
            let sanitized = sanitize_line(line.as_str(), self.line_number);
            match sanitized {
                Ok(Some(text)) => {
                    match Instruction::parse(text.as_str(), self.line_number) {
                        Ok(instruction) => {
                            instructions.push(instruction);
                            proof {
                                assert(instructions.deep_view() =~= before.push(
                                    instructions@.last()@,
                                ));
                            }
                        },
                        Err(_) => {
                            // pass 1 already recorded this diagnostic
                        },
                    }
                },
                Ok(None) => {},
                Err(_) => {
                    // pass 1 already recorded this diagnostic
                },
            }
            self.line_number = self.line_number + 1;
            idx = idx + 1;
        }
        let ghost instrs = instructions_at(ls, ls.len() as int);
        proof {
            assert(instructions.deep_view() =~= instrs);
        }

        if self.errors.len() > 0 {
            let mut errs: Vec<AsmError> = Vec::new();
            core::mem::swap(&mut self.errors, &mut errs);
            return Err(AssemblyError::AsmErrors(errs));
        }

        proof {
            lemma_instructions_at_len(ls, ls.len() as int);
        }
        let mut output: Vec<String> = Vec::new();
        let mut k: usize = 0;
        while k < instructions.len()
            invariant
                0 <= k <= instructions.len(),
                instructions.deep_view() == instrs,
                instructions@.len() == instrs.len(),
                instrs.len() <= ls.len(),
                p1.symbols.next_variable_address + ls.len() <= u16::MAX,
                output.deep_view() =~= emit_lines_at(instrs, p1.symbols, k as int),
                self@.symbol_table == emit_sym_at(instrs, p1.symbols, k as int),
                self@.symbol_table.next_variable_address <= p1.symbols.next_variable_address + k,
                self@.errors == p1.errors,
            decreases instructions.len() - k,
        {
            let ghost out_before = output.deep_view();
            let instruction = instructions[k].clone();
            proof {
                assert(instruction@ == instrs[k as int]);
            }
            match self.handle_instruction(instruction) {
                Some(line) => {
                    output.push(line);
                    proof {
                        assert(output.deep_view() =~= out_before.push(output@.last()@));
                    }
                },
                None => {},
            }
            k = k + 1;
        }
        proof {
            assert(output.deep_view() =~= emit_lines_at(instrs, p1.symbols, instrs.len() as int));
        }
        Ok(output)
    }
}

/// Pass 1 never allocates a variable: the cursor is untouched.
pub proof fn lemma_pass1_next_unchanged(init: Pass1State, lines: Seq<Seq<char>>, n: int)
    ensures
        pass1_at(init, lines, n).symbols.next_variable_address
            == init.symbols.next_variable_address,
    decreases n,
{
    if n > 0 {
        lemma_pass1_next_unchanged(init, lines, n - 1);
    }
}

/// At most one instruction comes from each source line.
pub proof fn lemma_instructions_at_len(lines: Seq<Seq<char>>, n: int)
    ensures
        instructions_at(lines, n).len() <= if n >= 0 {
            n
        } else {
            0
        },
    decreases n,
{
    if n > 0 {
        lemma_instructions_at_len(lines, n - 1);
    }
}

/// Whether an instruction is a label declaration.
pub open spec fn is_label(iv: InstructionView) -> bool {
    match iv {
        InstructionView::L(_) => true,
        _ => false,
    }
}

/// How many of the first `n` instructions are not labels.
pub open spec fn non_label_count(instrs: Seq<InstructionView>, n: int) -> int
    decreases n,
{
    if n <= 0 {
        0
    } else {
        non_label_count(instrs, n - 1) + if is_label(instrs[n - 1]) {
            0int
        } else {
            1int
        }
    }
}

/// Emission produces one line for each non-label instruction.
pub proof fn lemma_emit_count(instrs: Seq<InstructionView>, sym0: SymbolTableView, n: int)
    ensures
        emit_lines_at(instrs, sym0, n).len() == non_label_count(instrs, n),
    decreases n,
{
    if n > 0 {
        lemma_emit_count(instrs, sym0, n - 1);
    }
}

/// The number of output lines of a successful translation equals the
/// number of retained non-label instructions.
pub proof fn lemma_output_count(a: AssemblerView, lines: Seq<Seq<char>>)
    requires
        assemble_spec(a, lines) is Ok,
    ensures
        ({
            let instrs = instructions_at(lines, lines.len() as int);
            assemble_spec(a, lines)->Ok_0.len() == non_label_count(instrs, instrs.len() as int)
        }),
{
    let instrs = instructions_at(lines, lines.len() as int);
    let p1 = pass1_at(pass1_init(a), lines, lines.len() as int);
    lemma_emit_count(instrs, p1.symbols, instrs.len() as int);
}

/// A line of exactly 16 binary digits.
pub open spec fn is_bit_line(l: Seq<char>) -> bool {
    l.len() == 16 && forall|i: int| 0 <= i < l.len() ==> l[i] == '0' || l[i] == '1'
}

proof fn lemma_emit_lines_bits(instrs: Seq<InstructionView>, sym0: SymbolTableView, n: int)
    ensures
        forall|k: int|
            0 <= k < emit_lines_at(instrs, sym0, n).len() ==> is_bit_line(
                #[trigger] emit_lines_at(instrs, sym0, n)[k],
            ),
    decreases n,
{
    if n > 0 {
        lemma_emit_lines_bits(instrs, sym0, n - 1);
        let prev = emit_lines_at(instrs, sym0, n - 1);
        let cur = emit_lines_at(instrs, sym0, n);
        match emit_line(instrs, sym0, n - 1) {
            Some(line) => {
                assert(is_bit_line(line));
                assert(cur == prev.push(line));
                assert forall|k: int| 0 <= k < cur.len() implies is_bit_line(cur[k]) by {
                    if k < prev.len() {
                        assert(cur[k] == prev[k]);
                    } else {
                        assert(cur[k] == line);
                    }
                }
            },
            None => {},
        }
    }
}

/// Every output line of a successful translation has length exactly 16
/// and uses only the characters `0` and `1`.
pub proof fn lemma_output_lines_are_bits(a: AssemblerView, lines: Seq<Seq<char>>)
    requires
        assemble_spec(a, lines) is Ok,
    ensures
        forall|k: int|
            0 <= k < assemble_spec(a, lines)->Ok_0.len() ==> is_bit_line(
                #[trigger] assemble_spec(a, lines)->Ok_0[k],
            ),
{
    let instrs = instructions_at(lines, lines.len() as int);
    let p1 = pass1_at(pass1_init(a), lines, lines.len() as int);
    lemma_emit_lines_bits(instrs, p1.symbols, instrs.len() as int);
}

/// Emission never unbinds a name: once bound, a symbol keeps its address.
proof fn lemma_emit_sym_monotone(
    instrs: Seq<InstructionView>,
    sym0: SymbolTableView,
    n: int,
    m: int,
    name: Seq<char>,
)
    requires
        0 <= n <= m,
        emit_sym_at(instrs, sym0, n).table.contains_key(name),
    ensures
        emit_sym_at(instrs, sym0, m).table.contains_key(name),
        emit_sym_at(instrs, sym0, m).table[name] == emit_sym_at(instrs, sym0, n).table[name],
    decreases m,
{
    if m > n {
        lemma_emit_sym_monotone(instrs, sym0, n, m - 1, name);
    }
}

/// Two `@name` references to the same name, anywhere in the program,
/// emit identical 16-bit words: the first resolution binds the name and
/// every later one reuses that binding.
pub proof fn lemma_same_variable_same_word(
    instrs: Seq<InstructionView>,
    sym0: SymbolTableView,
    i: int,
    j: int,
    name: Seq<char>,
)
    requires
        0 <= i < j < instrs.len(),
        instrs[i] == InstructionView::Variable(name),
        instrs[j] == InstructionView::Variable(name),
    ensures
        emit_line(instrs, sym0, i) == emit_line(instrs, sym0, j),
        emit_line(instrs, sym0, i) is Some,
{
    let si = emit_sym_at(instrs, sym0, i);
    let si1 = emit_sym_at(instrs, sym0, i + 1);
    let addr = if si.table.contains_key(name) {
        si.table[name]
    } else {
        si.next_variable_address
    };
    assert(emit_line(instrs, sym0, i) == Some(bits16(addr)));
    assert(si1.table.contains_key(name) && si1.table[name] == addr);
    lemma_emit_sym_monotone(instrs, sym0, i + 1, j, name);
    assert(emit_sym_at(instrs, sym0, j).table[name] == addr);
}

/// Sanitization reads the line alone: the line number only decorates the
/// diagnostic.
proof fn lemma_sanitize_line_number(line: Seq<char>, m1: usize, m2: usize)
    ensures
        sanitize_spec(line, m1) is Err <==> sanitize_spec(line, m2) is Err,
        sanitize_spec(line, m1) is Ok ==> sanitize_spec(line, m1) == sanitize_spec(line, m2),
{
}

/// Parsing reads the text alone: the line number only decorates the
/// diagnostic.
proof fn lemma_parse_line_number(t: Seq<char>, m1: usize, m2: usize)
    ensures
        parse_spec(t, m1) is Ok <==> parse_spec(t, m2) is Ok,
        parse_spec(t, m1) is Ok ==> parse_spec(t, m1) == parse_spec(t, m2),
{
}

/// What kind of outcome a line has, and which instruction it parses to,
/// do not depend on the line number.
proof fn lemma_line_outcome_line_number(line: Seq<char>, m1: usize, m2: usize)
    ensures
        line_outcome(line, m1) is Skip <==> line_outcome(line, m2) is Skip,
        line_outcome(line, m1) is LineError <==> line_outcome(line, m2) is LineError,
        line_outcome(line, m1) is Instr ==> line_outcome(line, m1) == line_outcome(line, m2),
{
    lemma_sanitize_line_number(line, m1, m2);
    match sanitize_spec(line, m1) {
        Ok(Some(text)) => {
            lemma_parse_line_number(text, m1, m2);
        },
        _ => {},
    }
}

/// Pass 1 counts line numbers up from its starting point.
proof fn lemma_pass1_line_number(init: Pass1State, lines: Seq<Seq<char>>, n: int)
    requires
        0 <= n <= lines.len(),
        init.line_number + lines.len() <= usize::MAX,
    ensures
        pass1_at(init, lines, n).line_number == init.line_number + n,
    decreases n,
{
    if n > 0 {
        lemma_pass1_line_number(init, lines, n - 1);
    }
}

/// A count of non-labels over a prefix ignores what is pushed after it.
proof fn lemma_non_label_count_push(instrs: Seq<InstructionView>, iv: InstructionView, n: int)
    requires
        0 <= n <= instrs.len(),
    ensures
        non_label_count(instrs.push(iv), n) == non_label_count(instrs, n),
    decreases n,
{
    if n > 0 {
        lemma_non_label_count_push(instrs, iv, n - 1);
    }
}

/// Pass 1's instruction address advances exactly with the retained
/// non-label instructions.
proof fn lemma_pass1_address(init: Pass1State, lines: Seq<Seq<char>>, n: int)
    requires
        0 <= n <= lines.len(),
        init.current_address + lines.len() <= u16::MAX,
        init.line_number + lines.len() <= usize::MAX,
    ensures
        ({
            let instrs = instructions_at(lines, n);
            pass1_at(init, lines, n).current_address == init.current_address + non_label_count(
                instrs,
                instrs.len() as int,
            )
        }),
        pass1_at(init, lines, n).current_address <= init.current_address + n,
    decreases n,
{
    if n > 0 {
        lemma_pass1_address(init, lines, n - 1);
        lemma_pass1_line_number(init, lines, n - 1);
        lemma_instructions_at_len(lines, n - 1);
        let prev = instructions_at(lines, n - 1);
        lemma_line_outcome_line_number(
            lines[n - 1],
            (pass1_at(init, lines, n - 1).line_number + 1) as usize,
            n as usize,
        );
        match line_outcome(lines[n - 1], n as usize) {
            LineOutcome::Instr(iv) => {
                lemma_non_label_count_push(prev, iv, prev.len() as int);
            },
            _ => {},
        }
    }
}

/// Pass 1 never unbinds a name: once bound, a label keeps its address.
proof fn lemma_pass1_monotone(
    init: Pass1State,
    lines: Seq<Seq<char>>,
    n: int,
    m: int,
    name: Seq<char>,
)
    requires
        0 <= n <= m,
        pass1_at(init, lines, n).symbols.table.contains_key(name),
    ensures
        pass1_at(init, lines, m).symbols.table.contains_key(name),
        pass1_at(init, lines, m).symbols.table[name] == pass1_at(
            init,
            lines,
            n,
        ).symbols.table[name],
    decreases m,
{
    if m > n {
        lemma_pass1_monotone(init, lines, n, m - 1, name);
    }
}

/// A label declared on line `k`, not bound before, resolves to the index
/// of the instruction that textually follows it: the count of retained
/// non-label instructions above the declaration.
pub proof fn lemma_forward_label_resolves(
    a: AssemblerView,
    lines: Seq<Seq<char>>,
    k: int,
    name: Seq<char>,
)
    requires
        0 <= k < lines.len(),
        a.line_number + lines.len() <= usize::MAX,
        a.current_address + lines.len() <= u16::MAX,
        line_outcome(lines[k], (a.line_number + k + 1) as usize) == LineOutcome::Instr(
            InstructionView::L(name),
        ),
        !pass1_at(pass1_init(a), lines, k).symbols.table.contains_key(name),
    ensures
        ({
            let full = pass1_at(pass1_init(a), lines, lines.len() as int);
            let above = instructions_at(lines, k);
            &&& full.symbols.table.contains_key(name)
            &&& full.symbols.table[name] == a.current_address + non_label_count(
                above,
                above.len() as int,
            )
        }),
{
    let init = pass1_init(a);
    let st = pass1_at(init, lines, k);
    lemma_pass1_line_number(init, lines, k);
    lemma_pass1_address(init, lines, k);
    assert(pass1_at(init, lines, k + 1) == pass1_step(st, lines[k]));
    assert(pass1_at(init, lines, k + 1).symbols.table[name] == st.current_address);
    lemma_pass1_monotone(init, lines, k + 1, lines.len() as int, name);
}

/// A session that holds exactly the predefined symbols and has read
/// nothing yet.
pub open spec fn is_fresh_session(a: AssemblerView) -> bool {
    &&& a.symbol_table.table == crate::symbol_table::predefined_symbols()
    &&& a.symbol_table.next_variable_address == 16
    &&& a.errors.len() == 0
    &&& a.current_address == 0
    &&& a.line_number == 0
}

/// Assembling the same source in two independent fresh sessions yields
/// the same result, byte for byte.
pub proof fn lemma_assemble_deterministic(
    a1: AssemblerView,
    a2: AssemblerView,
    lines: Seq<Seq<char>>,
)
    requires
        is_fresh_session(a1),
        is_fresh_session(a2),
    ensures
        assemble_spec(a1, lines) == assemble_spec(a2, lines),
{
    assert(a1.errors =~= a2.errors);
    assert(a1 == a2);
}

proof fn lemma_labels_only_at(a: AssemblerView, lines: Seq<Seq<char>>, n: int)
    requires
        0 <= n <= lines.len(),
        a.line_number + lines.len() <= usize::MAX,
        forall|k: int|
            0 <= k < lines.len() ==> (line_outcome(lines[k], (k + 1) as usize) is Skip
                || line_outcome(lines[k], (k + 1) as usize) matches LineOutcome::Instr(
                InstructionView::L(_),
            )),
    ensures
        pass1_at(pass1_init(a), lines, n).errors == a.errors,
        non_label_count(instructions_at(lines, n), instructions_at(lines, n).len() as int) == 0,
    decreases n,
{
    if n > 0 {
        lemma_labels_only_at(a, lines, n - 1);
        lemma_pass1_line_number(pass1_init(a), lines, n - 1);
        lemma_instructions_at_len(lines, n - 1);
        let prev = instructions_at(lines, n - 1);
        lemma_line_outcome_line_number(
            lines[n - 1],
            (pass1_at(pass1_init(a), lines, n - 1).line_number + 1) as usize,
            n as usize,
        );
        match line_outcome(lines[n - 1], n as usize) {
            LineOutcome::Instr(iv) => {
                lemma_non_label_count_push(prev, iv, prev.len() as int);
            },
            _ => {},
        }
    }
}

/// A program holding only labels, blank lines and comments produces an
/// empty output.
pub proof fn lemma_labels_only_empty_output(a: AssemblerView, lines: Seq<Seq<char>>)
    requires
        a.errors.len() == 0,
        a.line_number + lines.len() <= usize::MAX,
        forall|k: int|
            0 <= k < lines.len() ==> (line_outcome(lines[k], (k + 1) as usize) is Skip
                || line_outcome(lines[k], (k + 1) as usize) matches LineOutcome::Instr(
                InstructionView::L(_),
            )),
    ensures
        assemble_spec(a, lines) == Ok::<Seq<Seq<char>>, Seq<AsmErrorView>>(Seq::empty()),
{
    lemma_labels_only_at(a, lines, lines.len() as int);
    let p1 = pass1_at(pass1_init(a), lines, lines.len() as int);
    let instrs = instructions_at(lines, lines.len() as int);
    lemma_emit_count(instrs, p1.symbols, instrs.len() as int);
    assert(emit_lines_at(instrs, p1.symbols, instrs.len() as int) =~= Seq::<Seq<char>>::empty());
}

/// A blank or comment-only line advances nothing: pass 1's symbol table,
/// diagnostics and instruction address are untouched, and the line adds
/// no instruction, so emission (and with it the variable cursor) never
/// sees it.
pub proof fn lemma_skip_line_advances_nothing(init: Pass1State, lines: Seq<Seq<char>>, k: int)
    requires
        0 <= k < lines.len(),
        forall|m: usize| line_outcome(lines[k], m) is Skip,
    ensures
        pass1_at(init, lines, k + 1).symbols == pass1_at(init, lines, k).symbols,
        pass1_at(init, lines, k + 1).errors == pass1_at(init, lines, k).errors,
        pass1_at(init, lines, k + 1).current_address == pass1_at(init, lines, k).current_address,
        instructions_at(lines, k + 1) == instructions_at(lines, k),
{
    assert(line_outcome(lines[k], (pass1_at(init, lines, k).line_number + 1) as usize) is Skip);
    assert(line_outcome(lines[k], (k + 1) as usize) is Skip);
}

} // verus!
