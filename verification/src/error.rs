//! Diagnostics: per-line errors and the aggregate error a failed
//! translation returns.

use vstd::prelude::*;

use crate::text::{decimal_digits, decimal_string};

verus! {

/// A diagnostic tied to one source line (1-based).
#[derive(Debug)]
pub enum AsmError {
    /// A token that should have been recognizable was not.
    InvalidInstruction { line: usize, instruction: String },
    /// A structural problem with the line itself, such as non-ASCII content.
    SyntaxError { line: usize, message: String },
}

/// The mathematical shape of an `AsmError`: payload strings as character
/// sequences.
pub enum AsmErrorView {
    InvalidInstruction { line: usize, instruction: Seq<char> },
    SyntaxError { line: usize, message: Seq<char> },
}

impl View for AsmError {
    type V = AsmErrorView;

    open spec fn view(&self) -> AsmErrorView {
        match self {
            AsmError::InvalidInstruction { line, instruction } => AsmErrorView::InvalidInstruction {
                line: *line,
                instruction: instruction@,
            },
            AsmError::SyntaxError { line, message } => AsmErrorView::SyntaxError {
                line: *line,
                message: message@,
            },
        }
    }
}

impl DeepView for AsmError {
    type V = AsmErrorView;

    open spec fn deep_view(&self) -> AsmErrorView {
        self.view()
    }
}

impl Clone for AsmError {
    fn clone(&self) -> (res: Self)
        ensures
            res == *self,
    {
        match self {
            AsmError::InvalidInstruction { line, instruction } => AsmError::InvalidInstruction {
                line: *line,
                instruction: instruction.clone(),
            },
            AsmError::SyntaxError { line, message } => AsmError::SyntaxError {
                line: *line,
                message: message.clone(),
            },
        }
    }
}

/// The one-line rendering of a diagnostic.
pub open spec fn asm_error_message(e: AsmErrorView) -> Seq<char> {
    match e {
        AsmErrorView::InvalidInstruction { line, instruction } => "Invalid instruction on line "@
            + decimal_digits(line as int) + ": "@ + instruction,
        AsmErrorView::SyntaxError { line, message } => "Syntax error on line "@ + decimal_digits(
            line as int,
        ) + ": "@ + message,
    }
}

impl AsmError {
    /// Renders the diagnostic as the driver prints it.
    pub fn message(&self) -> (r: String)
        ensures
            r@ == asm_error_message(self@),
    {
        match self {
            AsmError::InvalidInstruction { line, instruction } => {
                let mut s = String::from_str("Invalid instruction on line ");
                let d = decimal_string(*line);
                s.append(d.as_str());
                s.append(": ");
                s.append(instruction.as_str());
                proof {
                    assert(s@ =~= asm_error_message(self@));
                }
                s
            },
            AsmError::SyntaxError { line, message } => {
                let mut s = String::from_str("Syntax error on line ");
                let d = decimal_string(*line);
                s.append(d.as_str());
                s.append(": ");
                s.append(message.as_str());
                proof {
                    assert(s@ =~= asm_error_message(self@));
                }
                s
            },
        }
    }
}

/// The error of a whole translation: every per-line diagnostic the two
/// passes accumulated, in source order.
#[derive(Debug)]
pub enum AssemblyError {
    AsmErrors(Vec<AsmError>),
}

impl View for AssemblyError {
    type V = Seq<AsmErrorView>;

    open spec fn view(&self) -> Seq<AsmErrorView> {
        match self {
            AssemblyError::AsmErrors(errors) => errors.deep_view(),
        }
    }
}

impl Clone for AssemblyError {
    fn clone(&self) -> (res: Self)
        ensures
            res@ == self@,
    {
        match self {
            AssemblyError::AsmErrors(errors) => {
                let c = errors.clone();
                proof {
                    assert(c.deep_view() =~= errors.deep_view());
                }
                AssemblyError::AsmErrors(c)
            },
        }
    }
}

/// The multi-line rendering of a failed translation: a header, then each
/// diagnostic on a line of its own.
pub open spec fn assembly_error_message(errors: Seq<AsmErrorView>) -> Seq<char>
    decreases errors.len(),
{
    if errors.len() == 0 {
        "Assembly encountered the following errors:\n"@
    } else {
        assembly_error_message(errors.drop_last()) + "  - "@ + asm_error_message(errors.last())
            + "\n"@
    }
}

impl AssemblyError {
    /// Renders the aggregate error as the driver prints it.
    pub fn message(&self) -> (r: String)
        ensures
            r@ == assembly_error_message(self@),
    {
        match self {
            AssemblyError::AsmErrors(errors) => {
                let mut s = String::from_str("Assembly encountered the following errors:\n");
                let mut i: usize = 0;
                while i < errors.len()
                    invariant
                        0 <= i <= errors.len(),
                        s@ == assembly_error_message(errors.deep_view().subrange(0, i as int)),
                    decreases errors.len() - i,
                {
                    s.append("  - ");
                    let m = errors[i].message();
                    s.append(m.as_str());
                    s.append("\n");
                    proof {
                        let p = errors.deep_view().subrange(0, i + 1);
                        assert(p.drop_last() =~= errors.deep_view().subrange(0, i as int));
                        assert(p.last() == errors[i as int]@);
                        assert(s@ =~= assembly_error_message(p));
                    }
                    i = i + 1;
                }
                proof {
                    assert(errors.deep_view().subrange(0, errors.len() as int)
                        =~= errors.deep_view());
                }
                s
            },
        }
    }
}

} // verus!
