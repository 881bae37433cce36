pub mod assembler;
pub mod error;
pub mod instruction;
pub mod symbol_table;
pub mod text;

use vstd::prelude::*;

use crate::text::{rfind_char, rfind_char_at, str_eq};

verus! {

/// Where a path's file name begins: right after its last `/`.
pub open spec fn file_name_start(p: Seq<char>) -> int {
    match rfind_char(p, '/', p.len() as int) {
        Some(k) => k + 1,
        None => 0,
    }
}

/// A path's extension: the text after the last `.` of its file name,
/// unless that dot begins the file name.
pub open spec fn path_extension(p: Seq<char>) -> Option<Seq<char>> {
    match rfind_char(p, '.', p.len() as int) {
        Some(d) => if d > file_name_start(p) {
            Some(p.subrange(d + 1, p.len() as int))
        } else {
            None
        },
        None => None,
    }
}

/// The path with the text after its last `.` replaced by `hack`.
pub open spec fn path_with_hack_extension(p: Seq<char>) -> Seq<char> {
    match rfind_char(p, '.', p.len() as int) {
        Some(d) => p.subrange(0, d + 1) + "hack"@,
        None => p,
    }
}

/// Paths of one translation: the `.asm` source and the `.hack` output
/// derived from it.
pub struct Config {
    pub input_file: String,
    pub output_file: String,
}

impl Config {
    /// Accepts a path whose extension is exactly `asm` and derives the
    /// output path by replacing that extension with `hack`; any other
    /// path is rejected before any file is touched.
    pub fn from_input_path(input_file: String) -> (r: Option<Config>)
        ensures
            r is Some <==> path_extension(input_file@) == Some("asm"@),
            r matches Some(c) ==> c.input_file@ == input_file@ && c.output_file@
                == path_with_hack_extension(input_file@),
    {
        let n = input_file.as_str().unicode_len();
        let slash = rfind_char_at(input_file.as_str(), '/', n);
        let name_start: usize = match slash {
            Some(k) => k + 1,
            None => 0,
        };
        let dot = rfind_char_at(input_file.as_str(), '.', n);
        match dot {
            Some(d) => {
                if d > name_start {
                    let ext = input_file.as_str().substring_char(d + 1, n);
                    if str_eq(ext, "asm") {
                        let mut output_file = input_file.as_str().substring_char(
                            0,
                            d + 1,
                        ).to_owned();
                        output_file.append("hack");
                        Some(Config { input_file, output_file })
                    } else {
                        None
                    }
                } else {
                    None
                }
            },
            None => None,
        }
    }
}

} // verus!
