//! Start-up options of the emulator shell. Parsing the command line is the
//! shell's concern; the core only carries the chosen values.
use vstd::prelude::*;

verus! {

pub struct Options {
    pub memory_size: Option<usize>,
    pub elf_file: Option<String>,
    pub exec_flag: bool,
    pub traceall: bool,
}

impl Default for Options {
    fn default() -> (r: Self)
        ensures
            r.memory_size is None,
            r.elf_file is None,
            !r.exec_flag,
            !r.traceall,
    {
        Options { memory_size: None, elf_file: None, exec_flag: false, traceall: false }
    }
}

} // verus!
