use vstd::prelude::*;
use crate::chip_8::{initial, max_program_len, Chip8};
use crate::emu_err::EmuErr;
use crate::machine::Quirks;
use crate::memory::{MEM_SIZE, PG_START};

verus! {

/// Collects a program and the quirks to build a `Chip8` with.
pub struct Chip8Builder<'a> {
    program: Option<&'a [u8]>,
    quirks: Quirks,
}

impl<'a> Chip8Builder<'a> {
    /// The program given so far, if any.
    pub closed spec fn program_spec(&self) -> Option<Seq<u8>> {
        match self.program {
            Some(p) => Some(p@),
            None => None,
        }
    }

    /// The quirks chosen so far.
    pub closed spec fn quirks_spec(&self) -> Quirks {
        self.quirks
    }

    /// No program yet, every quirk off.
    pub fn new() -> (r: Self)
        ensures
            r.program_spec() is None,
            r.quirks_spec() == (Quirks { vf_reset_quirk: false, jumping_quirk: false }),
    {
        Self { program: None, quirks: Quirks { vf_reset_quirk: false, jumping_quirk: false } }
    }

    pub fn with_program(self, program: &'a [u8]) -> (r: Self)
        ensures
            r.program_spec() == Some(program@),
            r.quirks_spec() == self.quirks_spec(),
    {
        Self { program: Some(program), quirks: self.quirks }
    }

    pub fn with_vf_reset_quirk(self) -> (r: Self)
        ensures
            r.program_spec() == self.program_spec(),
            r.quirks_spec() == (Quirks { vf_reset_quirk: true, ..self.quirks_spec() }),
    {
        Self { program: self.program, quirks: Quirks { vf_reset_quirk: true, ..self.quirks } }
    }

    pub fn with_jumping_quirk(self) -> (r: Self)
        ensures
            r.program_spec() == self.program_spec(),
            r.quirks_spec() == (Quirks { jumping_quirk: true, ..self.quirks_spec() }),
    {
        Self { program: self.program, quirks: Quirks { jumping_quirk: true, ..self.quirks } }
    }

    /// The machine with the program loaded; fails when the program is too long.
    pub fn build(self) -> (r: Result<Chip8, EmuErr>)
        requires
            self.program_spec() is Some,
        ensures
            self.program_spec()->0.len() <= max_program_len() <==> r is Ok,
            r is Ok ==> r->Ok_0.wf() && r->Ok_0@ == initial(self.quirks_spec(), self.program_spec()->0),
            r is Err ==> r == Err::<Chip8, EmuErr>(
                EmuErr::ProgramLength {
                    pg_len: self.program_spec()->0.len() as usize,
                    max_len: (MEM_SIZE - PG_START) as usize,
                },
            ),
    {
        match self.program {
            Some(program) => Chip8::new(self.quirks, program),
            None => vstd::pervasive::unreached(),
        }
    }
}

} // verus!
