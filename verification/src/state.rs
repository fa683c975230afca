use crate::fault::Fault;
use crate::memory::{Heap, Memory};
use vstd::prelude::*;

verus! {

/// The mathematical content of a [`UniversalMachine`]. Its operations say
/// what the fourteen instructions do.
pub struct MachineState {
    /// The eight registers.
    pub registers: Seq<u32>,
    /// The segments and the free identifiers.
    pub memory: Heap,
    /// The offset in segment 0 of the next instruction to fetch.
    pub program_counter: nat,
}

impl MachineState {
    /// There are eight registers, and the memory is well formed.
    pub open spec fn wf(self) -> bool {
        self.registers.len() == 8 && self.memory.wf()
    }

    /// The state of a machine that has just been created.
    pub open spec fn initial() -> MachineState {
        MachineState {
            registers: Seq::new(8, |i: int| 0u32),
            memory: Heap::initial(),
            program_counter: 0,
        }
    }

    /// The word in register `index`.
    pub open spec fn reg(self, index: u32) -> u32
        recommends
            index < 8,
    {
        self.registers[index as int]
    }

    /// The state with `value` in register `index`.
    pub open spec fn with_reg(self, index: u32, value: u32) -> MachineState
        recommends
            index < 8,
    {
        MachineState { registers: self.registers.update(index as int, value), ..self }
    }

    /// Segment 0 replaced by `words`.
    pub open spec fn install(self, words: Seq<u32>) -> MachineState {
        MachineState { memory: self.memory.install(words), ..self }
    }

    /// The word under the program counter, and the state with the counter
    /// moved past it.
    pub open spec fn fetch(self) -> Result<(MachineState, u32), Fault> {
        if self.program_counter < self.memory.words(0).len() {
            Ok(
                (
                    MachineState { program_counter: self.program_counter + 1, ..self },
                    self.memory.words(0)[self.program_counter as int],
                ),
            )
        } else {
            Err(Fault::SegmentFault)
        }
    }

    /// Conditional move: register `a` takes the word of register `b` where
    /// register `c` is not zero; else nothing changes.
    pub open spec fn cmov(self, a: u32, b: u32, c: u32) -> MachineState {
        if self.reg(c) != 0 {
            self.with_reg(a, self.reg(b))
        } else {
            self
        }
    }

    /// Segment load: register `a` takes the word at offset register `c` of
    /// segment register `b`.
    pub open spec fn load(self, a: u32, b: u32, c: u32) -> Result<MachineState, Fault> {
        match self.memory.read(self.reg(b), self.reg(c)) {
            Ok(word) => Ok(self.with_reg(a, word)),
            Err(fault) => Err(fault),
        }
    }

    /// Segment store: the word at offset register `b` of segment register
    /// `a` becomes register `c`.
    pub open spec fn store(self, a: u32, b: u32, c: u32) -> Result<MachineState, Fault> {
        match self.memory.write(self.reg(a), self.reg(b), self.reg(c)) {
            Ok(memory) => Ok(MachineState { memory, ..self }),
            Err(fault) => Err(fault),
        }
    }

    /// Addition: register `a` takes the sum of registers `b` and `c`, modulo
    /// 2^32.
    pub open spec fn add(self, a: u32, b: u32, c: u32) -> MachineState {
        self.with_reg(a, ((self.reg(b) + self.reg(c)) % 0x1_0000_0000) as u32)
    }

    /// Multiplication: register `a` takes the product of registers `b` and
    /// `c`, modulo 2^32.
    pub open spec fn multiply(self, a: u32, b: u32, c: u32) -> MachineState {
        self.with_reg(a, ((self.reg(b) * self.reg(c)) % 0x1_0000_0000) as u32)
    }

    /// Division: register `a` takes the quotient of register `b` by register
    /// `c`, rounded down; a zero divisor is a fault.
    pub open spec fn division(self, a: u32, b: u32, c: u32) -> Result<MachineState, Fault> {
        if self.reg(c) == 0 {
            Err(Fault::DivisionByZero)
        } else {
            Ok(self.with_reg(a, self.reg(b) / self.reg(c)))
        }
    }

    /// Bitwise NAND: register `a` takes the complement of the conjunction of
    /// registers `b` and `c`.
    pub open spec fn nand(self, a: u32, b: u32, c: u32) -> MachineState {
        self.with_reg(a, !(self.reg(b) & self.reg(c)))
    }

    /// Map segment: a zeroed segment of register `c` words is mapped, and
    /// register `b` takes its identifier.
    pub open spec fn map_seg(self, b: u32, c: u32) -> Result<MachineState, Fault> {
        match self.memory.map(self.reg(c)) {
            Ok((memory, id)) => Ok(MachineState { memory, ..self }.with_reg(b, id)),
            Err(fault) => Err(fault),
        }
    }

    /// Unmap segment: the segment named by register `c` is given back.
    pub open spec fn unmap_seg(self, c: u32) -> Result<MachineState, Fault> {
        match self.memory.unmap(self.reg(c)) {
            Ok(memory) => Ok(MachineState { memory, ..self }),
            Err(fault) => Err(fault),
        }
    }

    /// Output: the byte that register `c` asks to emit; a word above 255 is
    /// a fault.
    pub open spec fn output(self, c: u32) -> Result<u8, Fault> {
        if self.reg(c) <= 255 {
            Ok(self.reg(c) as u8)
        } else {
            Err(Fault::InvalidOutputValue)
        }
    }

    /// Input: register `c` takes `byte`, or all ones at the end of the
    /// stream.
    pub open spec fn input(self, c: u32, byte: Option<u8>) -> MachineState {
        match byte {
            Some(byte) => self.with_reg(c, byte as u32),
            None => self.with_reg(c, 0xFFFF_FFFF),
        }
    }

    /// Load program: the program counter becomes register `c`; before that,
    /// where register `b` names a segment other than 0, segment 0 becomes a
    /// copy of it.
    pub open spec fn load_prog(self, b: u32, c: u32) -> Result<MachineState, Fault> {
        let source = self.reg(b);
        if source == 0 {
            Ok(MachineState { program_counter: self.reg(c) as nat, ..self })
        } else if self.memory.is_mapped(source) {
            Ok(
                MachineState {
                    memory: self.memory.install(self.memory.words(source)),
                    program_counter: self.reg(c) as nat,
                    ..self
                },
            )
        } else {
            Err(Fault::SegmentFault)
        }
    }

    /// Load value: register `a` takes `value`.
    pub open spec fn load_value(self, a: u32, value: u32) -> MachineState {
        self.with_reg(a, value)
    }

    /// After a load program from a mapped segment other than 0, segment 0
    /// holds a copy of that segment and the program counter is what register
    /// `c` held: the next fetch reads the copy at that offset.
    pub proof fn lemma_load_prog_redirects_fetch(self, b: u32, c: u32)
        requires
            self.wf(),
            b < 8,
            c < 8,
            self.reg(b) != 0,
            self.memory.is_mapped(self.reg(b)),
        ensures
            ({
                &&& self.load_prog(b, c) matches Ok(loaded)
                &&& loaded.wf()
                &&& loaded.memory.words(0) == self.memory.words(self.reg(b))
                &&& loaded.program_counter == self.reg(c)
                &&& self.reg(c) < self.memory.words(self.reg(b)).len() ==> {
                    &&& loaded.fetch() matches Ok((_, word))
                    &&& word == self.memory.words(self.reg(b))[self.reg(c) as int]
                }
            }),
    {
        self.memory.lemma_install_wf(self.memory.words(self.reg(b)));
    }
}

/// Representation of the Universal Machine: eight general-purpose registers
/// of one word each, a segmented memory whose segment 0 holds the running
/// program, and a program counter.
#[derive(Clone, Debug, PartialEq)]
pub struct UniversalMachine {
    registers: [u32; 8],
    memory: Memory,
    program_counter: usize,
}

impl View for UniversalMachine {
    type V = MachineState;

    closed spec fn view(&self) -> MachineState {
        MachineState {
            registers: self.registers@,
            memory: self.memory@,
            program_counter: self.program_counter as nat,
        }
    }
}

impl UniversalMachine {
    /// What every machine made by [`UniversalMachine::new`] satisfies, and
    /// every operation keeps.
    pub open spec fn wf(&self) -> bool {
        self@.wf()
    }

    /// Creates a machine with every register zero, an empty segment 0 and
    /// the program counter at 0.
    pub fn new() -> (machine: Self)
        ensures
            machine.wf(),
            machine@ == MachineState::initial(),
    {
        let machine = UniversalMachine {
            registers: [0u32; 8],
            memory: Memory::new(),
            program_counter: 0,
        };
        proof {
            assert(machine@.registers =~= MachineState::initial().registers);
        }
        machine
    }

    /// The eight registers.
    pub fn registers(&self) -> (registers: [u32; 8])
        ensures
            registers@ == self@.registers,
    {
        self.registers
    }

    /// The offset in segment 0 of the next instruction to fetch.
    pub fn program_counter(&self) -> (counter: usize)
        ensures
            counter == self@.program_counter,
    {
        self.program_counter
    }

    /// The segmented memory, to read.
    pub fn memory(&self) -> (memory: &Memory)
        ensures
            memory@ == self@.memory,
    {
        &self.memory
    }

    /// Replaces the contents of segment 0, the running program, by `words`.
    /// The program counter stays where it is.
    pub fn install(&mut self, words: Vec<u32>)
        requires
            old(self).wf(),
        ensures
            final(self).wf(),
            final(self)@ == old(self)@.install(words@),
    {
        self.memory.install(words);
    }

    /// Reads the instruction word under the program counter and moves the
    /// counter past it. A counter that points outside segment 0 is refused
    /// with `SegmentFault`, and nothing changes.
    pub fn fetch(&mut self) -> (result: Result<u32, Fault>)
        requires
            old(self).wf(),
        ensures
            final(self).wf(),
            match old(self)@.fetch() {
                Ok((next, word)) => result == Ok::<u32, Fault>(word) && final(self)@ == next,
                Err(fault) => result == Err::<u32, Fault>(fault) && final(self)@ == old(self)@,
            },
    {
        match self.memory.segment(0) {
            Some(program) => {
                if self.program_counter < program.len() {
                    let word: u32 = program[self.program_counter];
                    self.program_counter = self.program_counter + 1;
                    Ok(word)
                } else {
                    Err(Fault::SegmentFault)
                }
            },
            None => Err(Fault::SegmentFault),
        }
    }

    /// Conditional move: copies register `b` to register `a` unless register
    /// `c` holds zero.
    pub fn cmov(&mut self, a: u32, b: u32, c: u32)
        requires
            old(self).wf(),
            a < 8,
            b < 8,
            c < 8,
        ensures
            final(self).wf(),
            final(self)@ == old(self)@.cmov(a, b, c),
            old(self)@.reg(c) == 0 ==> final(self)@ == old(self)@,
    {
        if self.registers[c as usize] == 0 {
            return ;
        }
        self.registers[a as usize] = self.registers[b as usize];
    }

    /// Segment load: reads the word at offset register `c` of segment
    /// register `b` into register `a`. An access outside a mapped segment is
    /// refused with `SegmentFault`.
    pub fn load(&mut self, a: u32, b: u32, c: u32) -> (result: Result<(), Fault>)
        requires
            old(self).wf(),
            a < 8,
            b < 8,
            c < 8,
        ensures
            final(self).wf(),
            match old(self)@.load(a, b, c) {
                Ok(next) => result is Ok && final(self)@ == next,
                Err(fault) => result == Err::<(), Fault>(fault) && final(self)@ == old(self)@,
            },
    {
        let word = self.memory.read(self.registers[b as usize], self.registers[c as usize])?;
        self.registers[a as usize] = word;
        Ok(())
    }

    /// Segment store: writes register `c` at offset register `b` of segment
    /// register `a`. An access outside a mapped segment is refused with
    /// `SegmentFault`.
    pub fn store(&mut self, a: u32, b: u32, c: u32) -> (result: Result<(), Fault>)
        requires
            old(self).wf(),
            a < 8,
            b < 8,
            c < 8,
        ensures
            final(self).wf(),
            match old(self)@.store(a, b, c) {
                Ok(next) => result is Ok && final(self)@ == next,
                Err(fault) => result == Err::<(), Fault>(fault) && final(self)@ == old(self)@,
            },
    {
        self.memory.write(
            self.registers[a as usize],
            self.registers[b as usize],
            self.registers[c as usize],
        )
    }

    /// Addition modulo 2^32 of registers `b` and `c` into register `a`.
    pub fn add(&mut self, a: u32, b: u32, c: u32)
        requires
            old(self).wf(),
            a < 8,
            b < 8,
            c < 8,
        ensures
            final(self).wf(),
            final(self)@ == old(self)@.add(a, b, c),
            final(self)@.reg(a) == (old(self)@.reg(b) + old(self)@.reg(c)) % 0x1_0000_0000,
    {
        self.registers[a as usize] = self.registers[b as usize].wrapping_add(
            self.registers[c as usize],
        );
    }

    /// Multiplication modulo 2^32 of registers `b` and `c` into register `a`.
    pub fn multiply(&mut self, a: u32, b: u32, c: u32)
        requires
            old(self).wf(),
            a < 8,
            b < 8,
            c < 8,
        ensures
            final(self).wf(),
            final(self)@ == old(self)@.multiply(a, b, c),
            final(self)@.reg(a) == (old(self)@.reg(b) * old(self)@.reg(c)) % 0x1_0000_0000,
    {
        self.registers[a as usize] = self.registers[b as usize].wrapping_mul(
            self.registers[c as usize],
        );
    }

    /// Unsigned division of register `b` by register `c` into register `a`.
    /// A zero divisor is refused with `DivisionByZero`.
    pub fn division(&mut self, a: u32, b: u32, c: u32) -> (result: Result<(), Fault>)
        requires
            old(self).wf(),
            a < 8,
            b < 8,
            c < 8,
        ensures
            final(self).wf(),
            match old(self)@.division(a, b, c) {
                Ok(next) => result is Ok && final(self)@ == next,
                Err(fault) => result == Err::<(), Fault>(fault) && final(self)@ == old(self)@,
            },
            old(self)@.reg(c) == 0 ==> result == Err::<(), Fault>(Fault::DivisionByZero)
                && final(self)@ == old(self)@,
    {
        let divisor: u32 = self.registers[c as usize];
        if divisor == 0 {
            return Err(Fault::DivisionByZero);
        }
        self.registers[a as usize] = self.registers[b as usize] / divisor;
        Ok(())
    }

    /// Bitwise NAND of registers `b` and `c` into register `a`.
    pub fn nand(&mut self, a: u32, b: u32, c: u32)
        requires
            old(self).wf(),
            a < 8,
            b < 8,
            c < 8,
        ensures
            final(self).wf(),
            final(self)@ == old(self)@.nand(a, b, c),
    {
        self.registers[a as usize] = !(self.registers[b as usize] & self.registers[c as usize]);
    }

    /// Map segment: maps a zeroed segment of register `c` words and leaves
    /// its identifier in register `b`. The identifier is the one that was
    /// unmapped last, where one is free.
    pub fn map_seg(&mut self, b: u32, c: u32) -> (result: Result<(), Fault>)
        requires
            old(self).wf(),
            b < 8,
            c < 8,
        ensures
            final(self).wf(),
            match old(self)@.map_seg(b, c) {
                Ok(next) => result is Ok && final(self)@ == next,
                Err(fault) => result == Err::<(), Fault>(fault) && final(self)@ == old(self)@,
            },
    {
        let id = self.memory.map(self.registers[c as usize])?;
        self.registers[b as usize] = id;
        Ok(())
    }

    /// Unmap segment: gives the segment named by register `c` back. Segment
    /// 0 and identifiers that are not mapped are refused with `SegmentFault`.
    pub fn unmap_seg(&mut self, c: u32) -> (result: Result<(), Fault>)
        requires
            old(self).wf(),
            c < 8,
        ensures
            final(self).wf(),
            match old(self)@.unmap_seg(c) {
                Ok(next) => result is Ok && final(self)@ == next,
                Err(fault) => result == Err::<(), Fault>(fault) && final(self)@ == old(self)@,
            },
    {
        self.memory.unmap(self.registers[c as usize])
    }

    /// Output: the byte that register `c` asks to emit, for the caller to
    /// write to the output stream. A word above 255 is refused with
    /// `InvalidOutputValue`.
    pub fn output(&self, c: u32) -> (result: Result<u8, Fault>)
        requires
            c < 8,
        ensures
            result == self@.output(c),
    {
        let value: u32 = self.registers[c as usize];
        if value <= 255 {
            Ok(value as u8)
        } else {
            Err(Fault::InvalidOutputValue)
        }
    }

    /// Input: stores in register `c` the byte that the caller read from the
    /// input stream, or all ones when the stream had ended.
    pub fn input(&mut self, c: u32, byte: Option<u8>)
        requires
            old(self).wf(),
            c < 8,
        ensures
            final(self).wf(),
            final(self)@ == old(self)@.input(c, byte),
    {
        let value: u32 = match byte {
            Some(byte) => byte as u32,
            None => u32::MAX,
        };
        self.registers[c as usize] = value;
    }

    /// Load program: replaces segment 0 by a copy of the segment named by
    /// register `b`, unless that is segment 0 itself, and moves the program
    /// counter to register `c`. A segment that is not mapped is refused with
    /// `SegmentFault`.
    pub fn load_prog(&mut self, b: u32, c: u32) -> (result: Result<(), Fault>)
        requires
            old(self).wf(),
            b < 8,
            c < 8,
        ensures
            final(self).wf(),
            match old(self)@.load_prog(b, c) {
                Ok(next) => result is Ok && final(self)@ == next,
                Err(fault) => result == Err::<(), Fault>(fault) && final(self)@ == old(self)@,
            },
    {
        let location: u32 = self.registers[b as usize];
        if location == 0 {
            self.program_counter = self.registers[c as usize] as usize;
            return Ok(());
        }
        let program = match self.memory.segment(location) {
            Some(words) => words.clone(),
            None => {
                return Err(Fault::SegmentFault);
            },
        };
        self.memory.install(program);
        self.program_counter = self.registers[c as usize] as usize;
        Ok(())
    }

    /// Load value: sets register `a` to `value`.
    pub fn load_value(&mut self, a: u32, value: u32)
        requires
            old(self).wf(),
            a < 8,
        ensures
            final(self).wf(),
            final(self)@ == old(self)@.load_value(a, value),
    {
        self.registers[a as usize] = value
    }
}

} // verus!
