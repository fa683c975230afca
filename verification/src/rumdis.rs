use crate::fault::Fault;
use crate::state::{MachineState, UniversalMachine};
use vstd::arithmetic::div_mod::{lemma_basic_div, lemma_small_mod};
use vstd::arithmetic::power2::{lemma2_to64, lemma_pow2_pos, lemma_pow2_strictly_increases, pow2};
use vstd::bits::{
    lemma_u32_low_bits_mask_is_mod, lemma_u32_pow2_no_overflow, lemma_u32_shl_is_mul,
    lemma_u32_shr_is_div, low_bits_mask,
};
use vstd::prelude::*;

verus! {

/// The fourteen operations of the machine, in the order of their opcode
/// values 0 to 13.
#[derive(Debug, PartialEq, Eq, Copy, Clone, Structural)]
pub enum Opcode {
    CMov,
    SegLoad,
    SegStore,
    Add,
    Mul,
    Div,
    BNand,
    Halt,
    MapSeg,
    UnmapSeg,
    Output,
    Input,
    LoadProg,
    LoadVal,
}

impl Opcode {
    /// The operation with opcode value `code`: one of the fourteen for 0 to
    /// 13, none for any other value.
    pub open spec fn of(code: u32) -> Option<Opcode> {
        if code == 0 {
            Some(Opcode::CMov)
        } else if code == 1 {
            Some(Opcode::SegLoad)
        } else if code == 2 {
            Some(Opcode::SegStore)
        } else if code == 3 {
            Some(Opcode::Add)
        } else if code == 4 {
            Some(Opcode::Mul)
        } else if code == 5 {
            Some(Opcode::Div)
        } else if code == 6 {
            Some(Opcode::BNand)
        } else if code == 7 {
            Some(Opcode::Halt)
        } else if code == 8 {
            Some(Opcode::MapSeg)
        } else if code == 9 {
            Some(Opcode::UnmapSeg)
        } else if code == 10 {
            Some(Opcode::Output)
        } else if code == 11 {
            Some(Opcode::Input)
        } else if code == 12 {
            Some(Opcode::LoadProg)
        } else if code == 13 {
            Some(Opcode::LoadVal)
        } else {
            None
        }
    }

    /// The operation with opcode value `code`, if there is one.
    pub fn from_u32(code: u32) -> (opcode: Option<Opcode>)
        ensures
            opcode == Opcode::of(code),
    {
        match code {
            0 => Some(Opcode::CMov),
            1 => Some(Opcode::SegLoad),
            2 => Some(Opcode::SegStore),
            3 => Some(Opcode::Add),
            4 => Some(Opcode::Mul),
            5 => Some(Opcode::Div),
            6 => Some(Opcode::BNand),
            7 => Some(Opcode::Halt),
            8 => Some(Opcode::MapSeg),
            9 => Some(Opcode::UnmapSeg),
            10 => Some(Opcode::Output),
            11 => Some(Opcode::Input),
            12 => Some(Opcode::LoadProg),
            13 => Some(Opcode::LoadVal),
            _ => None,
        }
    }
}

/// A run of `width` bits of an instruction word, the lowest of them at bit
/// `lsb`. Bits past bit 31 read as zero.
#[derive(Debug, PartialEq, Eq, Copy, Clone, Structural)]
pub struct Field {
    pub width: u32,
    pub lsb: u32,
}

impl Field {
    /// The number that the bits of the field spell in `word`: `word` shifted
    /// right by `lsb` bits, modulo 2^`width`.
    pub open spec fn value(self, word: u32) -> u32 {
        ((word as nat / pow2(self.lsb as nat)) % pow2(self.width as nat)) as u32
    }

    /// Register A of a three-register instruction: bits 6 to 8.
    pub fn ra() -> (field: Field)
        ensures
            field == (Field { width: 3, lsb: 6 }),
    {
        Field { width: 3, lsb: 6 }
    }

    /// Register B of a three-register instruction: bits 3 to 5.
    pub fn rb() -> (field: Field)
        ensures
            field == (Field { width: 3, lsb: 3 }),
    {
        Field { width: 3, lsb: 3 }
    }

    /// Register C of a three-register instruction: bits 0 to 2.
    pub fn rc() -> (field: Field)
        ensures
            field == (Field { width: 3, lsb: 0 }),
    {
        Field { width: 3, lsb: 0 }
    }

    /// The destination register of a load-value instruction: bits 25 to 27.
    pub fn rl() -> (field: Field)
        ensures
            field == (Field { width: 3, lsb: 25 }),
    {
        Field { width: 3, lsb: 25 }
    }

    /// The immediate of a load-value instruction: bits 0 to 24.
    pub fn vl() -> (field: Field)
        ensures
            field == (Field { width: 25, lsb: 0 }),
    {
        Field { width: 25, lsb: 0 }
    }

    /// The opcode: bits 28 to 31.
    pub fn op() -> (field: Field)
        ensures
            field == (Field { width: 4, lsb: 28 }),
    {
        Field { width: 4, lsb: 28 }
    }
}

/// The word whose low `bits` bits are set, all 32 of them from `bits == 32`
/// on.
fn mask(bits: u32) -> (m: u32)
    ensures
        bits < 32 ==> m == low_bits_mask(bits as nat),
        bits >= 32 ==> m == u32::MAX,
{
    if bits >= 32 {
        u32::MAX
    } else {
        proof {
            lemma_u32_pow2_no_overflow(bits as nat);
            lemma_u32_shl_is_mul(1, bits);
        }
        (1u32 << bits) - 1
    }
}

/// Given a `field` and `instruction`, extract that field from the
/// instruction as a u32. It cannot fail.
pub fn get(field: &Field, instruction: u32) -> (value: u32)
    ensures
        value == field.value(instruction),
{
    if field.lsb >= 32 {
        proof {
            lemma2_to64();
            if field.lsb > 32 {
                lemma_pow2_strictly_increases(32, field.lsb as nat);
            }
            lemma_basic_div(instruction as int, pow2(field.lsb as nat) as int);
            lemma_pow2_pos(field.width as nat);
            lemma_small_mod(0, pow2(field.width as nat));
        }
        return 0;
    }
    let shifted: u32 = instruction >> field.lsb;
    let m: u32 = mask(field.width);
    proof {
        lemma_u32_shr_is_div(instruction, field.lsb);
        if field.width < 32 {
            lemma_u32_pow2_no_overflow(field.width as nat);
            lemma_u32_low_bits_mask_is_mod(shifted, field.width as nat);
        } else {
            lemma2_to64();
            if field.width > 32 {
                lemma_pow2_strictly_increases(32, field.width as nat);
            }
            lemma_small_mod(shifted as nat, pow2(field.width as nat));
            assert(shifted & 0xFFFF_FFFFu32 == shifted) by (bit_vector);
        }
    }
    shifted & m
}

/// The opcode value of an instruction word: its bits 28 to 31.
pub open spec fn opcode_bits(word: u32) -> u32 {
    word / 0x1000_0000
}

/// Register A of a three-register instruction word: its bits 6 to 8.
pub open spec fn reg_a(word: u32) -> u32 {
    (word / 64) % 8
}

/// Register B of a three-register instruction word: its bits 3 to 5.
pub open spec fn reg_b(word: u32) -> u32 {
    (word / 8) % 8
}

/// Register C of a three-register instruction word: its bits 0 to 2.
pub open spec fn reg_c(word: u32) -> u32 {
    word % 8
}

/// The destination register of a load-value instruction word: its bits 25
/// to 27.
pub open spec fn load_reg(word: u32) -> u32 {
    (word / 0x200_0000) % 8
}

/// The immediate of a load-value instruction word: its bits 0 to 24.
pub open spec fn immediate(word: u32) -> u32 {
    word % 0x200_0000
}

/// What the six fields of the two instruction layouts spell, as quotients
/// and remainders of the instruction word.
pub proof fn lemma_layout(word: u32)
    ensures
        (Field { width: 4, lsb: 28 }).value(word) == opcode_bits(word),
        (Field { width: 3, lsb: 6 }).value(word) == reg_a(word),
        (Field { width: 3, lsb: 3 }).value(word) == reg_b(word),
        (Field { width: 3, lsb: 0 }).value(word) == reg_c(word),
        (Field { width: 3, lsb: 25 }).value(word) == load_reg(word),
        (Field { width: 25, lsb: 0 }).value(word) == immediate(word),
{
    lemma2_to64();
    assert(word as nat / 1 == word);
    lemma_small_mod(word as nat / 0x1000_0000, 16);
}

/// Given an instruction word, extract the opcode. Opcode values 14 and 15
/// name no operation.
pub fn op(instruction: u32) -> (opcode: Option<Opcode>)
    ensures
        opcode == Opcode::of(opcode_bits(instruction)),
{
    proof {
        lemma_layout(instruction);
    }
    Opcode::from_u32(get(&Field::op(), instruction))
}

/// What the caller of the machine has to do after an instruction.
#[derive(Debug, PartialEq, Eq, Copy, Clone, Structural)]
pub enum Effect {
    /// Nothing: go on with the next cycle.
    Continue,
    /// The program has halted: execute nothing further.
    Halt,
    /// Write this byte to the output stream, then go on.
    Output(u8),
    /// Read one byte from the input stream and hand it to
    /// [`UniversalMachine::input`] for this register, then go on.
    Input(u32),
}

/// The outcome of an operation that leaves nothing to the caller.
pub open spec fn silent(outcome: Result<MachineState, Fault>) -> Result<
    (MachineState, Effect),
    Fault,
> {
    match outcome {
        Ok(next) => Ok((next, Effect::Continue)),
        Err(fault) => Err(fault),
    }
}

/// What the instruction `word` does to `state`: the next state and the
/// effect left to the caller, or the fault that it raises.
pub open spec fn execute(state: MachineState, word: u32) -> Result<(MachineState, Effect), Fault> {
    let a = reg_a(word);
    let b = reg_b(word);
    let c = reg_c(word);
    match Opcode::of(opcode_bits(word)) {
        Some(Opcode::CMov) => Ok((state.cmov(a, b, c), Effect::Continue)),
        Some(Opcode::SegLoad) => silent(state.load(a, b, c)),
        Some(Opcode::SegStore) => silent(state.store(a, b, c)),
        Some(Opcode::Add) => Ok((state.add(a, b, c), Effect::Continue)),
        Some(Opcode::Mul) => Ok((state.multiply(a, b, c), Effect::Continue)),
        Some(Opcode::Div) => silent(state.division(a, b, c)),
        Some(Opcode::BNand) => Ok((state.nand(a, b, c), Effect::Continue)),
        Some(Opcode::Halt) => Ok((state, Effect::Halt)),
        Some(Opcode::MapSeg) => silent(state.map_seg(b, c)),
        Some(Opcode::UnmapSeg) => silent(state.unmap_seg(c)),
        Some(Opcode::Output) => match state.output(c) {
            Ok(byte) => Ok((state, Effect::Output(byte))),
            Err(fault) => Err(fault),
        },
        Some(Opcode::Input) => Ok((state, Effect::Input(c))),
        Some(Opcode::LoadProg) => silent(state.load_prog(b, c)),
        Some(Opcode::LoadVal) => Ok(
            (state.load_value(load_reg(word), immediate(word)), Effect::Continue),
        ),
        None => Err(Fault::InvalidOpcode),
    }
}

/// An instruction keeps the state well formed.
pub proof fn lemma_execute_wf(state: MachineState, word: u32)
    requires
        state.wf(),
    ensures
        execute(state, word) matches Ok((next, _)) ==> next.wf(),
{
    let a = reg_a(word);
    let b = reg_b(word);
    let c = reg_c(word);
    state.memory.lemma_write_wf(state.reg(a), state.reg(b), state.reg(c));
    state.memory.lemma_map_wf(state.reg(c));
    state.memory.lemma_unmap_wf(state.reg(c));
    if state.memory.is_mapped(state.reg(b)) {
        state.memory.lemma_install_wf(state.memory.words(state.reg(b)));
    }
}

/// Load value zero-extends its 25-bit immediate: the destination register
/// ends up holding the immediate, and its upper seven bits are clear.
pub proof fn lemma_load_value_zero_extends(state: MachineState, word: u32)
    requires
        state.wf(),
        Opcode::of(opcode_bits(word)) == Some(Opcode::LoadVal),
    ensures
        ({
            &&& execute(state, word) matches Ok((next, effect))
            &&& effect == Effect::Continue
            &&& next.reg(load_reg(word)) == immediate(word)
            &&& next.reg(load_reg(word)) < 0x200_0000
        }),
{
}

/// A division by zero aborts with `DivisionByZero`, whatever the registers
/// named by the instruction.
pub proof fn lemma_division_by_zero_faults(state: MachineState, word: u32)
    requires
        state.wf(),
        Opcode::of(opcode_bits(word)) == Some(Opcode::Div),
        state.reg(reg_c(word)) == 0,
    ensures
        execute(state, word) == Err::<(MachineState, Effect), Fault>(Fault::DivisionByZero),
{
}

/// Decodes the instruction word `inst` and applies it to `state`. Halting
/// and the transfer of bytes are left to the caller, as the effect says. On a
/// fault the state is left as it was.
pub fn disassemble(inst: u32, state: &mut UniversalMachine) -> (result: Result<Effect, Fault>)
    requires
        old(state).wf(),
    ensures
        final(state).wf(),
        match execute(old(state)@, inst) {
            Ok((next, effect)) => result == Ok::<Effect, Fault>(effect) && final(state)@ == next,
            Err(fault) => result == Err::<Effect, Fault>(fault) && final(state)@ == old(state)@,
        },
        result matches Ok(Effect::Input(register)) ==> register < 8,
{
    proof {
        lemma_layout(inst);
    }
    match op(inst) {
        Some(Opcode::CMov) => {
            state.cmov(get(&Field::ra(), inst), get(&Field::rb(), inst), get(&Field::rc(), inst));
            Ok(Effect::Continue)
        },
        Some(Opcode::SegLoad) => {
            state.load(get(&Field::ra(), inst), get(&Field::rb(), inst), get(&Field::rc(), inst))?;
            Ok(Effect::Continue)
        },
        Some(Opcode::SegStore) => {
            state.store(get(&Field::ra(), inst), get(&Field::rb(), inst), get(&Field::rc(), inst))?;
            Ok(Effect::Continue)
        },
        Some(Opcode::Add) => {
            state.add(get(&Field::ra(), inst), get(&Field::rb(), inst), get(&Field::rc(), inst));
            Ok(Effect::Continue)
        },
        Some(Opcode::Mul) => {
            state.multiply(
                get(&Field::ra(), inst),
                get(&Field::rb(), inst),
                get(&Field::rc(), inst),
            );
            Ok(Effect::Continue)
        },
        Some(Opcode::Div) => {
            state.division(
                get(&Field::ra(), inst),
                get(&Field::rb(), inst),
                get(&Field::rc(), inst),
            )?;
            Ok(Effect::Continue)
        },
        Some(Opcode::BNand) => {
            state.nand(get(&Field::ra(), inst), get(&Field::rb(), inst), get(&Field::rc(), inst));
            Ok(Effect::Continue)
        },
        Some(Opcode::Halt) => Ok(Effect::Halt),
        Some(Opcode::MapSeg) => {
            state.map_seg(get(&Field::rb(), inst), get(&Field::rc(), inst))?;
            Ok(Effect::Continue)
        },
        Some(Opcode::UnmapSeg) => {
            state.unmap_seg(get(&Field::rc(), inst))?;
            Ok(Effect::Continue)
        },
        Some(Opcode::Output) => {
            let byte = state.output(get(&Field::rc(), inst))?;
            Ok(Effect::Output(byte))
        },
        Some(Opcode::Input) => Ok(Effect::Input(get(&Field::rc(), inst))),
        Some(Opcode::LoadProg) => {
            state.load_prog(get(&Field::rb(), inst), get(&Field::rc(), inst))?;
            Ok(Effect::Continue)
        },
        Some(Opcode::LoadVal) => {
            state.load_value(get(&Field::rl(), inst), get(&Field::vl(), inst));
            Ok(Effect::Continue)
        },
        None => Err(Fault::InvalidOpcode),
    }
}

/// One cycle of the machine: the instruction under the program counter is
/// fetched, the counter moves past it, and the instruction is executed. A
/// fault of the fetch leaves `state` as it was; a fault of the instruction
/// leaves it as it was after the fetch.
pub open spec fn step(state: MachineState) -> (MachineState, Result<Effect, Fault>) {
    match state.fetch() {
        Ok((fetched, word)) => match execute(fetched, word) {
            Ok((next, effect)) => (next, Ok(effect)),
            Err(fault) => (fetched, Err(fault)),
        },
        Err(fault) => (state, Err(fault)),
    }
}

/// A cycle keeps the state well formed.
pub proof fn lemma_step_wf(state: MachineState)
    requires
        state.wf(),
    ensures
        step(state).0.wf(),
{
    if let Ok((fetched, word)) = state.fetch() {
        lemma_execute_wf(fetched, word);
    }
}

/// A cycle that faults changes no register and no segment: at most the
/// program counter has moved past the instruction that faulted.
pub proof fn lemma_faulting_step_changes_nothing(state: MachineState)
    ensures
        step(state).1 is Err ==> step(state).0.registers == state.registers && step(
            state,
        ).0.memory == state.memory,
{
}

/// Performs one fetch-decode-execute cycle on `state`.
pub fn cycle(state: &mut UniversalMachine) -> (result: Result<Effect, Fault>)
    requires
        old(state).wf(),
    ensures
        final(state).wf(),
        (final(state)@, result) == step(old(state)@),
        result matches Ok(Effect::Input(register)) ==> register < 8,
{
    let word = state.fetch()?;
    disassemble(word, state)
}

/// Where a machine stands between two cycles.
#[derive(Debug, PartialEq, Eq, Copy, Clone, Structural)]
pub enum Status {
    /// Neither halted nor aborted.
    Running,
    /// The program executed its halt instruction.
    Halted,
    /// A fault ended the run.
    Aborted(Fault),
}

/// What a run over a given input stream has come to after some cycles.
pub struct Trace {
    /// The machine as the last cycle left it.
    pub machine: MachineState,
    /// Whether the run can go on.
    pub status: Status,
    /// The bytes emitted so far, in the order of their emission.
    pub output: Seq<u8>,
    /// How many bytes of the input stream have been taken.
    pub consumed: nat,
}

impl Trace {
    /// The beginning of a run: `machine` is running, has emitted nothing and
    /// has taken no input.
    pub open spec fn start(machine: MachineState) -> Trace {
        Trace { machine, status: Status::Running, output: Seq::<u8>::empty(), consumed: 0 }
    }

    /// One cycle further, with the effect of the instruction carried out on
    /// `input` and on the output so far. Past the end of `input` the input
    /// operation sees the end of the stream.
    pub open spec fn advance(self, input: Seq<u8>) -> Trace {
        let (machine, result) = step(self.machine);
        match result {
            Ok(Effect::Continue) => Trace { machine, ..self },
            Ok(Effect::Halt) => Trace { machine, status: Status::Halted, ..self },
            Ok(Effect::Output(byte)) => Trace { machine, output: self.output.push(byte), ..self },
            Ok(Effect::Input(c)) => if self.consumed < input.len() {
                Trace {
                    machine: machine.input(c, Some(input[self.consumed as int])),
                    consumed: self.consumed + 1,
                    ..self
                }
            } else {
                Trace { machine: machine.input(c, None), ..self }
            },
            Err(fault) => Trace { machine, status: Status::Aborted(fault), ..self },
        }
    }

    /// Cycle after cycle until the machine has halted or aborted, or `limit`
    /// cycles are done.
    pub open spec fn run(self, input: Seq<u8>, limit: nat) -> Trace
        decreases limit,
    {
        if limit == 0 || self.status != Status::Running {
            self
        } else {
            self.advance(input).run(input, (limit - 1) as nat)
        }
    }

    /// The run of `program` on `machine`: the program is installed as
    /// segment 0, and the machine runs from its program counter for at most
    /// `limit` cycles.
    pub open spec fn of(
        machine: MachineState,
        program: Seq<u32>,
        input: Seq<u8>,
        limit: nat,
    ) -> Trace {
        Trace::start(machine.install(program)).run(input, limit)
    }
}

/// A run keeps the machine well formed. What was emitted stays emitted and
/// what was read stays read: a run only appends to the output and only moves
/// forward in the input, never past its end.
pub proof fn lemma_run_extends(trace: Trace, input: Seq<u8>, limit: nat)
    requires
        trace.machine.wf(),
        trace.consumed <= input.len(),
    ensures
        trace.run(input, limit).machine.wf(),
        trace.output.is_prefix_of(trace.run(input, limit).output),
        trace.consumed <= trace.run(input, limit).consumed <= input.len(),
    decreases limit,
{
    if limit > 0 && trace.status == Status::Running {
        lemma_step_wf(trace.machine);
        let next = trace.advance(input);
        lemma_run_extends(next, input, (limit - 1) as nat);
    }
}

/// A machine that has halted or aborted stays as it is, however many cycles
/// it is given.
pub proof fn lemma_run_ended(trace: Trace, input: Seq<u8>, limit: nat)
    requires
        trace.status != Status::Running,
    ensures
        trace.run(input, limit) == trace,
{
}

/// The outcome of [`run`].
#[derive(Debug, PartialEq, Eq, Clone)]
pub struct Execution {
    /// `Halted` or `Aborted` where the program came to an end, `Running`
    /// where the cycle limit ended the run first.
    pub status: Status,
    /// The bytes that the program emitted, in order.
    pub output: Vec<u8>,
    /// How many bytes of the input the program has read.
    pub consumed: usize,
}

/// Installs the program `instr` as segment 0 of `state` and runs it from the
/// program counter of `state`, for at most `limit` cycles. The input
/// operation reads `input` byte by byte and sees the end of the stream after
/// its last byte; what the output operation emits is collected. The outcome
/// is a function of the machine, the program, the input and the limit alone.
pub fn run(state: &mut UniversalMachine, instr: Vec<u32>, input: &[u8], limit: u64) -> (execution:
    Execution)
    requires
        old(state).wf(),
    ensures
        final(state).wf(),
        final(state)@ == Trace::of(old(state)@, instr@, input@, limit as nat).machine,
        execution.status == Trace::of(old(state)@, instr@, input@, limit as nat).status,
        execution.output@ == Trace::of(old(state)@, instr@, input@, limit as nat).output,
        execution.consumed == Trace::of(old(state)@, instr@, input@, limit as nat).consumed,
{
    let ghost goal = Trace::of(old(state)@, instr@, input@, limit as nat);
    state.install(instr);
    let mut status = Status::Running;
    let mut output: Vec<u8> = Vec::new();
    let mut consumed: usize = 0;
    let mut left: u64 = limit;
    let mut running = true;
    while left > 0 && running
        invariant
            state.wf(),
            running == (status == Status::Running),
            consumed <= input@.len(),
            (Trace { machine: state@, status, output: output@, consumed: consumed as nat }).run(
                input@,
                left as nat,
            ) == goal,
        decreases left,
    {
        match cycle(state) {
            Ok(Effect::Continue) => {},
            Ok(Effect::Halt) => {
                status = Status::Halted;
                running = false;
            },
            Ok(Effect::Output(byte)) => {
                output.push(byte);
            },
            Ok(Effect::Input(c)) => {
                if consumed < input.len() {
                    state.input(c, Some(input[consumed]));
                    consumed = consumed + 1;
                } else {
                    state.input(c, None);
                }
            },
            Err(fault) => {
                status = Status::Aborted(fault);
                running = false;
            },
        }
        left = left - 1;
    }
    Execution { status, output, consumed }
}

} // verus!
