use vstd::prelude::*;

use crate::ast::{AstNode, nodes_view};
use crate::instr::{Instr, InstrSpec, brackets_ok, compile, compile_seq_spec, instr_view, instrs_view};

verus! {

broadcast use vstd::std_specs::vec::group_vec_axioms;

/// A fatal condition met while executing a program.
#[derive(Clone, Copy, Debug, PartialEq, Eq, Structural)]
pub enum VmError {
    /// The data pointer was advanced past the machine's address range.
    PointerOverflow,
    /// The data pointer was moved below cell zero.
    PointerUnderflow,
    /// A bulk operation addressed a cell below zero.
    TargetBelowZero,
    /// A bulk operation addressed a cell beyond the tape.
    TargetOutOfBounds,
    /// A bracket offset moved the program counter out of range.
    ProgramCounterOverflow,
    /// The driver's step budget ran out before the program terminated.
    StepLimitExceeded,
}

/// The whole state of the virtual machine, as a mathematical value.
pub struct VmSpec {
    pub program: Seq<InstrSpec>,
    pub memory: Seq<u8>,
    pub pc: int,
    pub dp: int,
    pub input: Seq<u8>,
    pub input_pos: int,
    pub output: Seq<u8>,
}

/// The outcome of one instruction: normal termination, a fatal error
/// (with the state as the error left it), or the next state.
pub enum StepSpec {
    Halted,
    Failed(VmError, VmSpec),
    Stepped(VmSpec),
}

/// The tape length after growing for a data pointer at `dp`: double the
/// current length (capped at the address range), or just past `dp`,
/// whichever is larger.
pub open spec fn grow_len(len: int, dp: int) -> int {
    let dbl = if len <= (usize::MAX as int) / 2 {
        2 * len
    } else {
        usize::MAX as int
    };
    if dbl >= dp + 1 {
        dbl
    } else {
        dp + 1
    }
}

/// The grown tape: old cells kept, new cells zero.
pub open spec fn grow_mem(mem: Seq<u8>, dp: int) -> Seq<u8> {
    Seq::new(
        grow_len(mem.len() as int, dp) as nat,
        |i: int|
            if 0 <= i < mem.len() {
                mem[i]
            } else {
                0u8
            },
    )
}

/// Where a bulk operation lands, or why it cannot.
pub open spec fn target_spec(dp: int, off: int, len: int) -> Result<int, VmError> {
    if dp + off < 0 {
        Err(VmError::TargetBelowZero)
    } else if dp + off >= len {
        Err(VmError::TargetOutOfBounds)
    } else {
        Ok(dp + off)
    }
}

/// Add (or subtract, when `sub`) `val` to the cells at each offset in turn,
/// modulo 256.  An offset out of range stops the walk and reports the tape
/// as changed so far.
pub open spec fn apply_targets(
    mem: Seq<u8>,
    dp: int,
    val: u8,
    offs: Seq<i16>,
    i: int,
    sub: bool,
) -> Result<Seq<u8>, (VmError, Seq<u8>)>
    decreases offs.len() - i,
{
    if i >= offs.len() {
        Ok(mem)
    } else {
        match target_spec(dp, offs[i] as int, mem.len() as int) {
            Err(e) => Err((e, mem)),
            Ok(t) => {
                let cell = if sub {
                    (((mem[t] - val) % 256) as u8)
                } else {
                    (((mem[t] + val) % 256) as u8)
                };
                apply_targets(mem.update(t, cell), dp, val, offs, i + 1, sub)
            },
        }
    }
}

/// The reference semantics: what one dispatch step of the machine does.
#[verifier::opaque]
pub open spec fn spec_step(s: VmSpec) -> StepSpec {
    if s.pc >= s.program.len() {
        // Terminate when the program counter leaves the program.
        StepSpec::Halted
    } else if s.dp >= s.memory.len() && s.dp + 1 > usize::MAX as int {
        StepSpec::Failed(VmError::PointerOverflow, s)
    } else {
        let s1 = if s.dp >= s.memory.len() {
            VmSpec { memory: grow_mem(s.memory, s.dp), ..s }
        } else {
            s
        };
        let cur = s1.memory[s1.dp];
        match s1.program[s1.pc] {
            InstrSpec::Incr(n) => StepSpec::Stepped(
                VmSpec {
                    memory: s1.memory.update(s1.dp, ((cur + n) % 256) as u8),
                    pc: s1.pc + 1,
                    ..s1
                },
            ),
            InstrSpec::Decr(n) => StepSpec::Stepped(
                VmSpec {
                    memory: s1.memory.update(s1.dp, ((cur - n) % 256) as u8),
                    pc: s1.pc + 1,
                    ..s1
                },
            ),
            InstrSpec::Next(n) => if s1.dp + n > usize::MAX as int {
                StepSpec::Failed(VmError::PointerOverflow, s1)
            } else {
                StepSpec::Stepped(VmSpec { dp: s1.dp + n, pc: s1.pc + 1, ..s1 })
            },
            InstrSpec::Prev(n) => if s1.dp < n {
                StepSpec::Failed(VmError::PointerUnderflow, s1)
            } else {
                StepSpec::Stepped(VmSpec { dp: s1.dp - n, pc: s1.pc + 1, ..s1 })
            },
            InstrSpec::Print => StepSpec::Stepped(
                VmSpec { output: s1.output.push(cur), pc: s1.pc + 1, ..s1 },
            ),
            InstrSpec::Read => if s1.input_pos < s1.input.len() {
                StepSpec::Stepped(
                    VmSpec {
                        memory: s1.memory.update(s1.dp, s1.input[s1.input_pos]),
                        input_pos: s1.input_pos + 1,
                        pc: s1.pc + 1,
                        ..s1
                    },
                )
            } else {
                // An exhausted input source delivers newlines forever.
                StepSpec::Stepped(
                    VmSpec { memory: s1.memory.update(s1.dp, 10u8), pc: s1.pc + 1, ..s1 },
                )
            },
            InstrSpec::SetTo(v) => StepSpec::Stepped(
                VmSpec { memory: s1.memory.update(s1.dp, v), pc: s1.pc + 1, ..s1 },
            ),
            InstrSpec::AddTo(offs) => if cur == 0 {
                StepSpec::Stepped(VmSpec { pc: s1.pc + 1, ..s1 })
            } else {
                match apply_targets(s1.memory, s1.dp, cur, offs, 0, false) {
                    Ok(m2) => StepSpec::Stepped(
                        VmSpec { memory: m2.update(s1.dp, 0u8), pc: s1.pc + 1, ..s1 },
                    ),
                    Err((e, m2)) => StepSpec::Failed(e, VmSpec { memory: m2, ..s1 }),
                }
            },
            InstrSpec::SubFrom(offs) => if cur == 0 {
                StepSpec::Stepped(VmSpec { pc: s1.pc + 1, ..s1 })
            } else {
                match apply_targets(s1.memory, s1.dp, cur, offs, 0, true) {
                    Ok(m2) => StepSpec::Stepped(
                        VmSpec { memory: m2.update(s1.dp, 0u8), pc: s1.pc + 1, ..s1 },
                    ),
                    Err((e, m2)) => StepSpec::Failed(e, VmSpec { memory: m2, ..s1 }),
                }
            },
            InstrSpec::MultiplyAddTo(off, k) => if cur == 0 {
                StepSpec::Stepped(VmSpec { pc: s1.pc + 1, ..s1 })
            } else {
                match target_spec(s1.dp, off as int, s1.memory.len() as int) {
                    Err(e) => StepSpec::Failed(e, s1),
                    Ok(t) => {
                        let val = ((cur * k) % 256) as u8;
                        StepSpec::Stepped(
                            VmSpec {
                                memory: s1.memory.update(
                                    t,
                                    ((s1.memory[t] + val) % 256) as u8,
                                ).update(s1.dp, 0u8),
                                pc: s1.pc + 1,
                                ..s1
                            },
                        )
                    },
                }
            },
            InstrSpec::BeginLoop(off) => if cur == 0 {
                if s1.pc + off + 1 > usize::MAX as int {
                    StepSpec::Failed(VmError::ProgramCounterOverflow, s1)
                } else {
                    StepSpec::Stepped(VmSpec { pc: s1.pc + off + 1, ..s1 })
                }
            } else {
                StepSpec::Stepped(VmSpec { pc: s1.pc + 1, ..s1 })
            },
            InstrSpec::EndLoop(off) => if cur != 0 {
                if s1.pc < off {
                    StepSpec::Failed(VmError::ProgramCounterOverflow, s1)
                } else {
                    StepSpec::Stepped(VmSpec { pc: s1.pc - off + 1, ..s1 })
                }
            } else {
                StepSpec::Stepped(VmSpec { pc: s1.pc + 1, ..s1 })
            },
        }
    }
}

/// Bundle loose machine parts into one state value.
pub open spec fn vm_of(
    program: Seq<InstrSpec>,
    memory: Seq<u8>,
    pc: int,
    dp: int,
    input: Seq<u8>,
    input_pos: int,
    output: Seq<u8>,
) -> VmSpec {
    VmSpec { program, memory, pc, dp, input, input_pos, output }
}

/// Validate and calculate the target cell for an operation with an offset.
pub fn target_position(dp: usize, offset: i16, mem_len: usize) -> (r: Result<usize, VmError>)
    ensures
        match target_spec(dp as int, offset as int, mem_len as int) {
            Ok(t) => r == Ok::<usize, VmError>(t as usize),
            Err(e) => r == Err::<usize, VmError>(e),
        },
{
    if offset < 0 {
        let back = (-(offset as i32)) as usize;
        if dp < back {
            Err(VmError::TargetBelowZero)
        } else if dp - back >= mem_len {
            Err(VmError::TargetOutOfBounds)
        } else {
            Ok(dp - back)
        }
    } else {
        let fwd = offset as usize;
        if dp > usize::MAX - fwd {
            Err(VmError::TargetOutOfBounds)
        } else if dp + fwd >= mem_len {
            Err(VmError::TargetOutOfBounds)
        } else {
            Ok(dp + fwd)
        }
    }
}

/// Grow the tape for a data pointer that has moved past its end.
#[verifier::loop_isolation(false)]
fn grow_memory(memory: &mut Vec<u8>, dp: usize)
    requires
        dp < usize::MAX,
        dp >= old(memory)@.len(),
    ensures
        final(memory)@ == grow_mem(old(memory)@, dp as int),
{
    let dbl = if memory.len() <= usize::MAX / 2 {
        memory.len() * 2
    } else {
        usize::MAX
    };
    let needed = dp + 1;
    let new_len = if dbl >= needed {
        dbl
    } else {
        needed
    };
    while memory.len() < new_len
        invariant
            memory@.len() <= new_len,
            memory@.len() >= old(memory)@.len(),
            memory@ =~= Seq::new(
                memory@.len(),
                |i: int|
                    if 0 <= i < old(memory)@.len() {
                        old(memory)@[i]
                    } else {
                        0u8
                    },
            ),
        decreases new_len - memory@.len(),
    {
        memory.push(0);
    }
    proof {
        assert(memory@ =~= grow_mem(old(memory)@, dp as int));
    }
}

/// Add (or subtract) the source cell's value to every target offset, then
/// clear the source cell; stop at the first offset out of range.
#[verifier::loop_isolation(false)]
fn bulk_apply(memory: &mut Vec<u8>, dp: usize, val: u8, offs: &Vec<i16>, sub: bool) -> (r: Result<
    (),
    VmError,
>)
    requires
        (dp as int) < old(memory)@.len(),
    ensures
        match apply_targets(old(memory)@, dp as int, val, offs@, 0, sub) {
            Ok(m2) => r == Ok::<(), VmError>(()) && final(memory)@ == m2.update(dp as int, 0u8),
            Err((e, m2)) => r == Err::<(), VmError>(e) && final(memory)@ == m2,
        },
{
    let ghost mem0 = memory@;
    let mut i: usize = 0;
    while i < offs.len()
        invariant
            i <= offs@.len(),
            memory@.len() == mem0.len(),
            apply_targets(memory@, dp as int, val, offs@, i as int, sub) == apply_targets(
                mem0,
                dp as int,
                val,
                offs@,
                0,
                sub,
            ),
        decreases offs@.len() - i,
    {
        match target_position(dp, offs[i], memory.len()) {
            Ok(t) => {
                let old_cell = memory[t];
                let v = if sub {
                    if old_cell >= val {
                        old_cell - val
                    } else {
                        ((256u16 + old_cell as u16) - val as u16) as u8
                    }
                } else {
                    ((old_cell as u16 + val as u16) % 256) as u8
                };
                proof {
                    if sub {
                        assert(v as int == ((old_cell - val) % 256));
                    }
                }
                memory[t] = v;
            },
            Err(e) => {
                return Err(e);
            },
        }
        i += 1;
    }
    memory[dp] = 0;
    Ok(())
}

/// Multiply the source cell by a factor, add the product to the cell at the
/// offset, then clear the source cell.
fn mul_add_apply(memory: &mut Vec<u8>, dp: usize, off: i16, k: u8) -> (r: Result<(), VmError>)
    requires
        (dp as int) < old(memory)@.len(),
    ensures
        ({
            let cur = old(memory)@[dp as int];
            match target_spec(dp as int, off as int, old(memory)@.len() as int) {
                Err(e) => r == Err::<(), VmError>(e) && final(memory)@ == old(memory)@,
                Ok(t) => {
                    let val = ((cur * k) % 256) as u8;
                    r == Ok::<(), VmError>(()) && final(memory)@ == old(memory)@.update(
                        t,
                        ((old(memory)@[t] + val) % 256) as u8,
                    ).update(dp as int, 0u8)
                },
            }
        }),
{
    let cur = memory[dp];
    match target_position(dp, off, memory.len()) {
        Ok(t) => {
            let a = cur as u32;
            let b = k as u32;
            proof {
                assert(a * b < 0x10000) by (nonlinear_arith)
                    requires
                        a < 256,
                        b < 256,
                {}
            }
            let val = ((a * b) % 256) as u8;
            let v = ((memory[t] as u16 + val as u16) % 256) as u8;
            memory[t] = v;
            memory[dp] = 0;
            Ok(())
        },
        Err(e) => Err(e),
    }
}

/// Execute a single instruction of the flat program over the machine parts.
///
/// Returns `Ok(true)` to continue, `Ok(false)` when the program has
/// terminated normally, or the fatal error.
#[verifier::loop_isolation(false)]
#[verifier::rlimit(100)]
#[verifier::spinoff_prover]
pub fn vm_step(
    program: &Vec<Instr>,
    memory: &mut Vec<u8>,
    pc: &mut usize,
    dp: &mut usize,
    input: &Vec<u8>,
    input_pos: &mut usize,
    output: &mut Vec<u8>,
) -> (r: Result<bool, VmError>)
    ensures
        ({
            let pre = vm_of(
                instrs_view(program@),
                old(memory)@,
                *old(pc) as int,
                *old(dp) as int,
                input@,
                *old(input_pos) as int,
                old(output)@,
            );
            let post = vm_of(
                instrs_view(program@),
                final(memory)@,
                *final(pc) as int,
                *final(dp) as int,
                input@,
                *final(input_pos) as int,
                final(output)@,
            );
            match spec_step(pre) {
                StepSpec::Halted => r == Ok::<bool, VmError>(false) && post == pre,
                StepSpec::Failed(e, s) => r == Err::<bool, VmError>(e) && post == s,
                StepSpec::Stepped(s) => r == Ok::<bool, VmError>(true) && post == s,
            }
        }),
{
    proof {
        reveal(spec_step);
    }
    let ghost pre = vm_of(
        instrs_view(program@),
        memory@,
        *pc as int,
        *dp as int,
        input@,
        *input_pos as int,
        output@,
    );

    // Terminate if the program counter is outside of the program.
    if *pc >= program.len() {
        return Ok(false);
    }

    // If the data pointer ends up outside of memory, expand either to a
    // double of the current memory size, or just past the data pointer
    // (whichever is bigger).
    if *dp >= memory.len() {
        if *dp == usize::MAX {
            return Err(VmError::PointerOverflow);
        }
        grow_memory(memory, *dp);
    }

    let ghost s1 = if pre.dp >= pre.memory.len() {
        VmSpec { memory: grow_mem(pre.memory, pre.dp), ..pre }
    } else {
        pre
    };
    proof {
        assert(memory@ == s1.memory);
        assert(instrs_view(program@)[*pc as int] == instr_view(program@[*pc as int]));
    }

    let cur = memory[*dp];

    match &program[*pc] {
        Instr::Incr(n) => {
            let v = ((cur as u16 + *n as u16) % 256) as u8;
            memory[*dp] = v;
            *pc += 1;
        },
        Instr::Decr(n) => {
            let v = if cur >= *n {
                cur - *n
            } else {
                ((256u16 + cur as u16) - *n as u16) as u8
            };
            proof {
                assert(v as int == ((cur - *n) % 256));
            }
            memory[*dp] = v;
            *pc += 1;
        },
        Instr::Next(n) => {
            let step = *n as usize;
            if *dp > usize::MAX - step {
                return Err(VmError::PointerOverflow);
            }
            *dp += step;
            *pc += 1;
        },
        Instr::Prev(n) => {
            let step = *n as usize;
            if *dp < step {
                return Err(VmError::PointerUnderflow);
            }
            *dp -= step;
            *pc += 1;
        },
        Instr::Print => {
            output.push(cur);
            *pc += 1;
        },
        Instr::Read => {
            if *input_pos < input.len() {
                let b = input[*input_pos];
                memory[*dp] = b;
                *input_pos += 1;
            } else {
                // Default to newlines if the input stream is empty.
                memory[*dp] = 10;
            }
            *pc += 1;
        },
        Instr::SetTo(n) => {
            memory[*dp] = *n;
            *pc += 1;
        },
        Instr::AddTo(offs) => {
            if cur != 0 {
                match bulk_apply(memory, *dp, cur, offs, false) {
                    Ok(()) => {},
                    Err(e) => {
                        return Err(e);
                    },
                }
            }
            *pc += 1;
        },
        Instr::SubFrom(offs) => {
            if cur != 0 {
                match bulk_apply(memory, *dp, cur, offs, true) {
                    Ok(()) => {},
                    Err(e) => {
                        return Err(e);
                    },
                }
            }
            *pc += 1;
        },
        Instr::MultiplyAddTo(off, k) => {
            if cur != 0 {
                match mul_add_apply(memory, *dp, *off, *k) {
                    Ok(()) => {},
                    Err(e) => {
                        return Err(e);
                    },
                }
            }
            *pc += 1;
        },
        Instr::BeginLoop(off) => {
            if cur == 0 {
                if *off > usize::MAX - 1 - *pc {
                    return Err(VmError::ProgramCounterOverflow);
                }
                *pc += *off;
            }
            *pc += 1;
        },
        Instr::EndLoop(off) => {
            if cur != 0 {
                if *pc < *off {
                    return Err(VmError::ProgramCounterOverflow);
                }
                *pc -= *off;
            }
            *pc += 1;
        },
    }

    Ok(true)
}

/// `s1` is reached from `s0` in exactly `n` dispatch steps.
pub open spec fn steps_to(s0: VmSpec, s1: VmSpec, n: nat) -> bool
    decreases n,
{
    if n == 0 {
        s0 == s1
    } else {
        match spec_step(s0) {
            StepSpec::Stepped(s) => steps_to(s, s1, (n - 1) as nat),
            _ => false,
        }
    }
}

/// The state after clearing the tape and rewinding the machine; the program,
/// the input source and what was already written stay as they are.
pub open spec fn reset_spec(s: VmSpec) -> VmSpec {
    VmSpec { memory: Seq::new(s.memory.len(), |i: int| 0u8), pc: 0, dp: 0, ..s }
}

/// A tape of `n` zeroed cells.
#[verifier::loop_isolation(false)]
pub fn zeroed_tape(n: usize) -> (v: Vec<u8>)
    ensures
        v@ == Seq::new(n as nat, |i: int| 0u8),
{
    let mut v: Vec<u8> = Vec::new();
    while v.len() < n
        invariant
            v@.len() <= n,
            forall|i: int| 0 <= i < v@.len() ==> v@[i] == 0u8,
        decreases n - v@.len(),
    {
        v.push(0);
    }
    proof {
        assert(v@ =~= Seq::new(n as nat, |i: int| 0u8));
    }
    v
}

/// Brainfuck virtual machine: the flat program, the tape, the two machine
/// registers, and the in-memory input source and output sink.
pub struct Interpreter {
    pub program: Vec<Instr>,
    pub memory: Vec<u8>,
    /// Program counter
    pub pc: usize,
    /// Data pointer
    pub dp: usize,
    /// Bytes consumed by the `,` command, in order.
    pub input: Vec<u8>,
    /// How much of `input` was already read.
    pub input_pos: usize,
    /// Bytes produced by the `.` command, in order.
    pub output: Vec<u8>,
}

impl Interpreter {
    /// The machine as a mathematical state.
    pub open spec fn vm(&self) -> VmSpec {
        vm_of(
            instrs_view(self.program@),
            self.memory@,
            self.pc as int,
            self.dp as int,
            self.input@,
            self.input_pos as int,
            self.output@,
        )
    }

    /// A fresh machine for the given program, with the standard 30 000-cell
    /// tape and an empty input source.
    pub fn new(nodes: &Vec<AstNode>) -> (r: Interpreter)
        ensures
            r.vm() == vm_of(
                compile_seq_spec(nodes_view(nodes@)),
                Seq::new(crate::runnable::BF_MEMORY_SIZE as nat, |i: int| 0u8),
                0,
                0,
                Seq::empty(),
                0,
                Seq::empty(),
            ),
    {
        let r = Interpreter {
            program: compile(nodes),
            memory: zeroed_tape(crate::runnable::BF_MEMORY_SIZE),
            pc: 0,
            dp: 0,
            input: Vec::new(),
            input_pos: 0,
            output: Vec::new(),
        };
        r
    }

    /// Validate and calculate the target cell for an operation with an
    /// offset, against the current tape.
    pub fn get_target_position(&self, offset: i16) -> (r: Result<usize, VmError>)
        ensures
            match target_spec(self.dp as int, offset as int, self.memory@.len() as int) {
                Ok(t) => r == Ok::<usize, VmError>(t as usize),
                Err(e) => r == Err::<usize, VmError>(e),
            },
    {
        target_position(self.dp, offset, self.memory.len())
    }

    /// Execute a single instruction on the VM.
    ///
    /// Returns `Ok(true)` to continue execution, `Ok(false)` when the
    /// program has terminated normally, or `Err(_)` on execution errors.
    pub fn step(&mut self) -> (r: Result<bool, VmError>)
        ensures
            match spec_step(old(self).vm()) {
                StepSpec::Halted => r == Ok::<bool, VmError>(false) && final(self).vm() == old(
                    self,
                ).vm(),
                StepSpec::Failed(e, s) => r == Err::<bool, VmError>(e) && final(self).vm() == s,
                StepSpec::Stepped(s) => r == Ok::<bool, VmError>(true) && final(self).vm() == s,
            },
            final(self).program == old(self).program,
            final(self).input == old(self).input,
    {
        vm_step(
            &self.program,
            &mut self.memory,
            &mut self.pc,
            &mut self.dp,
            &self.input,
            &mut self.input_pos,
            &mut self.output,
        )
    }

    /// Clear the tape and rewind the machine; the program, the input
    /// position and the output are kept.
    #[verifier::loop_isolation(false)]
    pub fn reset(&mut self)
        ensures
            final(self).vm() == reset_spec(old(self).vm()),
    {
        let mut i: usize = 0;
        while i < self.memory.len()
            invariant
                i <= self.memory@.len(),
                self.memory@.len() == old(self).memory@.len(),
                self.program == old(self).program,
                self.input == old(self).input,
                self.input_pos == old(self).input_pos,
                self.output == old(self).output,
                self.pc == old(self).pc,
                self.dp == old(self).dp,
                forall|k: int| 0 <= k < i ==> self.memory@[k] == 0u8,
                forall|k: int|
                    i <= k < self.memory@.len() ==> self.memory@[k] == old(self).memory@[k],
            decreases self.memory@.len() - i,
        {
            self.memory[i] = 0;
            i += 1;
        }
        self.pc = 0;
        self.dp = 0;
        proof {
            assert(self.memory@ =~= reset_spec(old(self).vm()).memory);
        }
    }

    /// Run the machine to completion, then reset it.
    ///
    /// On `Ok`, some number of dispatch steps leads from the starting state
    /// to a state that halts; on any error but `StepLimitExceeded`, to a
    /// state that fails with that error; `StepLimitExceeded` itself is owed
    /// only after a chain of `u64::MAX` dispatch steps, so it can never be
    /// reported for a program that terminates.  The machine keeps the
    /// reached state's output and input position, with the tape cleared
    /// and the registers rewound.
    #[verifier::rlimit(100)]
    #[verifier::spinoff_prover]
    pub fn run(&mut self) -> (r: Result<(), VmError>)
        ensures
            match r {
                Ok(()) => exists|n: nat, st: VmSpec|
                    #![auto]
                    steps_to(old(self).vm(), st, n) && spec_step(st) is Halted && final(self).vm()
                        == reset_spec(st),
                Err(e) => (e == VmError::StepLimitExceeded && exists|st: VmSpec|
                    #![auto]
                    steps_to(old(self).vm(), st, u64::MAX as nat) && final(self).vm()
                        == reset_spec(st)) || exists|n: nat, st: VmSpec, sf: VmSpec|
                    #![auto]
                    steps_to(old(self).vm(), st, n) && spec_step(st) == StepSpec::Failed(e, sf)
                        && final(self).vm() == reset_spec(sf),
            },
    {
        let ghost start = self.vm();
        let ghost mut n: nat = 0nat;
        let mut result: Result<(), VmError> = Ok(());
        let mut fuel: u64 = u64::MAX;
        loop
            invariant_except_break
                result == Ok::<(), VmError>(()),
                steps_to(start, self.vm(), n),
                n + fuel == u64::MAX as nat,
            invariant
                start == old(self).vm(),
            ensures
                match result {
                    Ok(()) => steps_to(start, self.vm(), n) && spec_step(self.vm()) is Halted,
                    Err(e) => (e == VmError::StepLimitExceeded && steps_to(
                        start,
                        self.vm(),
                        u64::MAX as nat,
                    )) || exists|m: nat, st: VmSpec|
                        #![auto]
                        steps_to(start, st, m) && spec_step(st) == StepSpec::Failed(
                            e,
                            self.vm(),
                        ),
                },
            decreases fuel,
        {
            if fuel == 0 {
                result = Err(VmError::StepLimitExceeded);
                proof {
                    assert(n == u64::MAX as nat);
                }
                break ;
            }
            fuel = fuel - 1;
            let ghost at = self.vm();
            match self.step() {
                Ok(true) => {
                    proof {
                        lemma_steps_to_snoc(start, at, self.vm(), n);
                        n = n + 1nat;
                    }
                },
                Ok(false) => {
                    break ;
                },
                Err(error) => {
                    result = Err(error);
                    proof {
                        assert(steps_to(start, at, n) && spec_step(at) == StepSpec::Failed(
                            error,
                            self.vm(),
                        ));
                    }
                    break ;
                },
            }
        }
        let ghost before_reset = self.vm();
        self.reset();
        proof {
            match result {
                Ok(()) => {
                    assert(steps_to(start, before_reset, n) && spec_step(before_reset) is Halted
                        && self.vm() == reset_spec(before_reset));
                },
                Err(e) => {
                    if e == VmError::StepLimitExceeded && steps_to(
                        start,
                        before_reset,
                        u64::MAX as nat,
                    ) {
                        assert(steps_to(start, before_reset, u64::MAX as nat) && self.vm()
                            == reset_spec(before_reset));
                    } else {
                        let (m, st): (nat, VmSpec) = choose|m: nat, st: VmSpec|
                            #![auto]
                            steps_to(start, st, m) && spec_step(st) == StepSpec::Failed(
                                e,
                                before_reset,
                            );
                        assert(steps_to(start, st, m) && spec_step(st) == StepSpec::Failed(
                            e,
                            before_reset,
                        ) && self.vm() == reset_spec(before_reset));
                    }
                },
            }
        }
        result
    }
}

impl crate::runnable::Runnable for Interpreter {
    /// Run the machine to completion, then reset it (see the inherent
    /// `run`).
    fn run(&mut self) -> Result<(), VmError> {
        Interpreter::run(self)
    }
}

/// A bulk operation can only fail by addressing a cell out of range.
proof fn lemma_apply_targets_errors(
    mem: Seq<u8>,
    dp: int,
    val: u8,
    offs: Seq<i16>,
    i: int,
    sub: bool,
)
    ensures
        match apply_targets(mem, dp, val, offs, i, sub) {
            Ok(_) => true,
            Err((e, _)) => e == VmError::TargetBelowZero || e == VmError::TargetOutOfBounds,
        },
    decreases offs.len() - i,
{
    if i >= offs.len() {
    } else {
        match target_spec(dp, offs[i] as int, mem.len() as int) {
            Err(_) => {},
            Ok(t) => {
                let cell = if sub {
                    (((mem[t] - val) % 256) as u8)
                } else {
                    (((mem[t] + val) % 256) as u8)
                };
                lemma_apply_targets_errors(mem.update(t, cell), dp, val, offs, i + 1, sub);
            },
        }
    }
}

/// One step of a bracket-sane program keeps the program counter inside
/// the program and never faults on it.
#[verifier::rlimit(100)]
#[verifier::spinoff_prover]
pub proof fn lemma_step_pc_safe(s: VmSpec)
    requires
        brackets_ok(s.program),
        0 <= s.pc <= s.program.len(),
        s.program.len() <= usize::MAX as int,
    ensures
        match spec_step(s) {
            StepSpec::Halted => true,
            StepSpec::Failed(e, _) => e != VmError::ProgramCounterOverflow,
            StepSpec::Stepped(s2) => s2.program == s.program && 0 <= s2.pc <= s.program.len(),
        },
{
    reveal(spec_step);
    if s.pc < s.program.len() {
        assert(match s.program[s.pc] {
            InstrSpec::BeginLoop(off) => off >= 1 && s.pc + off + 1 <= s.program.len(),
            InstrSpec::EndLoop(off) => off >= 1 && off <= s.pc,
            _ => true,
        });
        let s1 = if s.dp >= s.memory.len() {
            VmSpec { memory: grow_mem(s.memory, s.dp), ..s }
        } else {
            s
        };
        let cur = s1.memory[s1.dp];
        match s.program[s.pc] {
            InstrSpec::AddTo(offs) => {
                lemma_apply_targets_errors(s1.memory, s1.dp, cur, offs, 0, false);
            },
            InstrSpec::SubFrom(offs) => {
                lemma_apply_targets_errors(s1.memory, s1.dp, cur, offs, 0, true);
            },
            _ => {},
        }
        match spec_step(s) {
            StepSpec::Halted => {
            },
            StepSpec::Failed(e, _) => {
                match s.program[s.pc] {
                    InstrSpec::BeginLoop(off) => {
                        assert(s.pc + off + 1 <= usize::MAX as int);
                        assert(e != VmError::ProgramCounterOverflow);
                    },
                    InstrSpec::EndLoop(off) => {
                        assert(off <= s.pc);
                        assert(e != VmError::ProgramCounterOverflow);
                    },
                    _ => {
                        assert(e != VmError::ProgramCounterOverflow);
                    },
                }
            },
            StepSpec::Stepped(s2) => {
                assert(s2.program == s.program);
                assert(0 <= s2.pc <= s.program.len());
            },
        }
    }
}

/// Law: a program flattened from an AST never faults on its bracket
/// offsets, however long it runs.  Together with `lemma_compile_seq_brackets_ok`
/// this confines a compiled program's failures to the tape.
pub proof fn lemma_compiled_never_pc_faults(s0: VmSpec, s1: VmSpec, n: nat, e: VmError, sf: VmSpec)
    requires
        brackets_ok(s0.program),
        0 <= s0.pc <= s0.program.len(),
        s0.program.len() <= usize::MAX as int,
        steps_to(s0, s1, n),
        spec_step(s1) == StepSpec::Failed(e, sf),
    ensures
        e != VmError::ProgramCounterOverflow,
    decreases n,
{
    if n == 0 {
        lemma_step_pc_safe(s0);
    } else {
        match spec_step(s0) {
            StepSpec::Stepped(s) => {
                lemma_step_pc_safe(s0);
                lemma_compiled_never_pc_faults(s, s1, (n - 1) as nat, e, sf);
            },
            _ => {},
        }
    }
}

/// Law: the machine is deterministic.  From one starting state, any two
/// step chains that end in a state that cannot step further (a halt or a
/// fatal condition) end in the same state after the same number of steps:
/// what a program does — its output stream included — is a function of the
/// program and its input.  The interpreter's dispatch is the semantic
/// oracle every other engine must match.
pub proof fn lemma_execution_deterministic(s0: VmSpec, s1: VmSpec, s2: VmSpec, n: nat, m: nat)
    requires
        steps_to(s0, s1, n),
        steps_to(s0, s2, m),
        !(spec_step(s1) is Stepped),
        !(spec_step(s2) is Stepped),
    ensures
        s1 == s2,
        n == m,
    decreases n,
{
    if n == 0 {
        if m != 0 {
            assert(spec_step(s0) is Stepped);
        }
    } else {
        if m == 0 {
            assert(spec_step(s0) is Stepped);
        } else {
            match spec_step(s0) {
                StepSpec::Stepped(s) => {
                    lemma_execution_deterministic(s, s1, s2, (n - 1) as nat, (m - 1) as nat);
                },
                _ => {},
            }
        }
    }
}

/// Law: the empty-input policy.  Reading with the input source exhausted
/// stores the newline byte in the current cell and moves neither the input
/// position nor the data pointer, so every later read delivers a newline
/// again.  A data pointer past the end of the tape first grows it; the
/// premise only rules out a data pointer at the very end of the address
/// range, where growing is impossible.
pub proof fn lemma_eof_delivers_newline(s: VmSpec)
    requires
        0 <= s.pc < s.program.len(),
        s.program[s.pc] is Read,
        s.input_pos >= s.input.len(),
        0 <= s.dp,
        s.dp < s.memory.len() || s.dp + 1 <= usize::MAX as int,
    ensures
        spec_step(s) matches StepSpec::Stepped(s2) && s2.memory[s.dp] == 10u8 && s2.input_pos
            == s.input_pos && s2.input == s.input && s2.pc == s.pc + 1 && s2.dp == s.dp
            && s2.output == s.output,
{
    reveal(spec_step);
}

/// Law: cell arithmetic wraps modulo 256.  An increment lands on the sum
/// of the old cell and the count, reduced modulo 256 — so 256 unit
/// increments return a cell to its old value — while the data pointer,
/// every other cell and the I/O state stay as they were and only the
/// program counter advances.  A data pointer past the end of the tape
/// reads a freshly grown zero cell; growth appends zero cells and keeps
/// the old ones.
pub proof fn lemma_cell_wraparound(s: VmSpec, n: u8)
    requires
        0 <= s.pc < s.program.len(),
        s.program[s.pc] == InstrSpec::Incr(n),
        0 <= s.dp,
        s.dp < s.memory.len() || s.dp + 1 <= usize::MAX as int,
    ensures
        spec_step(s) matches StepSpec::Stepped(s2) && s2.memory[s.dp] == ((((if s.dp
            < s.memory.len() {
            s.memory[s.dp]
        } else {
            0u8
        }) + n) % 256) as u8) && s2.pc == s.pc + 1 && s2.dp == s.dp && s2.input == s.input
            && s2.input_pos == s.input_pos && s2.output == s.output && s2.memory.len()
            >= s.memory.len() && (forall|j: int|
            #![auto]
            0 <= j < s2.memory.len() && j != s.dp ==> s2.memory[j] == (if j < s.memory.len() {
                s.memory[j]
            } else {
                0u8
            })),
{
    reveal(spec_step);
}

/// Extending a step chain by one more step.
pub proof fn lemma_steps_to_snoc(s0: VmSpec, s1: VmSpec, s2: VmSpec, n: nat)
    requires
        steps_to(s0, s1, n),
        spec_step(s1) == StepSpec::Stepped(s2),
    ensures
        steps_to(s0, s2, n + 1),
    decreases n,
{
    if n == 0 {
        assert(s0 == s1);
        assert(steps_to(s2, s2, 0));
        assert(steps_to(s0, s2, n + 1));
    } else {
        match spec_step(s0) {
            StepSpec::Stepped(s) => {
                lemma_steps_to_snoc(s, s1, s2, (n - 1) as nat);
                assert(steps_to(s, s2, ((n + 1) - 1) as nat));
                assert(steps_to(s0, s2, n + 1));
            },
            _ => {},
        }
    }
}

} // verus!
