use vstd::prelude::*;

use crate::ast::{AstNode, nodes_view};
use crate::instr::{Instr, compile, compile_seq_spec, instrs_view};
use crate::interpreter::{
    StepSpec, VmError, VmSpec, reset_spec, spec_step, steps_to, vm_of, vm_step, zeroed_tape,
    lemma_steps_to_snoc,
};
use crate::runnable::{BF_MEMORY_SIZE, Runnable};

verus! {

broadcast use vstd::std_specs::vec::group_vec_axioms;

/// Brainfuck virtual machine that swallows execution errors: a fatal
/// condition simply halts the program.
pub struct Fucker {
    pub program: Vec<Instr>,
    pub memory: Vec<u8>,
    /// Program counter
    pub pc: usize,
    /// Data pointer
    pub dp: usize,
    /// Bytes consumed by the `,` command, in order.
    pub input: Vec<u8>,
    /// How much of `input` was already read.
    pub input_pos: usize,
    /// Bytes produced by the `.` command, in order.
    pub output: Vec<u8>,
}

impl Fucker {
    /// The machine as a mathematical state.
    pub open spec fn vm(&self) -> VmSpec {
        vm_of(
            instrs_view(self.program@),
            self.memory@,
            self.pc as int,
            self.dp as int,
            self.input@,
            self.input_pos as int,
            self.output@,
        )
    }

    /// A fresh machine for the given program.
    pub fn new(nodes: &Vec<AstNode>) -> (r: Fucker)
        ensures
            r.vm() == vm_of(
                compile_seq_spec(nodes_view(nodes@)),
                Seq::new(BF_MEMORY_SIZE as nat, |i: int| 0u8),
                0,
                0,
                Seq::empty(),
                0,
                Seq::empty(),
            ),
    {
        Fucker {
            program: compile(nodes),
            memory: zeroed_tape(BF_MEMORY_SIZE),
            pc: 0,
            dp: 0,
            input: Vec::new(),
            input_pos: 0,
            output: Vec::new(),
        }
    }

    /// Execute a single instruction on the VM.
    ///
    /// Returns false when the program has terminated, normally or on a
    /// fatal condition.
    pub fn step(&mut self) -> (r: bool)
        ensures
            match spec_step(old(self).vm()) {
                StepSpec::Halted => r == false && final(self).vm() == old(self).vm(),
                StepSpec::Failed(_, s) => r == false && final(self).vm() == s,
                StepSpec::Stepped(s) => r == true && final(self).vm() == s,
            },
    {
        match vm_step(
            &self.program,
            &mut self.memory,
            &mut self.pc,
            &mut self.dp,
            &self.input,
            &mut self.input_pos,
            &mut self.output,
        ) {
            Ok(more) => more,
            Err(_) => false,
        }
    }

    /// Clear the tape and rewind the machine; the program, the input
    /// position and the output are kept.
    #[verifier::loop_isolation(false)]
    pub fn reset(&mut self)
        ensures
            final(self).vm() == reset_spec(old(self).vm()),
    {
        let mut i: usize = 0;
        while i < self.memory.len()
            invariant
                i <= self.memory@.len(),
                self.memory@.len() == old(self).memory@.len(),
                self.program == old(self).program,
                self.input == old(self).input,
                self.input_pos == old(self).input_pos,
                self.output == old(self).output,
                self.pc == old(self).pc,
                self.dp == old(self).dp,
                forall|k: int| 0 <= k < i ==> self.memory@[k] == 0u8,
                forall|k: int|
                    i <= k < self.memory@.len() ==> self.memory@[k] == old(self).memory@[k],
            decreases self.memory@.len() - i,
        {
            self.memory[i] = 0;
            i += 1;
        }
        self.pc = 0;
        self.dp = 0;
        proof {
            assert(self.memory@ =~= reset_spec(old(self).vm()).memory);
        }
    }
}

impl Runnable for Fucker {
    /// Run the machine until it terminates, normally or on a swallowed
    /// fatal condition, then reset it.  Some number of dispatch steps leads
    /// from the starting state to a state that halts, or fails (the
    /// swallowed condition), or — only after `u64::MAX` steps — exhausts
    /// the step budget; the machine keeps that state's output and input
    /// position, with the tape cleared and the registers rewound.
    #[verifier::rlimit(100)]
    #[verifier::spinoff_prover]
    fn run(&mut self) -> (r: Result<(), VmError>)
        ensures
            r == Ok::<(), VmError>(()),
            exists|n: nat, st: VmSpec|
                #![auto]
                steps_to(old(self).vm(), st, n) && ((spec_step(st) is Halted && final(self).vm()
                    == reset_spec(st)) || (exists|e: VmError, sf: VmSpec|
                    #![auto]
                    spec_step(st) == StepSpec::Failed(e, sf) && final(self).vm() == reset_spec(
                        sf,
                    )) || (n == u64::MAX as nat && final(self).vm() == reset_spec(st))),
    {
        let ghost start = self.vm();
        let ghost mut n: nat = 0nat;
        let mut fuel: u64 = u64::MAX;
        loop
            invariant_except_break
                steps_to(start, self.vm(), n),
                n + fuel == u64::MAX as nat,
            invariant
                start == old(self).vm(),
            ensures
                exists|m: nat, st: VmSpec|
                    #![auto]
                    steps_to(start, st, m) && ((spec_step(st) is Halted && self.vm() == st) || (
                    exists|e: VmError, sf: VmSpec|
                        #![auto]
                        spec_step(st) == StepSpec::Failed(e, sf) && self.vm() == sf) || (m
                        == u64::MAX as nat && self.vm() == st)),
            decreases fuel,
        {
            if fuel == 0 {
                proof {
                    assert(n == u64::MAX as nat);
                    assert(steps_to(start, self.vm(), n) && self.vm() == self.vm());
                }
                break ;
            }
            fuel = fuel - 1;
            let ghost at = self.vm();
            let more = self.step();
            if more {
                proof {
                    lemma_steps_to_snoc(start, at, self.vm(), n);
                    n = n + 1nat;
                }
            } else {
                proof {
                    assert(steps_to(start, at, n));
                    match spec_step(at) {
                        StepSpec::Halted => {
                            assert(self.vm() == at);
                        },
                        StepSpec::Failed(e, sf) => {
                            assert(spec_step(at) == StepSpec::Failed(e, sf) && self.vm() == sf);
                        },
                        StepSpec::Stepped(_) => {
                            assert(false);
                        },
                    }
                }
                break ;
            }
        }
        let ghost before_reset = self.vm();
        self.reset();
        proof {
            let (m, st): (nat, VmSpec) = choose|m: nat, st: VmSpec|
                #![auto]
                steps_to(start, st, m) && ((spec_step(st) is Halted && before_reset == st) || (
                exists|e: VmError, sf: VmSpec|
                    #![auto]
                    spec_step(st) == StepSpec::Failed(e, sf) && before_reset == sf) || (m
                    == u64::MAX as nat && before_reset == st));
            if spec_step(st) is Halted && before_reset == st {
                assert(steps_to(start, st, m) && spec_step(st) is Halted && self.vm()
                    == reset_spec(st));
            } else if m == u64::MAX as nat && before_reset == st {
                assert(steps_to(start, st, m) && self.vm() == reset_spec(st));
            } else {
                let (e, sf): (VmError, VmSpec) = choose|e: VmError, sf: VmSpec|
                    #![auto]
                    spec_step(st) == StepSpec::Failed(e, sf) && before_reset == sf;
                assert(steps_to(start, st, m) && spec_step(st) == StepSpec::Failed(e, sf)
                    && self.vm() == reset_spec(sf));
            }
        }
        Ok(())
    }
}

} // verus!
