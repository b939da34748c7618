use vstd::prelude::*;

use crate::ast::{AstNode, AstSpec, ParseError, parse_spec};
use crate::instr::{Instr, InstrSpec, compile, compile_seq_spec, instr_view, instrs_view};
use crate::interpreter::{Interpreter, vm_of};
use crate::runnable::BF_MEMORY_SIZE;

verus! {

use vstd::string::StringSliceAdditionalSpecFns;

broadcast use vstd::std_specs::vec::group_vec_axioms;

/// A flattened, optimized Brainfuck program.
pub struct Program {
    pub data: Vec<Instr>,
}

/// Structural copy of one flat instruction.
pub fn duplicate_instr(ins: &Instr) -> (r: Instr)
    ensures
        instr_view(r) == instr_view(*ins),
{
    match ins {
        Instr::Incr(x) => Instr::Incr(*x),
        Instr::Decr(x) => Instr::Decr(*x),
        Instr::Next(x) => Instr::Next(*x),
        Instr::Prev(x) => Instr::Prev(*x),
        Instr::Print => Instr::Print,
        Instr::Read => Instr::Read,
        Instr::SetTo(x) => Instr::SetTo(*x),
        Instr::AddTo(offs) => Instr::AddTo(crate::ast::copy_offsets(offs)),
        Instr::SubFrom(offs) => Instr::SubFrom(crate::ast::copy_offsets(offs)),
        Instr::MultiplyAddTo(off, k) => Instr::MultiplyAddTo(*off, *k),
        Instr::BeginLoop(n) => Instr::BeginLoop(*n),
        Instr::EndLoop(n) => Instr::EndLoop(*n),
    }
}

/// Structural copy of a flat program.
#[verifier::loop_isolation(false)]
pub fn duplicate_instrs(v: &Vec<Instr>) -> (r: Vec<Instr>)
    ensures
        instrs_view(r@) == instrs_view(v@),
{
    let mut r: Vec<Instr> = Vec::new();
    let mut i: usize = 0;
    while i < v.len()
        invariant
            i <= v@.len(),
            r@.len() == i,
            forall|k: int| 0 <= k < i ==> instr_view(#[trigger] r@[k]) == instr_view(v@[k]),
        decreases v@.len() - i,
    {
        r.push(duplicate_instr(&v[i]));
        i += 1;
    }
    proof {
        assert(instrs_view(r@) =~= instrs_view(v@));
    }
    r
}

impl Program {
    pub fn new(data: Vec<Instr>) -> (r: Program)
        ensures
            r.data == data,
    {
        Program { data }
    }

    pub fn len(&self) -> (r: usize)
        ensures
            r == self.data@.len(),
    {
        self.data.len()
    }

    /// Parse and optimize a source text, then flatten it.
    pub fn parse(source: &str) -> (r: Result<Program, ParseError>)
        requires
            source.spec_bytes().len() < usize::MAX,
        ensures
            match r {
                Ok(p) => match parse_spec(source.spec_bytes()) {
                    Ok(ir) => instrs_view(p.data@) == compile_seq_spec(ir),
                    Err(_) => false,
                },
                Err(e) => parse_spec(source.spec_bytes()) == Err::<Seq<AstSpec>, ParseError>(e),
            },
    {
        match AstNode::parse(source) {
            Ok(ast) => Ok(Program { data: compile(&ast) }),
            Err(e) => Err(e),
        }
    }

    /// Initialize a Brainfuck interpreter that will use this program.
    pub fn interpreter(&self) -> (r: Interpreter)
        ensures
            r.vm() == vm_of(
                instrs_view(self.data@),
                Seq::new(BF_MEMORY_SIZE as nat, |i: int| 0u8),
                0,
                0,
                Seq::empty(),
                0,
                Seq::empty(),
            ),
    {
        Interpreter {
            program: duplicate_instrs(&self.data),
            memory: crate::interpreter::zeroed_tape(BF_MEMORY_SIZE),
            pc: 0,
            dp: 0,
            input: Vec::new(),
            input_pos: 0,
            output: Vec::new(),
        }
    }
}

} // verus!
