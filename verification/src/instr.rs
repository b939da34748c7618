use vstd::prelude::*;

use crate::ast::{AstNode, AstSpec, copy_offsets, node_view, nodes_view};

verus! {

broadcast use vstd::std_specs::vec::group_vec_axioms;

/// Flattened Brainfuck instruction, as executed by the virtual machines.
/// Loops are lowered to `BeginLoop`/`EndLoop` bracket pairs whose payload is
/// the number of instruction slots to skip forward or jump back.
#[derive(Clone, Debug, PartialEq, Eq)]
pub enum Instr {
    /// Add to the current memory cell.
    Incr(u8),
    /// Remove from the current memory cell.
    Decr(u8),
    /// Shift the data pointer to the right.
    Next(u16),
    /// Shift the data pointer to the left.
    Prev(u16),
    /// Display the current memory cell as an ASCII character.
    Print,
    /// Read one character from the input source.
    Read,
    /// Set a value for the current cell.
    SetTo(u8),
    /// Add the current cell to the cells at the given offsets and set the
    /// current cell to 0.
    AddTo(Vec<i16>),
    /// Subtract the current cell from the cells at the given offsets and set
    /// the current cell to 0.
    SubFrom(Vec<i16>),
    /// Multiply current cell by a factor and add to cell at offset, then set
    /// current to 0.
    MultiplyAddTo(i16, u8),
    /// If the current memory cell is 0, jump forward by the contained offset.
    BeginLoop(usize),
    /// If the current memory cell is not 0, jump backward by the contained
    /// offset.
    EndLoop(usize),
}

/// Mathematical counterpart of `Instr`.
pub enum InstrSpec {
    Incr(u8),
    Decr(u8),
    Next(u16),
    Prev(u16),
    Print,
    Read,
    SetTo(u8),
    AddTo(Seq<i16>),
    SubFrom(Seq<i16>),
    MultiplyAddTo(i16, u8),
    BeginLoop(int),
    EndLoop(int),
}

/// Abstraction of one flat instruction.
pub open spec fn instr_view(ins: Instr) -> InstrSpec {
    match ins {
        Instr::Incr(x) => InstrSpec::Incr(x),
        Instr::Decr(x) => InstrSpec::Decr(x),
        Instr::Next(x) => InstrSpec::Next(x),
        Instr::Prev(x) => InstrSpec::Prev(x),
        Instr::Print => InstrSpec::Print,
        Instr::Read => InstrSpec::Read,
        Instr::SetTo(x) => InstrSpec::SetTo(x),
        Instr::AddTo(offs) => InstrSpec::AddTo(offs@),
        Instr::SubFrom(offs) => InstrSpec::SubFrom(offs@),
        Instr::MultiplyAddTo(off, k) => InstrSpec::MultiplyAddTo(off, k),
        Instr::BeginLoop(n) => InstrSpec::BeginLoop(n as int),
        Instr::EndLoop(n) => InstrSpec::EndLoop(n as int),
    }
}

/// Abstraction of a flat program.
pub open spec fn instrs_view(v: Seq<Instr>) -> Seq<InstrSpec> {
    Seq::new(
        v.len(),
        |i: int|
            if 0 <= i < v.len() {
                instr_view(v[i])
            } else {
                InstrSpec::Print
            },
    )
}

/// The flat code of one AST node; loops become a `BeginLoop`/`EndLoop`
/// bracket around their flattened body.
pub open spec fn compile_node_spec(n: AstSpec) -> Seq<InstrSpec>
    decreases n, 1int,
{
    match n {
        AstSpec::Incr(x) => seq![InstrSpec::Incr(x)],
        AstSpec::Decr(x) => seq![InstrSpec::Decr(x)],
        AstSpec::Next(x) => seq![InstrSpec::Next(x)],
        AstSpec::Prev(x) => seq![InstrSpec::Prev(x)],
        AstSpec::Print => seq![InstrSpec::Print],
        AstSpec::Read => seq![InstrSpec::Read],
        AstSpec::SetTo(x) => seq![InstrSpec::SetTo(x)],
        AstSpec::AddTo(offs) => seq![InstrSpec::AddTo(offs)],
        AstSpec::SubFrom(offs) => seq![InstrSpec::SubFrom(offs)],
        AstSpec::MultiplyAddTo(off, k) => seq![InstrSpec::MultiplyAddTo(off, k)],
        AstSpec::Loop(body) => {
            let inner = compile_seq_spec(body);
            seq![InstrSpec::BeginLoop(inner.len() + 1 as int)] + inner + seq![
                InstrSpec::EndLoop(inner.len() + 1 as int),
            ]
        },
    }
}

/// The flat code of a stream of AST nodes.
pub open spec fn compile_seq_spec(nodes: Seq<AstSpec>) -> Seq<InstrSpec>
    decreases nodes, 0int,
{
    if nodes.len() == 0 {
        Seq::empty()
    } else {
        compile_seq_spec(nodes.drop_last()) + compile_node_spec(nodes.last())
    }
}

/// Bracket sanity of a flat program: every forward offset stays inside
/// the program and every backward offset stays at or above slot zero.
pub open spec fn brackets_ok(p: Seq<InstrSpec>) -> bool {
    forall|i: int|
        0 <= i < p.len() ==> match #[trigger] p[i] {
            InstrSpec::BeginLoop(off) => off >= 1 && i + off + 1 <= p.len(),
            InstrSpec::EndLoop(off) => off >= 1 && off <= i,
            _ => true,
        }
}

/// Bracket sanity is closed under concatenation.
pub proof fn lemma_brackets_ok_concat(a: Seq<InstrSpec>, b: Seq<InstrSpec>)
    requires
        brackets_ok(a),
        brackets_ok(b),
    ensures
        brackets_ok(a + b),
{
    assert forall|i: int| 0 <= i < (a + b).len() implies match #[trigger] (a + b)[i] {
        InstrSpec::BeginLoop(off) => off >= 1 && i + off + 1 <= (a + b).len(),
        InstrSpec::EndLoop(off) => off >= 1 && off <= i,
        _ => true,
    } by {
        if i < a.len() {
            assert((a + b)[i] == a[i]);
            assert(match a[i] {
                InstrSpec::BeginLoop(off) => off >= 1 && i + off + 1 <= a.len(),
                InstrSpec::EndLoop(off) => off >= 1 && off <= i,
                _ => true,
            });
        } else {
            assert((a + b)[i] == b[i - a.len()]);
            assert(match b[i - a.len()] {
                InstrSpec::BeginLoop(off) => off >= 1 && (i - a.len()) + off + 1 <= b.len(),
                InstrSpec::EndLoop(off) => off >= 1 && off <= i - a.len(),
                _ => true,
            });
        }
    }
}

/// Law: the flattener emits bracket-sane code.  Every `BeginLoop` skips to
/// just past its own `EndLoop`, inside the program; every `EndLoop` jumps
/// back no further than its own `BeginLoop`.
pub proof fn lemma_compile_node_brackets_ok(n: AstSpec)
    ensures
        brackets_ok(compile_node_spec(n)),
    decreases n, 1int,
{
    match n {
        AstSpec::Loop(body) => {
            lemma_compile_seq_brackets_ok(body);
            let inner = compile_seq_spec(body);
            let whole = compile_node_spec(n);
            assert forall|i: int| 0 <= i < whole.len() implies match #[trigger] whole[i] {
                InstrSpec::BeginLoop(off) => off >= 1 && i + off + 1 <= whole.len(),
                InstrSpec::EndLoop(off) => off >= 1 && off <= i,
                _ => true,
            } by {
                if i == 0 {
                    assert(whole[0] == InstrSpec::BeginLoop(inner.len() + 1 as int));
                } else if i < inner.len() + 1 {
                    assert(whole[i] == inner[i - 1]);
                    assert(match inner[i - 1] {
                        InstrSpec::BeginLoop(off) => off >= 1 && (i - 1) + off + 1
                            <= inner.len(),
                        InstrSpec::EndLoop(off) => off >= 1 && off <= i - 1,
                        _ => true,
                    });
                } else {
                    assert(whole[i] == InstrSpec::EndLoop(inner.len() + 1 as int));
                }
            }
        },
        _ => {},
    }
}

/// Law: flattened programs are bracket-sane, node by node.
pub proof fn lemma_compile_seq_brackets_ok(nodes: Seq<AstSpec>)
    ensures
        brackets_ok(compile_seq_spec(nodes)),
    decreases nodes, 0int,
{
    if nodes.len() == 0 {
    } else {
        lemma_compile_seq_brackets_ok(nodes.drop_last());
        lemma_compile_node_brackets_ok(nodes.last());
        lemma_brackets_ok_concat(
            compile_seq_spec(nodes.drop_last()),
            compile_node_spec(nodes.last()),
        );
    }
}

/// Flatten a stream of AST nodes onto the end of `instrs`.
#[verifier::loop_isolation(false)]
pub fn compile_into(nodes: &Vec<AstNode>, instrs: &mut Vec<Instr>)
    ensures
        instrs_view(final(instrs)@) == instrs_view(old(instrs)@) + compile_seq_spec(
            nodes_view(nodes@),
        ),
    decreases nodes@,
{
    let mut i: usize = 0;
    proof {
        assert(compile_seq_spec(nodes_view(nodes@).subrange(0, 0)) =~= Seq::<InstrSpec>::empty());
        assert(instrs_view(instrs@) =~= instrs_view(old(instrs)@) + compile_seq_spec(
            nodes_view(nodes@).subrange(0, 0),
        ));
    }
    while i < nodes.len()
        invariant
            i <= nodes@.len(),
            instrs_view(instrs@) == instrs_view(old(instrs)@) + compile_seq_spec(
                nodes_view(nodes@).subrange(0, i as int),
            ),
        decreases nodes@.len() - i,
    {
        let ghost prefix = nodes_view(nodes@).subrange(0, i as int);
        let ghost pre_instrs = instrs@;
        match &nodes[i] {
            AstNode::Incr(x) => {
                instrs.push(Instr::Incr(*x));
            },
            AstNode::Decr(x) => {
                instrs.push(Instr::Decr(*x));
            },
            AstNode::Next(x) => {
                instrs.push(Instr::Next(*x));
            },
            AstNode::Prev(x) => {
                instrs.push(Instr::Prev(*x));
            },
            AstNode::Print => {
                instrs.push(Instr::Print);
            },
            AstNode::Read => {
                instrs.push(Instr::Read);
            },
            AstNode::SetTo(x) => {
                instrs.push(Instr::SetTo(*x));
            },
            AstNode::AddTo(offs) => {
                instrs.push(Instr::AddTo(copy_offsets(offs)));
            },
            AstNode::SubFrom(offs) => {
                instrs.push(Instr::SubFrom(copy_offsets(offs)));
            },
            AstNode::MultiplyAddTo(off, k) => {
                instrs.push(Instr::MultiplyAddTo(*off, *k));
            },
            AstNode::Loop(body) => {
                proof {
                    assert(decreases_to!(nodes@ => nodes@[i as int]));
                    assert(decreases_to!(nodes@[i as int] => *body));
                    assert(decreases_to!(*body => body@));
                }
                let begin_pos = instrs.len();
                instrs.push(Instr::BeginLoop(0));
                let ghost mid_instrs = instrs@;
                compile_into(body, instrs);
                let ghost after_body = instrs@;
                proof {
                    assert(instrs_view(instrs@).len() == instrs_view(mid_instrs).len()
                        + compile_seq_spec(nodes_view(body@)).len());
                    assert(instrs@.len() >= begin_pos + 1);
                }
                // The bracket offset counts the body plus one bracket slot.
                let offset = instrs.len() - begin_pos;
                instrs[begin_pos] = Instr::BeginLoop(offset);
                instrs.push(Instr::EndLoop(offset));
                proof {
                    let inner = compile_seq_spec(nodes_view(body@));
                    let lv = instrs_view(pre_instrs) + compile_node_spec(
                        node_view(nodes@[i as int]),
                    );
                    assert(node_view(nodes@[i as int]) == AstSpec::Loop(nodes_view(body@)));
                    assert(offset == inner.len() + 1);
                    assert(instrs@ == after_body.update(
                        begin_pos as int,
                        Instr::BeginLoop(offset),
                    ).push(Instr::EndLoop(offset)));
                    assert(instrs_view(after_body) == instrs_view(mid_instrs) + inner);
                    assert forall|j: int| 0 <= j < instrs@.len() implies instrs_view(instrs@)[j]
                        == lv[j] by {
                        if j < begin_pos {
                            assert(instrs_view(after_body)[j] == instrs_view(mid_instrs)[j]);
                            assert(instrs_view(mid_instrs)[j] == instr_view(mid_instrs[j]));
                            assert(mid_instrs[j] == pre_instrs[j]);
                            assert(instrs@[j] == after_body[j]);
                        } else if j == begin_pos {
                            assert(instrs@[j] == Instr::BeginLoop(offset));
                        } else if j < instrs@.len() - 1 {
                            assert(instrs@[j] == after_body[j]);
                            assert(instrs_view(after_body)[j] == inner[j - (begin_pos + 1)]);
                            assert(lv[j] == inner[j - (begin_pos + 1)]);
                        } else {
                            assert(instrs@[j] == Instr::EndLoop(offset));
                        }
                    }
                    assert(instrs_view(instrs@) =~= lv);
                }
            },
        }
        proof {
            assert(instrs_view(instrs@) =~= instrs_view(pre_instrs) + compile_node_spec(
                node_view(nodes@[i as int]),
            ));
            let all = nodes_view(nodes@);
            assert(all.subrange(0, i + 1 as int).drop_last() =~= prefix);
            assert(all.subrange(0, i + 1 as int).last() == node_view(nodes@[i as int]));
            assert(compile_seq_spec(all.subrange(0, i + 1 as int)) == compile_seq_spec(prefix)
                + compile_node_spec(all.subrange(0, i + 1 as int).last()));
            assert(instrs_view(instrs@) =~= instrs_view(old(instrs)@) + compile_seq_spec(
                all.subrange(0, i + 1 as int),
            ));
        }
        i += 1;
    }
    proof {
        assert(nodes_view(nodes@).subrange(0, nodes@.len() as int) =~= nodes_view(nodes@));
    }
}

/// Flatten a whole program.
pub fn compile(nodes: &Vec<AstNode>) -> (instrs: Vec<Instr>)
    ensures
        instrs_view(instrs@) == compile_seq_spec(nodes_view(nodes@)),
{
    let mut instrs: Vec<Instr> = Vec::new();
    compile_into(nodes, &mut instrs);
    proof {
        assert(instrs_view(instrs@) =~= compile_seq_spec(nodes_view(nodes@)));
    }
    instrs
}

} // verus!
