use vstd::prelude::*;

use crate::ast::{AstNode, AstSpec, duplicate_nodes, nodes_view};
use crate::code_gen;
use crate::code_gen::TargetArch;
use crate::jit_promise::{PromiseSet, PromiseSpec, add_spec};

verus! {

broadcast use vstd::std_specs::vec::group_vec_axioms;

/// A condition that stops JIT setup.
#[derive(Clone, Copy, Debug, PartialEq, Eq, Structural)]
pub enum JitError {
    /// An inline loop body grew past the conditional-branch range.
    LoopTooLarge,
    /// The promise pool would need more than the 16-bit ID space.
    TooManyPromises,
}

/// A loop whose body holds fewer nodes than this is compiled inline; larger
/// bodies are deferred to the promise pool.
pub const INLINE_THRESHOLD: usize = 0x16;

/// Indexes into the vtable passed into JIT compiled code.
#[derive(Clone, Copy, Debug, PartialEq, Eq, Structural)]
pub enum VTableEntry {
    JITCallback,
    Read,
    Print,
}

/// The slot of a vtable entry.
pub open spec fn vtable_index(e: VTableEntry) -> u8 {
    match e {
        VTableEntry::JITCallback => 0,
        VTableEntry::Read => 1,
        VTableEntry::Print => 2,
    }
}

impl VTableEntry {
    /// The slot this entry occupies.
    pub fn index(self) -> (r: u8)
        ensures
            r == vtable_index(self),
    {
        match self {
            VTableEntry::JITCallback => 0,
            VTableEntry::Read => 1,
            VTableEntry::Print => 2,
        }
    }
}

/// Machine code compiled for one program or loop body: the source nodes and
/// the emitted bytes.  Copying the bytes into executable pages and calling
/// into them is the host's affair.
pub struct JITTarget {
    /// Original AST.
    pub source: Vec<AstNode>,
    /// Emitted machine-code bytes.
    pub code: Vec<u8>,
}

/// Globals for a whole program's JIT state: the promise pool shared by
/// every target the program compiles.
pub struct JITContext {
    /// All deferred and compiled loop bodies of the program.
    pub promises: PromiseSet,
}

impl JITContext {
    pub fn new() -> (r: JITContext)
        ensures
            r.promises.view_pool() == Seq::<Option<PromiseSpec>>::empty(),
    {
        let r = JITContext { promises: PromiseSet::new() };
        proof {
            assert(r.promises.view_pool() =~= Seq::<Option<PromiseSpec>>::empty());
        }
        r
    }
}

/// The code and pool state one node compiles to: small loops are inlined,
/// large loops become an indirect call through a pool entry.
pub open spec fn emit_node_spec(
    arch: TargetArch,
    node: AstSpec,
    pool: Seq<Option<PromiseSpec>>,
) -> Result<(Seq<u8>, Seq<Option<PromiseSpec>>), JitError>
    decreases node, 1int,
{
    match node {
        AstSpec::Incr(n) => Ok((code_gen::incr_code(arch, n), pool)),
        AstSpec::Decr(n) => Ok((code_gen::decr_code(arch, n), pool)),
        AstSpec::Next(n) => Ok((code_gen::next_code(arch, n), pool)),
        AstSpec::Prev(n) => Ok((code_gen::prev_code(arch, n), pool)),
        AstSpec::Print => Ok((code_gen::print_code(arch), pool)),
        AstSpec::Read => Ok((code_gen::read_code(arch), pool)),
        AstSpec::SetTo(v) => Ok((code_gen::set_code(arch, v), pool)),
        AstSpec::AddTo(offs) => Ok(
            (
                if offs.len() == 1 {
                    code_gen::add_code(arch, offs[0])
                } else {
                    code_gen::copy_to_code(arch, offs)
                },
                pool,
            ),
        ),
        AstSpec::SubFrom(offs) => Ok(
            (
                if offs.len() == 1 {
                    code_gen::sub_code(arch, offs[0])
                } else {
                    code_gen::sub_from_code(arch, offs)
                },
                pool,
            ),
        ),
        AstSpec::MultiplyAddTo(off, k) => Ok((code_gen::multiply_add_code(arch, off, k), pool)),
        AstSpec::Loop(body) => if body.len() < INLINE_THRESHOLD {
            match shallow_spec(arch, body, pool) {
                Err(e) => Err(e),
                Ok((inner, pool1)) => if code_gen::aot_loop_fits(arch, inner.len() as int) {
                    Ok((code_gen::aot_loop_code(arch, inner), pool1))
                } else {
                    Err(JitError::LoopTooLarge)
                },
            }
        } else {
            if pool.len() >= 0x10000 {
                Err(JitError::TooManyPromises)
            } else {
                let (pool2, id) = add_spec(pool, body);
                Ok((code_gen::jit_loop_code(arch, id as u16), pool2))
            }
        },
    }
}

/// The code and pool state a stream of nodes compiles to, left to right.
pub open spec fn shallow_spec(
    arch: TargetArch,
    nodes: Seq<AstSpec>,
    pool: Seq<Option<PromiseSpec>>,
) -> Result<(Seq<u8>, Seq<Option<PromiseSpec>>), JitError>
    decreases nodes, 0int,
{
    if nodes.len() == 0 {
        Ok((Seq::empty(), pool))
    } else {
        match shallow_spec(arch, nodes.drop_last(), pool) {
            Err(e) => Err(e),
            Ok((code, pool1)) => match emit_node_spec(arch, nodes.last(), pool1) {
                Err(e) => Err(e),
                Ok((c2, pool2)) => Ok((code + c2, pool2)),
            },
        }
    }
}

/// A setup error met on a prefix dooms the whole compilation.
proof fn lemma_shallow_err(
    arch: TargetArch,
    s: Seq<AstSpec>,
    pool: Seq<Option<PromiseSpec>>,
    j: int,
    e: JitError,
)
    requires
        0 <= j <= s.len(),
        shallow_spec(arch, s.subrange(0, j), pool) == Err::<(Seq<u8>, Seq<Option<PromiseSpec>>),
            JitError,
        >(e),
    ensures
        shallow_spec(arch, s, pool) == Err::<(Seq<u8>, Seq<Option<PromiseSpec>>), JitError>(e),
    decreases s.len() - j,
{
    if j == s.len() {
        assert(s.subrange(0, j) =~= s);
    } else {
        assert(s.subrange(0, j + 1).drop_last() =~= s.subrange(0, j));
        lemma_shallow_err(arch, s, pool, j + 1, e);
    }
}

/// Extending a compiled prefix by one successfully compiled node.
proof fn lemma_shallow_step(
    arch: TargetArch,
    all: Seq<AstSpec>,
    pool0: Seq<Option<PromiseSpec>>,
    i: int,
    prefix_code: Seq<u8>,
    pool_i: Seq<Option<PromiseSpec>>,
    node_code: Seq<u8>,
    pool_next: Seq<Option<PromiseSpec>>,
)
    requires
        0 <= i < all.len(),
        shallow_spec(arch, all.subrange(0, i), pool0) == Ok::<
            (Seq<u8>, Seq<Option<PromiseSpec>>),
            JitError,
        >((prefix_code, pool_i)),
        emit_node_spec(arch, all[i], pool_i) == Ok::<
            (Seq<u8>, Seq<Option<PromiseSpec>>),
            JitError,
        >((node_code, pool_next)),
    ensures
        shallow_spec(arch, all.subrange(0, i + 1), pool0) == Ok::<
            (Seq<u8>, Seq<Option<PromiseSpec>>),
            JitError,
        >((prefix_code + node_code, pool_next)),
{
    assert(all.subrange(0, i + 1).drop_last() =~= all.subrange(0, i));
    assert(all.subrange(0, i + 1).last() == all[i]);
}

/// A node whose compilation fails dooms the stream from that point.
proof fn lemma_shallow_step_err(
    arch: TargetArch,
    all: Seq<AstSpec>,
    pool0: Seq<Option<PromiseSpec>>,
    i: int,
    prefix_code: Seq<u8>,
    pool_i: Seq<Option<PromiseSpec>>,
    e: JitError,
)
    requires
        0 <= i < all.len(),
        shallow_spec(arch, all.subrange(0, i), pool0) == Ok::<
            (Seq<u8>, Seq<Option<PromiseSpec>>),
            JitError,
        >((prefix_code, pool_i)),
        emit_node_spec(arch, all[i], pool_i) == Err::<
            (Seq<u8>, Seq<Option<PromiseSpec>>),
            JitError,
        >(e),
    ensures
        shallow_spec(arch, all, pool0) == Err::<(Seq<u8>, Seq<Option<PromiseSpec>>), JitError>(
            e,
        ),
{
    assert(all.subrange(0, i + 1).drop_last() =~= all.subrange(0, i));
    assert(all.subrange(0, i + 1).last() == all[i]);
    assert(shallow_spec(arch, all.subrange(0, i + 1), pool0) == Err::<
        (Seq<u8>, Seq<Option<PromiseSpec>>),
        JitError,
    >(e));
    lemma_shallow_err(arch, all, pool0, i + 1, e);
}

impl JITTarget {
    /// Compile one node onto the end of `bytes`.
    #[verifier::rlimit(60)]
    #[verifier::spinoff_prover]
    fn emit_one(
        arch: TargetArch,
        node: &AstNode,
        bytes: &mut Vec<u8>,
        promises: &mut PromiseSet,
    ) -> (r: Result<(), JitError>)
        ensures
            match emit_node_spec(arch, crate::ast::node_view(*node), old(promises).view_pool()) {
                Ok((code, pool2)) => r == Ok::<(), JitError>(()) && final(bytes)@ == old(bytes)@
                    + code && final(promises).view_pool() == pool2,
                Err(e) => r == Err::<(), JitError>(e),
            },
        decreases *node, 1int,
    {
        match node {
            AstNode::Incr(n) => {
                code_gen::incr(arch, bytes, *n);
                Ok(())
            },
            AstNode::Decr(n) => {
                code_gen::decr(arch, bytes, *n);
                Ok(())
            },
            AstNode::Next(n) => {
                code_gen::next(arch, bytes, *n);
                Ok(())
            },
            AstNode::Prev(n) => {
                code_gen::prev(arch, bytes, *n);
                Ok(())
            },
            AstNode::Print => {
                code_gen::print(arch, bytes);
                Ok(())
            },
            AstNode::Read => {
                code_gen::read(arch, bytes);
                Ok(())
            },
            AstNode::SetTo(n) => {
                code_gen::set(arch, bytes, *n);
                Ok(())
            },
            AstNode::AddTo(offs) => {
                if offs.len() == 1 {
                    code_gen::add(arch, bytes, offs[0]);
                } else {
                    code_gen::copy_to(arch, bytes, offs);
                }
                Ok(())
            },
            AstNode::SubFrom(offs) => {
                if offs.len() == 1 {
                    code_gen::sub(arch, bytes, offs[0]);
                } else {
                    code_gen::sub_from(arch, bytes, offs);
                }
                Ok(())
            },
            AstNode::MultiplyAddTo(off, k) => {
                code_gen::multiply_add(arch, bytes, *off, *k);
                Ok(())
            },
            AstNode::Loop(body) => {
                proof {
                    assert(decreases_to!(*node => *body));
                    assert(decreases_to!(*body => body@));
                }
                if body.len() < INLINE_THRESHOLD {
                    match Self::compile_loop(arch, body, promises) {
                        Ok(mut inner) => {
                            bytes.append(&mut inner);
                            Ok(())
                        },
                        Err(e) => Err(e),
                    }
                } else {
                    match Self::defer_loop(arch, body, promises) {
                        Ok(mut call) => {
                            bytes.append(&mut call);
                            Ok(())
                        },
                        Err(e) => Err(e),
                    }
                }
            },
        }
    }

    /// Compile a stream of nodes onto the end of `bytes`, deferring large
    /// loops through the promise pool.
    #[verifier::loop_isolation(false)]
    #[verifier::rlimit(60)]
    #[verifier::spinoff_prover]
    fn shallow_compile(
        arch: TargetArch,
        nodes: &Vec<AstNode>,
        bytes: &mut Vec<u8>,
        promises: &mut PromiseSet,
    ) -> (r: Result<(), JitError>)
        ensures
            match shallow_spec(arch, nodes_view(nodes@), old(promises).view_pool()) {
                Ok((code, pool2)) => r == Ok::<(), JitError>(()) && final(bytes)@ == old(bytes)@
                    + code && final(promises).view_pool() == pool2,
                Err(e) => r == Err::<(), JitError>(e),
            },
        decreases nodes@, 0int,
    {
        let ghost all = nodes_view(nodes@);
        let ghost pool0 = promises.view_pool();
        let ghost base = bytes@;
        let mut i: usize = 0;
        proof {
            assert(shallow_spec(arch, all.subrange(0, 0), pool0) == Ok::<
                (Seq<u8>, Seq<Option<PromiseSpec>>),
                JitError,
            >((Seq::empty(), pool0)));
            assert(bytes@.subrange(base.len() as int, bytes@.len() as int) =~= Seq::<
                u8,
            >::empty());
        }
        while i < nodes.len()
            invariant
                i <= nodes@.len(),
                shallow_spec(arch, all.subrange(0, i as int), pool0) == Ok::<
                    (Seq<u8>, Seq<Option<PromiseSpec>>),
                    JitError,
                >((bytes@.subrange(base.len() as int, bytes@.len() as int), promises.view_pool())),
                bytes@.len() >= base.len(),
                bytes@.subrange(0, base.len() as int) == base,
            decreases nodes@.len() - i,
        {
            let ghost prefix_code = bytes@.subrange(base.len() as int, bytes@.len() as int);
            let ghost pool_i = promises.view_pool();
            let ghost at = bytes@;
            proof {
                assert(decreases_to!(nodes@ => nodes@[i as int]));
            }
            match Self::emit_one(arch, &nodes[i], bytes, promises) {
                Ok(()) => {
                    proof {
                        assert(all[i as int] == crate::ast::node_view(nodes@[i as int]));
                        match emit_node_spec(arch, all[i as int], pool_i) {
                            Ok((code, p2)) => {
                                assert(bytes@.subrange(at.len() as int, bytes@.len() as int)
                                    =~= code);
                            },
                            Err(_) => {},
                        }
                        lemma_shallow_step(
                            arch,
                            all,
                            pool0,
                            i as int,
                            prefix_code,
                            pool_i,
                            bytes@.subrange(at.len() as int, bytes@.len() as int),
                            promises.view_pool(),
                        );
                        assert(bytes@.subrange(base.len() as int, bytes@.len() as int)
                            =~= prefix_code + bytes@.subrange(at.len() as int, bytes@.len() as int));
                        assert(bytes@.subrange(0, base.len() as int) =~= base);
                    }
                },
                Err(e) => {
                    proof {
                        assert(all[i as int] == crate::ast::node_view(nodes@[i as int]));
                        lemma_shallow_step_err(arch, all, pool0, i as int, prefix_code, pool_i, e);
                    }
                    return Err(e);
                },
            }
            i += 1;
        }
        proof {
            assert(all.subrange(0, nodes@.len() as int) =~= all);
        }
        Ok(())
    }

    /// Perform ahead-of-time compilation on a loop: its body inline between
    /// the bracket tests.
    fn compile_loop(arch: TargetArch, nodes: &Vec<AstNode>, promises: &mut PromiseSet) -> (r:
        Result<Vec<u8>, JitError>)
        ensures
            match shallow_spec(arch, nodes_view(nodes@), old(promises).view_pool()) {
                Ok((inner, pool1)) => if code_gen::aot_loop_fits(arch, inner.len() as int) {
                    match r {
                        Ok(code) => code@ == code_gen::aot_loop_code(arch, inner)
                            && final(promises).view_pool() == pool1,
                        Err(_) => false,
                    }
                } else {
                    r == Err::<Vec<u8>, JitError>(JitError::LoopTooLarge)
                },
                Err(e) => r == Err::<Vec<u8>, JitError>(e),
            },
        decreases nodes@, 1int,
    {
        let mut inner: Vec<u8> = Vec::new();
        match Self::shallow_compile(arch, nodes, &mut inner, promises) {
            Ok(()) => {
                if !code_gen::fits_aot_loop(arch, inner.len()) {
                    return Err(JitError::LoopTooLarge);
                }
                let mut code: Vec<u8> = Vec::new();
                code_gen::aot_loop(arch, &mut code, inner);
                Ok(code)
            },
            Err(e) => Err(e),
        }
    }

    /// Defer a loop: register its body in the promise pool and emit the
    /// indirect call that enters it.
    fn defer_loop(arch: TargetArch, nodes: &Vec<AstNode>, promises: &mut PromiseSet) -> (r: Result<
        Vec<u8>,
        JitError,
    >)
        ensures
            ({
                let pool0 = old(promises).view_pool();
                if pool0.len() >= 0x10000 {
                    r == Err::<Vec<u8>, JitError>(JitError::TooManyPromises)
                } else {
                    let (pool2, id) = add_spec(pool0, nodes_view(nodes@));
                    match r {
                        Ok(code) => code@ == code_gen::jit_loop_code(arch, id as u16)
                            && final(promises).view_pool() == pool2,
                        Err(_) => false,
                    }
                }
            }),
    {
        if promises.len() >= 0x10000 {
            return Err(JitError::TooManyPromises);
        }
        let body = duplicate_nodes(nodes);
        let id = promises.add(body);
        let mut code: Vec<u8> = Vec::new();
        code_gen::jit_loop(arch, &mut code, id);
        Ok(code)
    }

    /// Initialize a JIT compiled version of a program: the wrapper around
    /// the shallow-compiled body, with large loops deferred into the pool.
    pub fn new(nodes: Vec<AstNode>, arch: TargetArch, context: &mut JITContext) -> (r: Result<
        JITTarget,
        JitError,
    >)
        ensures
            match shallow_spec(arch, nodes_view(nodes@), old(context).promises.view_pool()) {
                Ok((code, pool2)) => match r {
                    Ok(t) => t.code@ == code_gen::wrapper_code(arch, code) && t.source == nodes
                        && final(context).promises.view_pool() == pool2,
                    Err(_) => false,
                },
                Err(e) => r == Err::<JITTarget, JitError>(e),
            },
    {
        let mut body_bytes: Vec<u8> = Vec::new();
        match Self::shallow_compile(arch, &nodes, &mut body_bytes, &mut context.promises) {
            Ok(()) => {
                let mut code: Vec<u8> = Vec::new();
                code_gen::wrapper(arch, &mut code, body_bytes);
                Ok(JITTarget { source: nodes, code })
            },
            Err(e) => Err(e),
        }
    }

    /// Compile one deferred loop body on first entry: the wrapper around the
    /// inline loop for the body.
    pub fn new_fragment(nodes: Vec<AstNode>, arch: TargetArch, context: &mut JITContext) -> (r:
        Result<JITTarget, JitError>)
        ensures
            match shallow_spec(arch, nodes_view(nodes@), old(context).promises.view_pool()) {
                Ok((inner, pool1)) => if code_gen::aot_loop_fits(arch, inner.len() as int) {
                    match r {
                        Ok(t) => t.code@ == code_gen::wrapper_code(
                            arch,
                            code_gen::aot_loop_code(arch, inner),
                        ) && t.source == nodes && final(context).promises.view_pool() == pool1,
                        Err(_) => false,
                    }
                } else {
                    r == Err::<JITTarget, JitError>(JitError::LoopTooLarge)
                },
                Err(e) => r == Err::<JITTarget, JitError>(e),
            },
    {
        match Self::compile_loop(arch, &nodes, &mut context.promises) {
            Ok(loop_code) => {
                let mut code: Vec<u8> = Vec::new();
                code_gen::wrapper(arch, &mut code, loop_code);
                Ok(JITTarget { source: nodes, code })
            },
            Err(e) => Err(e),
        }
    }
}

} // verus!
