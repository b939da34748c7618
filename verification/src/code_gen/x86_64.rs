use vstd::prelude::*;

use crate::code_gen::{push_u32_le, push_u64_le, u32_le, u64_le};
use crate::jit_promise::JITPromiseID;
use crate::jit_target::{VTableEntry, vtable_index};

verus! {

broadcast use vstd::std_specs::vec::group_vec_axioms;

// Register usage of the emitted code:
// r10 - Brainfuck memory pointer
// r11 - host context pointer
// r12 - vtable pointer
// rax - scratch and return values

/// The single-byte return instruction.
pub const RET: u8 = 0xc3;

/// `push` every callee-saved register.
pub open spec fn callee_save_code() -> Seq<u8> {
    seq![0x53u8, 0x55, 0x57, 0x56, 0x54, 0x41, 0x54, 0x41, 0x55, 0x41, 0x56, 0x41, 0x57]
}

/// `pop` every callee-saved register, in reverse order.
pub open spec fn callee_restore_code() -> Seq<u8> {
    seq![0x41u8, 0x5f, 0x41, 0x5e, 0x41, 0x5d, 0x41, 0x5c, 0x5c, 0x5e, 0x5f, 0x5d, 0x5b]
}

/// Prologue, inlined body, epilogue, `ret`.
pub open spec fn wrapper_code(content: Seq<u8>) -> Seq<u8> {
    callee_save_code() + seq![0x49u8, 0x89, 0xfa]  // mov r10,rdi
     + seq![0x49u8, 0x89, 0xf3]  // mov r11,rsi
     + seq![0x49u8, 0x89, 0xd4]  // mov r12,rdx
     + content + seq![0x4cu8, 0x89, 0xd0]  // mov rax,r10
     + callee_restore_code() + seq![RET]
}

pub open spec fn decr_code(n: u8) -> Seq<u8> {
    seq![0x41u8, 0x80, 0x2a, n]
}

pub open spec fn incr_code(n: u8) -> Seq<u8> {
    seq![0x41u8, 0x80, 0x02, n]
}

pub open spec fn next_code(n: u32) -> Seq<u8> {
    seq![0x49u8, 0x81, 0xc2] + u32_le(n)
}

pub open spec fn prev_code(n: u32) -> Seq<u8> {
    seq![0x49u8, 0x81, 0xea] + u32_le(n)
}

pub open spec fn fn_call_pre_code() -> Seq<u8> {
    seq![0x41u8, 0x52, 0x41, 0x53, 0x41, 0x54]
}

pub open spec fn fn_call_post_code() -> Seq<u8> {
    seq![0x41u8, 0x5c, 0x41, 0x5b, 0x41, 0x5a]
}

/// `call QWORD PTR [r12 + 8*slot]`.
pub open spec fn call_vtable_code(entry: VTableEntry) -> Seq<u8> {
    seq![0x41u8, 0xff, 0x54, 0x24, (vtable_index(entry) * 8) as u8]
}

pub open spec fn print_code() -> Seq<u8> {
    fn_call_pre_code() + seq![0x4cu8, 0x89, 0xdf]  // mov rdi,r11
     + seq![0x49u8, 0x0f, 0xb6, 0x32]  // movzx rsi,BYTE PTR [r10]
     + call_vtable_code(VTableEntry::Print) + fn_call_post_code()
}

pub open spec fn read_code() -> Seq<u8> {
    fn_call_pre_code() + seq![0x4cu8, 0x89, 0xdf]  // mov rdi,r11
     + call_vtable_code(VTableEntry::Read) + fn_call_post_code() + seq![0x41u8, 0x88, 0x02]
}

pub open spec fn set_code(value: u8) -> Seq<u8> {
    seq![0x41u8, 0xc6, 0x02, value]
}

/// `movzx eax,[r10]; movabs r13,offset; add [r10+r13],al; mov BYTE [r10],0`.
pub open spec fn add_code(offset: isize) -> Seq<u8> {
    seq![0x41u8, 0x0f, 0xb6, 0x02] + seq![0x49u8, 0xbd] + u64_le(offset as u64) + seq![
        0x43u8,
        0x00,
        0x04,
        0x2a,
    ] + seq![0x41u8, 0xc6, 0x02, 0x00]
}

/// As `add_code`, with `sub [r10+r13],al`.
pub open spec fn sub_code(offset: isize) -> Seq<u8> {
    seq![0x41u8, 0x0f, 0xb6, 0x02] + seq![0x49u8, 0xbd] + u64_le(offset as u64) + seq![
        0x43u8,
        0x28,
        0x04,
        0x2a,
    ] + seq![0x41u8, 0xc6, 0x02, 0x00]
}

/// One `movabs r13,offset; add [r10+r13],al` pair per target.
pub open spec fn copy_targets_code(offsets: Seq<i16>, i: int) -> Seq<u8>
    decreases offsets.len() - i,
{
    if i >= offsets.len() {
        Seq::empty()
    } else {
        seq![0x49u8, 0xbd] + u64_le(offsets[i] as u64) + seq![0x43u8, 0x00, 0x04, 0x2a]
            + copy_targets_code(offsets, i + 1)
    }
}

/// Load the source cell once, add it to every target, zero the source.
pub open spec fn copy_to_code(offsets: Seq<i16>) -> Seq<u8> {
    seq![0x41u8, 0x0f, 0xb6, 0x02] + copy_targets_code(offsets, 0) + seq![
        0x41u8,
        0xc6,
        0x02,
        0x00,
    ]
}

/// One `movabs r13,offset; sub [r10+r13],al` pair per target.
pub open spec fn sub_targets_code(offsets: Seq<i16>, i: int) -> Seq<u8>
    decreases offsets.len() - i,
{
    if i >= offsets.len() {
        Seq::empty()
    } else {
        seq![0x49u8, 0xbd] + u64_le(offsets[i] as u64) + seq![0x43u8, 0x28, 0x04, 0x2a]
            + sub_targets_code(offsets, i + 1)
    }
}

/// Load the source cell once, subtract it from every target, zero the
/// source.
pub open spec fn sub_from_code(offsets: Seq<i16>) -> Seq<u8> {
    seq![0x41u8, 0x0f, 0xb6, 0x02] + sub_targets_code(offsets, 0) + seq![
        0x41u8,
        0xc6,
        0x02,
        0x00,
    ]
}

/// `movzx eax,[r10]; imul eax,eax,factor; movabs r13,offset;
/// add [r10+r13],al; mov BYTE [r10],0`.
pub open spec fn multiply_add_code(offset: i16, factor: u8) -> Seq<u8> {
    seq![0x41u8, 0x0f, 0xb6, 0x02] + seq![0x69u8, 0xc0] + u32_le(factor as u32) + seq![
        0x49u8,
        0xbd,
    ] + u64_le(offset as u64) + seq![0x43u8, 0x00, 0x04, 0x2a] + seq![0x41u8, 0xc6, 0x02, 0x00]
}

/// `cmp [r10],0; je end; body; cmp [r10],0; jne start`.
pub open spec fn aot_loop_code(inner: Seq<u8>) -> Seq<u8> {
    let fwd = (inner.len() + 10) as u32;
    let back = (0x1_0000_0000 - (inner.len() + 10)) as u32;
    seq![0x41u8, 0x80, 0x3a, 0x00] + seq![0x0fu8, 0x84] + u32_le(fwd) + inner + seq![
        0x41u8,
        0x80,
        0x3a,
        0x00,
    ] + seq![0x0fu8, 0x85] + u32_le(back)
}

/// Push the live registers, call the loop promise through the vtable, store
/// the returned data pointer, restore the registers.
pub open spec fn jit_loop_code(loop_index: u16) -> Seq<u8> {
    seq![0x41u8, 0x53, 0x41, 0x54] + seq![0x4cu8, 0x89, 0xdf]  // mov rdi,r11
     + seq![0x48u8, 0xbe] + u64_le(loop_index as u64) + seq![0x4cu8, 0x89, 0xd2]  // mov rdx,r10
     + call_vtable_code(VTableEntry::JITCallback) + seq![0x49u8, 0x89, 0xc2]  // mov r10,rax
     + seq![0x41u8, 0x5c, 0x41, 0x5b]
}

fn callee_save_to_stack(bytes: &mut Vec<u8>)
    ensures
        final(bytes)@ == old(bytes)@ + callee_save_code(),
{
    // push rbx / rbp / rdi / rsi / rsp
    bytes.push(0x53);
    bytes.push(0x55);
    bytes.push(0x57);
    bytes.push(0x56);
    bytes.push(0x54);
    // push r12 / r13 / r14 / r15
    bytes.push(0x41);
    bytes.push(0x54);
    bytes.push(0x41);
    bytes.push(0x55);
    bytes.push(0x41);
    bytes.push(0x56);
    bytes.push(0x41);
    bytes.push(0x57);
    proof {
        assert(bytes@ =~= old(bytes)@ + callee_save_code());
    }
}

fn callee_restore_from_stack(bytes: &mut Vec<u8>)
    ensures
        final(bytes)@ == old(bytes)@ + callee_restore_code(),
{
    // pop r15 / r14 / r13 / r12
    bytes.push(0x41);
    bytes.push(0x5f);
    bytes.push(0x41);
    bytes.push(0x5e);
    bytes.push(0x41);
    bytes.push(0x5d);
    bytes.push(0x41);
    bytes.push(0x5c);
    // pop rsp / rsi / rdi / rbp / rbx
    bytes.push(0x5c);
    bytes.push(0x5e);
    bytes.push(0x5f);
    bytes.push(0x5d);
    bytes.push(0x5b);
    proof {
        assert(bytes@ =~= old(bytes)@ + callee_restore_code());
    }
}

/// Prologue, inline body, epilogue, `ret`.
pub fn wrapper(bytes: &mut Vec<u8>, content: Vec<u8>)
    ensures
        final(bytes)@ == old(bytes)@ + wrapper_code(content@),
{
    callee_save_to_stack(bytes);

    // Store pointer to brainfuck memory (first argument) in r10
    // mov    r10,rdi
    bytes.push(0x49);
    bytes.push(0x89);
    bytes.push(0xfa);

    // Store pointer to the host context (second argument) in r11
    // mov    r11,rsi
    bytes.push(0x49);
    bytes.push(0x89);
    bytes.push(0xf3);

    // Store pointer to vtable (third argument) in r12
    // mov    r12,rdx
    bytes.push(0x49);
    bytes.push(0x89);
    bytes.push(0xd4);

    let mut content = content;
    let ghost content_view = content@;
    bytes.append(&mut content);

    // Return the data pointer
    // mov    rax,r10
    bytes.push(0x4c);
    bytes.push(0x89);
    bytes.push(0xd0);

    callee_restore_from_stack(bytes);

    // ret
    bytes.push(RET);
    proof {
        assert(bytes@ =~= old(bytes)@ + wrapper_code(content_view));
    }
}

/// `sub BYTE PTR [r10],n`.
pub fn decr(bytes: &mut Vec<u8>, n: u8)
    ensures
        final(bytes)@ == old(bytes)@ + decr_code(n),
{
    bytes.push(0x41);
    bytes.push(0x80);
    bytes.push(0x2a);
    bytes.push(n);
    proof {
        assert(bytes@ =~= old(bytes)@ + decr_code(n));
    }
}

/// `add BYTE PTR [r10],n`.
pub fn incr(bytes: &mut Vec<u8>, n: u8)
    ensures
        final(bytes)@ == old(bytes)@ + incr_code(n),
{
    bytes.push(0x41);
    bytes.push(0x80);
    bytes.push(0x02);
    bytes.push(n);
    proof {
        assert(bytes@ =~= old(bytes)@ + incr_code(n));
    }
}

/// `add r10,n`.
pub fn next(bytes: &mut Vec<u8>, n: usize)
    requires
        n < 0x1_0000_0000,
    ensures
        final(bytes)@ == old(bytes)@ + next_code(n as u32),
{
    bytes.push(0x49);
    bytes.push(0x81);
    bytes.push(0xc2);
    push_u32_le(bytes, n as u32);
    proof {
        assert(bytes@ =~= old(bytes)@ + next_code(n as u32));
    }
}

/// `sub r10,n`.
pub fn prev(bytes: &mut Vec<u8>, n: usize)
    requires
        n < 0x1_0000_0000,
    ensures
        final(bytes)@ == old(bytes)@ + prev_code(n as u32),
{
    bytes.push(0x49);
    bytes.push(0x81);
    bytes.push(0xea);
    push_u32_le(bytes, n as u32);
    proof {
        assert(bytes@ =~= old(bytes)@ + prev_code(n as u32));
    }
}

fn fn_call_pre(bytes: &mut Vec<u8>)
    ensures
        final(bytes)@ == old(bytes)@ + fn_call_pre_code(),
{
    // push r10 / r11 / r12
    bytes.push(0x41);
    bytes.push(0x52);
    bytes.push(0x41);
    bytes.push(0x53);
    bytes.push(0x41);
    bytes.push(0x54);
    proof {
        assert(bytes@ =~= old(bytes)@ + fn_call_pre_code());
    }
}

fn fn_call_post(bytes: &mut Vec<u8>)
    ensures
        final(bytes)@ == old(bytes)@ + fn_call_post_code(),
{
    // pop r12 / r11 / r10
    bytes.push(0x41);
    bytes.push(0x5c);
    bytes.push(0x41);
    bytes.push(0x5b);
    bytes.push(0x41);
    bytes.push(0x5a);
    proof {
        assert(bytes@ =~= old(bytes)@ + fn_call_post_code());
    }
}

/// Make a call to a vtable entry through r12.
fn call_vtable_entry(bytes: &mut Vec<u8>, entry: VTableEntry)
    ensures
        final(bytes)@ == old(bytes)@ + call_vtable_code(entry),
{
    // call   QWORD PTR [r12+8*slot]
    bytes.push(0x41);
    bytes.push(0xff);
    bytes.push(0x54);
    bytes.push(0x24);
    bytes.push(entry.index() * 8);
    proof {
        assert(bytes@ =~= old(bytes)@ + call_vtable_code(entry));
    }
}

/// Call the host's print entry with the current cell.
pub fn print(bytes: &mut Vec<u8>)
    ensures
        final(bytes)@ == old(bytes)@ + print_code(),
{
    fn_call_pre(bytes);

    // mov    rdi,r11
    bytes.push(0x4c);
    bytes.push(0x89);
    bytes.push(0xdf);

    // movzx    rsi,BYTE PTR [r10]
    bytes.push(0x49);
    bytes.push(0x0f);
    bytes.push(0xb6);
    bytes.push(0x32);

    call_vtable_entry(bytes, VTableEntry::Print);

    fn_call_post(bytes);
    proof {
        assert(bytes@ =~= old(bytes)@ + print_code());
    }
}

/// Call the host's read entry and store the byte in the current cell.
pub fn read(bytes: &mut Vec<u8>)
    ensures
        final(bytes)@ == old(bytes)@ + read_code(),
{
    fn_call_pre(bytes);

    // mov    rdi,r11
    bytes.push(0x4c);
    bytes.push(0x89);
    bytes.push(0xdf);

    call_vtable_entry(bytes, VTableEntry::Read);

    fn_call_post(bytes);

    // mov    BYTE PTR [r10],al
    bytes.push(0x41);
    bytes.push(0x88);
    bytes.push(0x02);
    proof {
        assert(bytes@ =~= old(bytes)@ + read_code());
    }
}

/// `mov BYTE PTR [r10],value`.
pub fn set(bytes: &mut Vec<u8>, value: u8)
    ensures
        final(bytes)@ == old(bytes)@ + set_code(value),
{
    bytes.push(0x41);
    bytes.push(0xc6);
    bytes.push(0x02);
    bytes.push(value);
    proof {
        assert(bytes@ =~= old(bytes)@ + set_code(value));
    }
}

/// Add the current cell to the cell at the offset, then zero it.
pub fn add(bytes: &mut Vec<u8>, offset: isize)
    ensures
        final(bytes)@ == old(bytes)@ + add_code(offset),
{
    // movzx  eax,BYTE PTR [r10]
    bytes.push(0x41);
    bytes.push(0x0f);
    bytes.push(0xb6);
    bytes.push(0x02);

    // movabs r13,offset
    bytes.push(0x49);
    bytes.push(0xbd);
    push_u64_le(bytes, offset as u64);

    // add    BYTE PTR [r10+r13],al
    bytes.push(0x43);
    bytes.push(0x00);
    bytes.push(0x04);
    bytes.push(0x2a);

    // mov    BYTE PTR [r10],0
    bytes.push(0x41);
    bytes.push(0xc6);
    bytes.push(0x02);
    bytes.push(0x00);
    proof {
        assert(bytes@ =~= old(bytes)@ + add_code(offset));
    }
}

/// Subtract the current cell from the cell at the offset, then zero it.
pub fn sub(bytes: &mut Vec<u8>, offset: isize)
    ensures
        final(bytes)@ == old(bytes)@ + sub_code(offset),
{
    // movzx  eax,BYTE PTR [r10]
    bytes.push(0x41);
    bytes.push(0x0f);
    bytes.push(0xb6);
    bytes.push(0x02);

    // movabs r13,offset
    bytes.push(0x49);
    bytes.push(0xbd);
    push_u64_le(bytes, offset as u64);

    // sub    BYTE PTR [r10+r13],al
    bytes.push(0x43);
    bytes.push(0x28);
    bytes.push(0x04);
    bytes.push(0x2a);

    // mov    BYTE PTR [r10],0
    bytes.push(0x41);
    bytes.push(0xc6);
    bytes.push(0x02);
    bytes.push(0x00);
    proof {
        assert(bytes@ =~= old(bytes)@ + sub_code(offset));
    }
}

/// Add the current cell to every target offset, then zero it.
#[verifier::loop_isolation(false)]
pub fn copy_to(bytes: &mut Vec<u8>, offsets: &Vec<i16>)
    ensures
        final(bytes)@ == old(bytes)@ + copy_to_code(offsets@),
{
    // movzx  eax,BYTE PTR [r10]
    bytes.push(0x41);
    bytes.push(0x0f);
    bytes.push(0xb6);
    bytes.push(0x02);

    let ghost header = bytes@;
    let mut i: usize = 0;
    while i < offsets.len()
        invariant
            i <= offsets@.len(),
            bytes@ == header + copy_targets_code(offsets@, 0).subrange(
                0,
                bytes@.len() - header.len(),
            ),
            copy_targets_code(offsets@, 0) == bytes@.subrange(
                header.len() as int,
                bytes@.len() as int,
            ) + copy_targets_code(offsets@, i as int),
        decreases offsets@.len() - i,
    {
        let ghost at = bytes@;
        // movabs r13,offset
        bytes.push(0x49);
        bytes.push(0xbd);
        push_u64_le(bytes, offsets[i] as u64);

        // add    BYTE PTR [r10+r13],al
        bytes.push(0x43);
        bytes.push(0x00);
        bytes.push(0x04);
        bytes.push(0x2a);
        proof {
            assert(bytes@ =~= at + (seq![0x49u8, 0xbd] + u64_le(offsets@[i as int] as u64) + seq![
                0x43u8,
                0x00,
                0x04,
                0x2a,
            ]));
            assert(copy_targets_code(offsets@, 0) =~= bytes@.subrange(
                header.len() as int,
                bytes@.len() as int,
            ) + copy_targets_code(offsets@, i + 1));
            assert(bytes@ =~= header + copy_targets_code(offsets@, 0).subrange(
                0,
                bytes@.len() - header.len(),
            ));
        }
        i += 1;
    }

    // mov    BYTE PTR [r10],0
    bytes.push(0x41);
    bytes.push(0xc6);
    bytes.push(0x02);
    bytes.push(0x00);
    proof {
        assert(copy_targets_code(offsets@, offsets@.len() as int) =~= Seq::<u8>::empty());
        assert(bytes@ =~= old(bytes)@ + copy_to_code(offsets@));
    }
}

/// Subtract the current cell from every target offset, then zero it.
#[verifier::loop_isolation(false)]
pub fn sub_from(bytes: &mut Vec<u8>, offsets: &Vec<i16>)
    ensures
        final(bytes)@ == old(bytes)@ + sub_from_code(offsets@),
{
    // movzx  eax,BYTE PTR [r10]
    bytes.push(0x41);
    bytes.push(0x0f);
    bytes.push(0xb6);
    bytes.push(0x02);

    let ghost header = bytes@;
    let mut i: usize = 0;
    while i < offsets.len()
        invariant
            i <= offsets@.len(),
            bytes@ == header + sub_targets_code(offsets@, 0).subrange(
                0,
                bytes@.len() - header.len(),
            ),
            sub_targets_code(offsets@, 0) == bytes@.subrange(
                header.len() as int,
                bytes@.len() as int,
            ) + sub_targets_code(offsets@, i as int),
        decreases offsets@.len() - i,
    {
        let ghost at = bytes@;
        // movabs r13,offset
        bytes.push(0x49);
        bytes.push(0xbd);
        push_u64_le(bytes, offsets[i] as u64);

        // sub    BYTE PTR [r10+r13],al
        bytes.push(0x43);
        bytes.push(0x28);
        bytes.push(0x04);
        bytes.push(0x2a);
        proof {
            assert(bytes@ =~= at + (seq![0x49u8, 0xbd] + u64_le(offsets@[i as int] as u64) + seq![
                0x43u8,
                0x28,
                0x04,
                0x2a,
            ]));
            assert(sub_targets_code(offsets@, 0) =~= bytes@.subrange(
                header.len() as int,
                bytes@.len() as int,
            ) + sub_targets_code(offsets@, i + 1));
            assert(bytes@ =~= header + sub_targets_code(offsets@, 0).subrange(
                0,
                bytes@.len() - header.len(),
            ));
        }
        i += 1;
    }

    // mov    BYTE PTR [r10],0
    bytes.push(0x41);
    bytes.push(0xc6);
    bytes.push(0x02);
    bytes.push(0x00);
    proof {
        assert(sub_targets_code(offsets@, offsets@.len() as int) =~= Seq::<u8>::empty());
        assert(bytes@ =~= old(bytes)@ + sub_from_code(offsets@));
    }
}

/// Multiply the current cell by a factor, add the product to the cell at
/// the offset, then zero the current cell.
pub fn multiply_add(bytes: &mut Vec<u8>, offset: i16, factor: u8)
    ensures
        final(bytes)@ == old(bytes)@ + multiply_add_code(offset, factor),
{
    // movzx  eax,BYTE PTR [r10]
    bytes.push(0x41);
    bytes.push(0x0f);
    bytes.push(0xb6);
    bytes.push(0x02);

    // imul   eax,eax,factor
    bytes.push(0x69);
    bytes.push(0xc0);
    push_u32_le(bytes, factor as u32);

    // movabs r13,offset
    bytes.push(0x49);
    bytes.push(0xbd);
    push_u64_le(bytes, offset as u64);

    // add    BYTE PTR [r10+r13],al
    bytes.push(0x43);
    bytes.push(0x00);
    bytes.push(0x04);
    bytes.push(0x2a);

    // mov    BYTE PTR [r10],0
    bytes.push(0x41);
    bytes.push(0xc6);
    bytes.push(0x02);
    bytes.push(0x00);
    proof {
        assert(bytes@ =~= old(bytes)@ + multiply_add_code(offset, factor));
    }
}

/// Inline loop: test, conditional jump past the body, body, test,
/// conditional jump back.
pub fn aot_loop(bytes: &mut Vec<u8>, inner_loop_bytes: Vec<u8>)
    requires
        inner_loop_bytes@.len() + 10 <= 0x7FFF_FFFF,
    ensures
        final(bytes)@ == old(bytes)@ + aot_loop_code(inner_loop_bytes@),
{
    let byte_offset: u32 = (inner_loop_bytes.len() + 10) as u32;

    // cmp    BYTE PTR [r10],0x0
    bytes.push(0x41);
    bytes.push(0x80);
    bytes.push(0x3a);
    bytes.push(0x00);

    // je     end
    bytes.push(0x0f);
    bytes.push(0x84);
    push_u32_le(bytes, byte_offset);

    let mut inner = inner_loop_bytes;
    let ghost inner_view = inner@;
    bytes.append(&mut inner);

    // cmp    BYTE PTR [r10],0x0
    bytes.push(0x41);
    bytes.push(0x80);
    bytes.push(0x3a);
    bytes.push(0x00);

    // jne    start
    let back: u32 = (0xFFFF_FFFFu32 - byte_offset) + 1;
    bytes.push(0x0f);
    bytes.push(0x85);
    push_u32_le(bytes, back);
    proof {
        assert(bytes@ =~= old(bytes)@ + aot_loop_code(inner_view));
    }
}

/// Call back into the host to enter (and lazily compile) a loop promise.
pub fn jit_loop(bytes: &mut Vec<u8>, loop_index: JITPromiseID)
    ensures
        final(bytes)@ == old(bytes)@ + jit_loop_code(loop_index.spec_value()),
{
    // push   r11 / r12
    bytes.push(0x41);
    bytes.push(0x53);
    bytes.push(0x41);
    bytes.push(0x54);

    // mov    rdi,r11
    bytes.push(0x4c);
    bytes.push(0x89);
    bytes.push(0xdf);

    // movabs rsi,index
    bytes.push(0x48);
    bytes.push(0xbe);
    push_u64_le(bytes, loop_index.value() as u64);

    // mov    rdx,r10
    bytes.push(0x4c);
    bytes.push(0x89);
    bytes.push(0xd2);

    call_vtable_entry(bytes, VTableEntry::JITCallback);

    // mov    r10,rax
    bytes.push(0x49);
    bytes.push(0x89);
    bytes.push(0xc2);

    // pop    r12 / r11
    bytes.push(0x41);
    bytes.push(0x5c);
    bytes.push(0x41);
    bytes.push(0x5b);
    proof {
        assert(bytes@ =~= old(bytes)@ + jit_loop_code(loop_index.spec_value()));
    }
}

} // verus!
