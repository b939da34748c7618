use vstd::prelude::*;

use crate::code_gen::{push_u32_le, u32_le};
use crate::jit_promise::JITPromiseID;
use crate::jit_target::{VTableEntry, vtable_index};

verus! {

broadcast use vstd::std_specs::vec::group_vec_axioms;

// Register usage of the emitted code:
// x19 - Brainfuck memory pointer (callee-saved)
// x20 - host context pointer (callee-saved)
// x21 - vtable pointer (callee-saved)
// x0-x7 - function arguments and return values
// x8-x10 - temporary registers

/// The single-word return instruction.
pub const RET: u32 = 0xd65f_03c0;

/// The word that loads the target offset into the index register: `movz`
/// for a non-negative offset, `movn` on its bitwise complement otherwise.
/// `base_pos` and `base_neg` choose the destination register and width.
pub open spec fn move_offset_word(offset: i16, base_pos: u32, base_neg: u32) -> u32 {
    if offset >= 0 {
        base_pos | ((offset as u32) << 5)
    } else {
        base_neg | ((((0 - (offset as int) - 1) as u32)) << 5)
    }
}

pub open spec fn callee_save_code() -> Seq<u8> {
    // stp x29,x30 / stp x19,x20 / stp x21,x22 / mov x29,sp
    u32_le(0xa9bf_7bfd) + u32_le(0xa9bf_53f3) + u32_le(0xa9bf_5bf5) + u32_le(0x9100_03fd)
}

pub open spec fn callee_restore_code() -> Seq<u8> {
    // ldp x21,x22 / ldp x19,x20 / ldp x29,x30
    u32_le(0xa8c1_5bf5) + u32_le(0xa8c1_53f3) + u32_le(0xa8c1_7bfd)
}

/// Prologue, inlined body, epilogue, `ret`.
pub open spec fn wrapper_code(content: Seq<u8>) -> Seq<u8> {
    callee_save_code() + u32_le(0xaa00_03f3)  // mov x19,x0
     + u32_le(0xaa01_03f4)  // mov x20,x1
     + u32_le(0xaa02_03f5)  // mov x21,x2
     + content + u32_le(0xaa13_03e0)  // mov x0,x19
     + callee_restore_code() + u32_le(RET)
}

pub open spec fn decr_code(n: u8) -> Seq<u8> {
    u32_le(0x3940_0268) + u32_le(0x5100_0108 | ((n as u32) << 10)) + u32_le(0x3900_0268)
}

pub open spec fn incr_code(n: u8) -> Seq<u8> {
    u32_le(0x3940_0268) + u32_le(0x1100_0108 | ((n as u32) << 10)) + u32_le(0x3900_0268)
}

pub open spec fn next_code(n: u16) -> Seq<u8> {
    u32_le(0xd280_0008 | ((n as u32) << 5)) + u32_le(0x8b08_0273)
}

pub open spec fn prev_code(n: u16) -> Seq<u8> {
    u32_le(0xd280_0008 | ((n as u32) << 5)) + u32_le(0xcb08_0273)
}

pub open spec fn fn_call_pre_code() -> Seq<u8> {
    // stp x19,x20 / str x21
    u32_le(0xa9bf_53f3) + u32_le(0xf81f_0ff5)
}

pub open spec fn fn_call_post_code() -> Seq<u8> {
    // ldr x21 / ldp x19,x20
    u32_le(0xf841_07f5) + u32_le(0xa8c1_53f3)
}

/// `ldr x8,[x21,#8*slot]; blr x8`.
pub open spec fn call_vtable_code(entry: VTableEntry) -> Seq<u8> {
    u32_le(0xf940_0008 | (21u32 << 5) | ((vtable_index(entry) as u32) << 10)) + u32_le(
        0xd63f_0100,
    )
}

pub open spec fn print_code() -> Seq<u8> {
    fn_call_pre_code() + u32_le(0xaa14_03e0)  // mov x0,x20
     + u32_le(0x3940_0261)  // ldrb w1,[x19]
     + call_vtable_code(VTableEntry::Print) + fn_call_post_code()
}

pub open spec fn read_code() -> Seq<u8> {
    fn_call_pre_code() + u32_le(0xaa14_03e0)  // mov x0,x20
     + call_vtable_code(VTableEntry::Read) + fn_call_post_code() + u32_le(0x3900_0260)
}

pub open spec fn set_code(value: u8) -> Seq<u8> {
    u32_le(0x5280_0008 | ((value as u32) << 5)) + u32_le(0x3900_0268)
}

/// Load the source cell, add it to the cell at the offset, zero the source.
pub open spec fn add_code(offset: i16) -> Seq<u8> {
    u32_le(0x3940_0268) + u32_le(move_offset_word(offset, 0xd280_0009, 0x9280_0009)) + u32_le(
        0x3869_6a6a,
    ) + u32_le(0x0b0a_0108) + u32_le(0x3829_6a68) + u32_le(0x3900_027f)
}

/// Load the source cell, subtract it from the cell at the offset, zero the
/// source.
pub open spec fn sub_code(offset: i16) -> Seq<u8> {
    u32_le(0x3940_0268) + u32_le(move_offset_word(offset, 0xd280_0009, 0x9280_0009)) + u32_le(
        0x3869_6a6a,
    ) + u32_le(0x4b08_014a) + u32_le(0x3829_6a6a) + u32_le(0x3900_027f)
}

/// One load/add/store group per target.
pub open spec fn copy_targets_code(offsets: Seq<i16>, i: int) -> Seq<u8>
    decreases offsets.len() - i,
{
    if i >= offsets.len() {
        Seq::empty()
    } else {
        u32_le(move_offset_word(offsets[i], 0x5280_0009, 0x1280_0009)) + u32_le(0x38a9_6a6a)
            + u32_le(0x0b08_014a) + u32_le(0x3829_6a6a) + copy_targets_code(offsets, i + 1)
    }
}

/// Load the source cell once, add it to every target, zero the source.
pub open spec fn copy_to_code(offsets: Seq<i16>) -> Seq<u8> {
    u32_le(0x3940_0268) + copy_targets_code(offsets, 0) + u32_le(0x3900_027f)
}

/// One load/subtract/store group per target.
pub open spec fn sub_targets_code(offsets: Seq<i16>, i: int) -> Seq<u8>
    decreases offsets.len() - i,
{
    if i >= offsets.len() {
        Seq::empty()
    } else {
        u32_le(move_offset_word(offsets[i], 0x5280_0009, 0x1280_0009)) + u32_le(0x38a9_6a6a)
            + u32_le(0x4b08_014a) + u32_le(0x3829_6a6a) + sub_targets_code(offsets, i + 1)
    }
}

/// Load the source cell once, subtract it from every target, zero the
/// source.
pub open spec fn sub_from_code(offsets: Seq<i16>) -> Seq<u8> {
    u32_le(0x3940_0268) + sub_targets_code(offsets, 0) + u32_le(0x3900_027f)
}

/// Multiply the source cell by a factor, add the product to the cell at
/// the offset, zero the source.
pub open spec fn multiply_add_code(offset: i16, factor: u8) -> Seq<u8> {
    u32_le(0x3940_0268) + u32_le(0x5280_0009 | ((factor as u32) << 5)) + u32_le(0x1b09_7d08)
        + u32_le(move_offset_word(offset, 0x5280_0009, 0x1280_0009)) + u32_le(0x38a9_6a6a)
        + u32_le(0x0b08_014a) + u32_le(0x3829_6a6a) + u32_le(0x3900_027f)
}

/// Inline loop: load and test, forward branch past the body, body, load and
/// test, backward branch to the start.
pub open spec fn aot_loop_code(inner: Seq<u8>) -> Seq<u8> {
    let words = inner.len() / 4;
    let skip = (words + 2) as u32;
    let back = (0x1_0000_0000 - (words + 2)) as u32;
    u32_le(0x3940_0268) + u32_le(0x3400_0008 | (skip << 5)) + inner + u32_le(0x3940_0268)
        + u32_le(0x3500_0008 | ((back & 0x0007_FFFF) << 5))
}

/// Call back into the host to enter (and lazily compile) a loop promise.
pub open spec fn jit_loop_code(loop_index: u16) -> Seq<u8> {
    u32_le(0xa9bf_57f4)  // stp x20,x21
     + u32_le(0xaa14_03e0)  // mov x0,x20
     + u32_le(0xd280_0001 | ((loop_index as u32) << 5))  // movz x1,#index
     + u32_le(0xaa13_03e2)  // mov x2,x19
     + call_vtable_code(VTableEntry::JITCallback) + u32_le(0xaa00_03f3)  // mov x19,x0
     + u32_le(0xa8c1_57f4)  // ldp x20,x21
}

/// Append one 32-bit instruction word.
fn emit_u32(bytes: &mut Vec<u8>, instruction: u32)
    ensures
        final(bytes)@ == old(bytes)@ + u32_le(instruction),
{
    push_u32_le(bytes, instruction);
}

/// The word that loads a target offset into the index register.
fn emit_offset_word(bytes: &mut Vec<u8>, offset: i16, base_pos: u32, base_neg: u32)
    requires
        base_pos == 0xd280_0009 || base_pos == 0x5280_0009,
        base_neg == 0x9280_0009 || base_neg == 0x1280_0009,
    ensures
        final(bytes)@ == old(bytes)@ + u32_le(move_offset_word(offset, base_pos, base_neg)),
{
    if offset >= 0 {
        emit_u32(bytes, base_pos | ((offset as u32) << 5));
    } else {
        // For negative values, move the complement with `movn`.
        let not_offset: u32 = ((0i32 - (offset as i32)) - 1) as u32;
        emit_u32(bytes, base_neg | (not_offset << 5));
    }
}

fn callee_save_to_stack(bytes: &mut Vec<u8>)
    ensures
        final(bytes)@ == old(bytes)@ + callee_save_code(),
{
    // stp x29, x30, [sp, #-16]!
    emit_u32(bytes, 0xa9bf_7bfd);

    // stp x19, x20, [sp, #-16]!
    emit_u32(bytes, 0xa9bf_53f3);

    // stp x21, x22, [sp, #-16]!
    emit_u32(bytes, 0xa9bf_5bf5);

    // mov x29, sp (set frame pointer)
    emit_u32(bytes, 0x9100_03fd);
    proof {
        assert(bytes@ =~= old(bytes)@ + callee_save_code());
    }
}

fn callee_restore_from_stack(bytes: &mut Vec<u8>)
    ensures
        final(bytes)@ == old(bytes)@ + callee_restore_code(),
{
    // ldp x21, x22, [sp], #16
    emit_u32(bytes, 0xa8c1_5bf5);

    // ldp x19, x20, [sp], #16
    emit_u32(bytes, 0xa8c1_53f3);

    // ldp x29, x30, [sp], #16
    emit_u32(bytes, 0xa8c1_7bfd);
    proof {
        assert(bytes@ =~= old(bytes)@ + callee_restore_code());
    }
}

/// Prologue, inline body, epilogue, `ret`.
pub fn wrapper(bytes: &mut Vec<u8>, content: Vec<u8>)
    ensures
        final(bytes)@ == old(bytes)@ + wrapper_code(content@),
{
    callee_save_to_stack(bytes);

    // Store pointer to brainfuck memory (first argument x0) in x19
    // mov x19, x0
    emit_u32(bytes, 0xaa00_03f3);

    // Store pointer to the host context (second argument x1) in x20
    // mov x20, x1
    emit_u32(bytes, 0xaa01_03f4);

    // Store pointer to vtable (third argument x2) in x21
    // mov x21, x2
    emit_u32(bytes, 0xaa02_03f5);

    let mut content = content;
    let ghost content_view = content@;
    bytes.append(&mut content);

    // Return the data pointer
    // mov x0, x19
    emit_u32(bytes, 0xaa13_03e0);

    callee_restore_from_stack(bytes);

    // ret
    emit_u32(bytes, RET);
    proof {
        assert(bytes@ =~= old(bytes)@ + wrapper_code(content_view));
    }
}

/// Load the current cell, subtract `n`, store it back.
pub fn decr(bytes: &mut Vec<u8>, n: u8)
    ensures
        final(bytes)@ == old(bytes)@ + decr_code(n),
{
    // ldrb w8, [x19]
    emit_u32(bytes, 0x3940_0268);

    // sub w8, w8, #n
    emit_u32(bytes, 0x5100_0108 | ((n as u32) << 10));

    // strb w8, [x19]
    emit_u32(bytes, 0x3900_0268);
    proof {
        assert(bytes@ =~= old(bytes)@ + decr_code(n));
    }
}

/// Load the current cell, add `n`, store it back.
pub fn incr(bytes: &mut Vec<u8>, n: u8)
    ensures
        final(bytes)@ == old(bytes)@ + incr_code(n),
{
    // ldrb w8, [x19]
    emit_u32(bytes, 0x3940_0268);

    // add w8, w8, #n
    emit_u32(bytes, 0x1100_0108 | ((n as u32) << 10));

    // strb w8, [x19]
    emit_u32(bytes, 0x3900_0268);
    proof {
        assert(bytes@ =~= old(bytes)@ + incr_code(n));
    }
}

/// Advance the data pointer by `n`.
pub fn next(bytes: &mut Vec<u8>, n: u16)
    ensures
        final(bytes)@ == old(bytes)@ + next_code(n),
{
    // movz x8, #n
    emit_u32(bytes, 0xd280_0008 | ((n as u32) << 5));

    // add x19, x19, x8
    emit_u32(bytes, 0x8b08_0273);
    proof {
        assert(bytes@ =~= old(bytes)@ + next_code(n));
    }
}

/// Move the data pointer back by `n`.
pub fn prev(bytes: &mut Vec<u8>, n: u16)
    ensures
        final(bytes)@ == old(bytes)@ + prev_code(n),
{
    // movz x8, #n
    emit_u32(bytes, 0xd280_0008 | ((n as u32) << 5));

    // sub x19, x19, x8
    emit_u32(bytes, 0xcb08_0273);
    proof {
        assert(bytes@ =~= old(bytes)@ + prev_code(n));
    }
}

fn fn_call_pre(bytes: &mut Vec<u8>)
    ensures
        final(bytes)@ == old(bytes)@ + fn_call_pre_code(),
{
    // stp x19, x20, [sp, #-16]!
    emit_u32(bytes, 0xa9bf_53f3);

    // str x21, [sp, #-16]!
    emit_u32(bytes, 0xf81f_0ff5);
    proof {
        assert(bytes@ =~= old(bytes)@ + fn_call_pre_code());
    }
}

fn fn_call_post(bytes: &mut Vec<u8>)
    ensures
        final(bytes)@ == old(bytes)@ + fn_call_post_code(),
{
    // ldr x21, [sp], #16
    emit_u32(bytes, 0xf841_07f5);

    // ldp x19, x20, [sp], #16
    emit_u32(bytes, 0xa8c1_53f3);
    proof {
        assert(bytes@ =~= old(bytes)@ + fn_call_post_code());
    }
}

/// Make a call to a vtable entry through x21.
fn call_vtable_entry(bytes: &mut Vec<u8>, entry: VTableEntry)
    ensures
        final(bytes)@ == old(bytes)@ + call_vtable_code(entry),
{
    // ldr x8, [x21, #8*slot]
    emit_u32(bytes, 0xf940_0008 | (21u32 << 5) | ((entry.index() as u32) << 10));

    // blr x8
    emit_u32(bytes, 0xd63f_0100);
    proof {
        assert(bytes@ =~= old(bytes)@ + call_vtable_code(entry));
    }
}

/// Call the host's print entry with the current cell.
pub fn print(bytes: &mut Vec<u8>)
    ensures
        final(bytes)@ == old(bytes)@ + print_code(),
{
    fn_call_pre(bytes);

    // mov x0, x20
    emit_u32(bytes, 0xaa14_03e0);

    // ldrb w1, [x19]
    emit_u32(bytes, 0x3940_0261);

    call_vtable_entry(bytes, VTableEntry::Print);

    fn_call_post(bytes);
    proof {
        assert(bytes@ =~= old(bytes)@ + print_code());
    }
}

/// Call the host's read entry and store the byte in the current cell.
pub fn read(bytes: &mut Vec<u8>)
    ensures
        final(bytes)@ == old(bytes)@ + read_code(),
{
    fn_call_pre(bytes);

    // mov x0, x20
    emit_u32(bytes, 0xaa14_03e0);

    call_vtable_entry(bytes, VTableEntry::Read);

    fn_call_post(bytes);

    // strb w0, [x19]
    emit_u32(bytes, 0x3900_0260);
    proof {
        assert(bytes@ =~= old(bytes)@ + read_code());
    }
}

/// Store a literal value in the current cell.
pub fn set(bytes: &mut Vec<u8>, value: u8)
    ensures
        final(bytes)@ == old(bytes)@ + set_code(value),
{
    // mov w8, #value
    emit_u32(bytes, 0x5280_0008 | ((value as u32) << 5));

    // strb w8, [x19]
    emit_u32(bytes, 0x3900_0268);
    proof {
        assert(bytes@ =~= old(bytes)@ + set_code(value));
    }
}

/// Add the current cell to the cell at the offset, then zero it.
pub fn add(bytes: &mut Vec<u8>, offset: i16)
    ensures
        final(bytes)@ == old(bytes)@ + add_code(offset),
{
    // ldrb w8, [x19]
    emit_u32(bytes, 0x3940_0268);

    emit_offset_word(bytes, offset, 0xd280_0009, 0x9280_0009);

    // ldrb w10, [x19, x9]
    emit_u32(bytes, 0x3869_6a6a);

    // add w8, w8, w10
    emit_u32(bytes, 0x0b0a_0108);

    // strb w8, [x19, x9]
    emit_u32(bytes, 0x3829_6a68);

    // strb wzr, [x19]
    emit_u32(bytes, 0x3900_027f);
    proof {
        assert(bytes@ =~= old(bytes)@ + add_code(offset));
    }
}

/// Subtract the current cell from the cell at the offset, then zero it.
pub fn sub(bytes: &mut Vec<u8>, offset: i16)
    ensures
        final(bytes)@ == old(bytes)@ + sub_code(offset),
{
    // ldrb w8, [x19]
    emit_u32(bytes, 0x3940_0268);

    emit_offset_word(bytes, offset, 0xd280_0009, 0x9280_0009);

    // ldrb w10, [x19, x9]
    emit_u32(bytes, 0x3869_6a6a);

    // sub w10, w10, w8
    emit_u32(bytes, 0x4b08_014a);

    // strb w10, [x19, x9]
    emit_u32(bytes, 0x3829_6a6a);

    // strb wzr, [x19]
    emit_u32(bytes, 0x3900_027f);
    proof {
        assert(bytes@ =~= old(bytes)@ + sub_code(offset));
    }
}

/// Add the current cell to every target offset, then zero it.
#[verifier::loop_isolation(false)]
pub fn copy_to(bytes: &mut Vec<u8>, offsets: &Vec<i16>)
    ensures
        final(bytes)@ == old(bytes)@ + copy_to_code(offsets@),
{
    // ldrb w8, [x19]
    emit_u32(bytes, 0x3940_0268);

    let ghost header = bytes@;
    let mut i: usize = 0;
    while i < offsets.len()
        invariant
            i <= offsets@.len(),
            copy_targets_code(offsets@, 0) == bytes@.subrange(
                header.len() as int,
                bytes@.len() as int,
            ) + copy_targets_code(offsets@, i as int),
            bytes@.len() >= header.len(),
            bytes@.subrange(0, header.len() as int) == header,
        decreases offsets@.len() - i,
    {
        let ghost at = bytes@;
        emit_offset_word(bytes, offsets[i], 0x5280_0009, 0x1280_0009);

        // ldrb w10, [x19, w9, sxtw]
        emit_u32(bytes, 0x38a9_6a6a);

        // add w10, w10, w8
        emit_u32(bytes, 0x0b08_014a);

        // strb w10, [x19, w9, sxtw]
        emit_u32(bytes, 0x3829_6a6a);
        proof {
            assert(copy_targets_code(offsets@, 0) =~= bytes@.subrange(
                header.len() as int,
                bytes@.len() as int,
            ) + copy_targets_code(offsets@, i + 1));
            assert(bytes@.subrange(0, header.len() as int) =~= header);
        }
        i += 1;
    }

    proof {
        assert(copy_targets_code(offsets@, offsets@.len() as int) =~= Seq::<u8>::empty());
        assert(bytes@ =~= header + copy_targets_code(offsets@, 0));
    }

    // strb wzr, [x19]
    emit_u32(bytes, 0x3900_027f);
    proof {
        assert(bytes@ =~= old(bytes)@ + copy_to_code(offsets@));
    }
}

/// Subtract the current cell from every target offset, then zero it.
#[verifier::loop_isolation(false)]
pub fn sub_from(bytes: &mut Vec<u8>, offsets: &Vec<i16>)
    ensures
        final(bytes)@ == old(bytes)@ + sub_from_code(offsets@),
{
    // ldrb w8, [x19]
    emit_u32(bytes, 0x3940_0268);

    let ghost header = bytes@;
    let mut i: usize = 0;
    while i < offsets.len()
        invariant
            i <= offsets@.len(),
            sub_targets_code(offsets@, 0) == bytes@.subrange(
                header.len() as int,
                bytes@.len() as int,
            ) + sub_targets_code(offsets@, i as int),
            bytes@.len() >= header.len(),
            bytes@.subrange(0, header.len() as int) == header,
        decreases offsets@.len() - i,
    {
        let ghost at = bytes@;
        emit_offset_word(bytes, offsets[i], 0x5280_0009, 0x1280_0009);

        // ldrb w10, [x19, w9, sxtw]
        emit_u32(bytes, 0x38a9_6a6a);

        // sub w10, w10, w8
        emit_u32(bytes, 0x4b08_014a);

        // strb w10, [x19, w9, sxtw]
        emit_u32(bytes, 0x3829_6a6a);
        proof {
            assert(sub_targets_code(offsets@, 0) =~= bytes@.subrange(
                header.len() as int,
                bytes@.len() as int,
            ) + sub_targets_code(offsets@, i + 1));
            assert(bytes@.subrange(0, header.len() as int) =~= header);
        }
        i += 1;
    }

    proof {
        assert(sub_targets_code(offsets@, offsets@.len() as int) =~= Seq::<u8>::empty());
        assert(bytes@ =~= header + sub_targets_code(offsets@, 0));
    }

    // strb wzr, [x19]
    emit_u32(bytes, 0x3900_027f);
    proof {
        assert(bytes@ =~= old(bytes)@ + sub_from_code(offsets@));
    }
}

/// Multiply the current cell by a factor, add the product to the cell at
/// the offset, then zero the current cell.
pub fn multiply_add(bytes: &mut Vec<u8>, offset: i16, factor: u8)
    ensures
        final(bytes)@ == old(bytes)@ + multiply_add_code(offset, factor),
{
    // ldrb w8, [x19]
    emit_u32(bytes, 0x3940_0268);

    // mov w9, #factor
    emit_u32(bytes, 0x5280_0009 | ((factor as u32) << 5));

    // mul w8, w8, w9
    emit_u32(bytes, 0x1b09_7d08);

    emit_offset_word(bytes, offset, 0x5280_0009, 0x1280_0009);

    // ldrb w10, [x19, w9, sxtw]
    emit_u32(bytes, 0x38a9_6a6a);

    // add w10, w10, w8
    emit_u32(bytes, 0x0b08_014a);

    // strb w10, [x19, w9, sxtw]
    emit_u32(bytes, 0x3829_6a6a);

    // strb wzr, [x19]
    emit_u32(bytes, 0x3900_027f);
    proof {
        assert(bytes@ =~= old(bytes)@ + multiply_add_code(offset, factor));
    }
}

/// Inline loop: load and test, forward branch past the body, body, load
/// and test, backward branch to the start.
pub fn aot_loop(bytes: &mut Vec<u8>, inner_loop_bytes: Vec<u8>)
    requires
        inner_loop_bytes@.len() / 4 + 2 <= 0x3FFFF,
    ensures
        final(bytes)@ == old(bytes)@ + aot_loop_code(inner_loop_bytes@),
{
    // ldrb w8, [x19]
    emit_u32(bytes, 0x3940_0268);

    let words = inner_loop_bytes.len() / 4;

    // cbz w8, past the body and the branch back
    let skip: u32 = (words + 2) as u32;
    emit_u32(bytes, 0x3400_0008 | (skip << 5));

    let mut inner = inner_loop_bytes;
    let ghost inner_view = inner@;
    bytes.append(&mut inner);

    // ldrb w8, [x19]
    emit_u32(bytes, 0x3940_0268);

    // cbnz w8, back to the start
    let back: u32 = (0xFFFF_FFFFu32 - skip) + 1;
    emit_u32(bytes, 0x3500_0008 | ((back & 0x0007_FFFF) << 5));
    proof {
        assert(back == (0x1_0000_0000 - (inner_view.len() / 4 + 2)) as u32);
        assert(bytes@ =~= old(bytes)@ + aot_loop_code(inner_view));
    }
}

/// Call back into the host to enter (and lazily compile) a loop promise.
pub fn jit_loop(bytes: &mut Vec<u8>, loop_id: JITPromiseID)
    ensures
        final(bytes)@ == old(bytes)@ + jit_loop_code(loop_id.spec_value()),
{
    // stp x20, x21, [sp, #-16]!
    emit_u32(bytes, 0xa9bf_57f4);

    // mov x0, x20
    emit_u32(bytes, 0xaa14_03e0);

    // movz x1, #loop_id.value()
    emit_u32(bytes, 0xd280_0001 | ((loop_id.value() as u32) << 5));

    // mov x2, x19
    emit_u32(bytes, 0xaa13_03e2);

    call_vtable_entry(bytes, VTableEntry::JITCallback);

    // mov x19, x0
    emit_u32(bytes, 0xaa00_03f3);

    // ldp x20, x21, [sp], #16
    emit_u32(bytes, 0xa8c1_57f4);
    proof {
        assert(bytes@ =~= old(bytes)@ + jit_loop_code(loop_id.spec_value()));
    }
}

} // verus!
