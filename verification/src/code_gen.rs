pub mod aarch64;
pub mod x86_64;

use vstd::prelude::*;

verus! {

broadcast use vstd::std_specs::vec::group_vec_axioms;

/// The instruction set a code generator emits for.
#[derive(Clone, Copy, Debug, PartialEq, Eq, Structural)]
pub enum TargetArch {
    X86_64,
    Aarch64,
}

/// The little-endian bytes of a 32-bit value.
pub open spec fn u32_le(x: u32) -> Seq<u8> {
    seq![
        (x & 0xFF) as u8,
        ((x >> 8) & 0xFF) as u8,
        ((x >> 16) & 0xFF) as u8,
        ((x >> 24) & 0xFF) as u8,
    ]
}

/// The little-endian bytes of a 64-bit value.
pub open spec fn u64_le(x: u64) -> Seq<u8> {
    seq![
        (x & 0xFF) as u8,
        ((x >> 8) & 0xFF) as u8,
        ((x >> 16) & 0xFF) as u8,
        ((x >> 24) & 0xFF) as u8,
        ((x >> 32) & 0xFF) as u8,
        ((x >> 40) & 0xFF) as u8,
        ((x >> 48) & 0xFF) as u8,
        ((x >> 56) & 0xFF) as u8,
    ]
}

/// Append the little-endian bytes of a 32-bit value.
pub fn push_u32_le(bytes: &mut Vec<u8>, x: u32)
    ensures
        final(bytes)@ == old(bytes)@ + u32_le(x),
{
    bytes.push((x & 0xFF) as u8);
    bytes.push(((x >> 8) & 0xFF) as u8);
    bytes.push(((x >> 16) & 0xFF) as u8);
    bytes.push(((x >> 24) & 0xFF) as u8);
    proof {
        assert(bytes@ =~= old(bytes)@ + u32_le(x));
    }
}

/// Append the little-endian bytes of a 64-bit value.
pub fn push_u64_le(bytes: &mut Vec<u8>, x: u64)
    ensures
        final(bytes)@ == old(bytes)@ + u64_le(x),
{
    bytes.push((x & 0xFF) as u8);
    bytes.push(((x >> 8) & 0xFF) as u8);
    bytes.push(((x >> 16) & 0xFF) as u8);
    bytes.push(((x >> 24) & 0xFF) as u8);
    bytes.push(((x >> 32) & 0xFF) as u8);
    bytes.push(((x >> 40) & 0xFF) as u8);
    bytes.push(((x >> 48) & 0xFF) as u8);
    bytes.push(((x >> 56) & 0xFF) as u8);
    proof {
        assert(bytes@ =~= old(bytes)@ + u64_le(x));
    }
}

/// Bytes of the wrapper around a compiled body, per architecture.
#[verifier::opaque]
pub open spec fn wrapper_code(arch: TargetArch, content: Seq<u8>) -> Seq<u8> {
    match arch {
        TargetArch::X86_64 => x86_64::wrapper_code(content),
        TargetArch::Aarch64 => aarch64::wrapper_code(content),
    }
}

#[verifier::opaque]
pub open spec fn incr_code(arch: TargetArch, n: u8) -> Seq<u8> {
    match arch {
        TargetArch::X86_64 => x86_64::incr_code(n),
        TargetArch::Aarch64 => aarch64::incr_code(n),
    }
}

#[verifier::opaque]
pub open spec fn decr_code(arch: TargetArch, n: u8) -> Seq<u8> {
    match arch {
        TargetArch::X86_64 => x86_64::decr_code(n),
        TargetArch::Aarch64 => aarch64::decr_code(n),
    }
}

#[verifier::opaque]
pub open spec fn next_code(arch: TargetArch, n: u16) -> Seq<u8> {
    match arch {
        TargetArch::X86_64 => x86_64::next_code(n as u32),
        TargetArch::Aarch64 => aarch64::next_code(n),
    }
}

#[verifier::opaque]
pub open spec fn prev_code(arch: TargetArch, n: u16) -> Seq<u8> {
    match arch {
        TargetArch::X86_64 => x86_64::prev_code(n as u32),
        TargetArch::Aarch64 => aarch64::prev_code(n),
    }
}

#[verifier::opaque]
pub open spec fn print_code(arch: TargetArch) -> Seq<u8> {
    match arch {
        TargetArch::X86_64 => x86_64::print_code(),
        TargetArch::Aarch64 => aarch64::print_code(),
    }
}

#[verifier::opaque]
pub open spec fn read_code(arch: TargetArch) -> Seq<u8> {
    match arch {
        TargetArch::X86_64 => x86_64::read_code(),
        TargetArch::Aarch64 => aarch64::read_code(),
    }
}

#[verifier::opaque]
pub open spec fn set_code(arch: TargetArch, v: u8) -> Seq<u8> {
    match arch {
        TargetArch::X86_64 => x86_64::set_code(v),
        TargetArch::Aarch64 => aarch64::set_code(v),
    }
}

#[verifier::opaque]
pub open spec fn add_code(arch: TargetArch, offset: i16) -> Seq<u8> {
    match arch {
        TargetArch::X86_64 => x86_64::add_code(offset as isize),
        TargetArch::Aarch64 => aarch64::add_code(offset),
    }
}

#[verifier::opaque]
pub open spec fn sub_code(arch: TargetArch, offset: i16) -> Seq<u8> {
    match arch {
        TargetArch::X86_64 => x86_64::sub_code(offset as isize),
        TargetArch::Aarch64 => aarch64::sub_code(offset),
    }
}

#[verifier::opaque]
pub open spec fn copy_to_code(arch: TargetArch, offsets: Seq<i16>) -> Seq<u8> {
    match arch {
        TargetArch::X86_64 => x86_64::copy_to_code(offsets),
        TargetArch::Aarch64 => aarch64::copy_to_code(offsets),
    }
}

#[verifier::opaque]
pub open spec fn sub_from_code(arch: TargetArch, offsets: Seq<i16>) -> Seq<u8> {
    match arch {
        TargetArch::X86_64 => x86_64::sub_from_code(offsets),
        TargetArch::Aarch64 => aarch64::sub_from_code(offsets),
    }
}

#[verifier::opaque]
pub open spec fn multiply_add_code(arch: TargetArch, offset: i16, factor: u8) -> Seq<u8> {
    match arch {
        TargetArch::X86_64 => x86_64::multiply_add_code(offset, factor),
        TargetArch::Aarch64 => aarch64::multiply_add_code(offset, factor),
    }
}

#[verifier::opaque]
pub open spec fn aot_loop_code(arch: TargetArch, inner: Seq<u8>) -> Seq<u8> {
    match arch {
        TargetArch::X86_64 => x86_64::aot_loop_code(inner),
        TargetArch::Aarch64 => aarch64::aot_loop_code(inner),
    }
}

#[verifier::opaque]
pub open spec fn jit_loop_code(arch: TargetArch, loop_index: u16) -> Seq<u8> {
    match arch {
        TargetArch::X86_64 => x86_64::jit_loop_code(loop_index),
        TargetArch::Aarch64 => aarch64::jit_loop_code(loop_index),
    }
}

/// Whether an inline loop body is small enough for the architecture's
/// conditional-branch range.
pub open spec fn aot_loop_fits(arch: TargetArch, len: int) -> bool {
    match arch {
        TargetArch::X86_64 => len + 10 <= 0x7FFF_FFFF,
        TargetArch::Aarch64 => len / 4 + 2 <= 0x3FFFF,
    }
}

pub fn wrapper(arch: TargetArch, bytes: &mut Vec<u8>, content: Vec<u8>)
    ensures
        final(bytes)@ == old(bytes)@ + wrapper_code(arch, content@),
{
    proof {
        reveal(wrapper_code);
    }
    match arch {
        TargetArch::X86_64 => x86_64::wrapper(bytes, content),
        TargetArch::Aarch64 => aarch64::wrapper(bytes, content),
    }
}

pub fn incr(arch: TargetArch, bytes: &mut Vec<u8>, n: u8)
    ensures
        final(bytes)@ == old(bytes)@ + incr_code(arch, n),
{
    proof {
        reveal(incr_code);
    }
    match arch {
        TargetArch::X86_64 => x86_64::incr(bytes, n),
        TargetArch::Aarch64 => aarch64::incr(bytes, n),
    }
}

pub fn decr(arch: TargetArch, bytes: &mut Vec<u8>, n: u8)
    ensures
        final(bytes)@ == old(bytes)@ + decr_code(arch, n),
{
    proof {
        reveal(decr_code);
    }
    match arch {
        TargetArch::X86_64 => x86_64::decr(bytes, n),
        TargetArch::Aarch64 => aarch64::decr(bytes, n),
    }
}

pub fn next(arch: TargetArch, bytes: &mut Vec<u8>, n: u16)
    ensures
        final(bytes)@ == old(bytes)@ + next_code(arch, n),
{
    proof {
        reveal(next_code);
    }
    match arch {
        TargetArch::X86_64 => x86_64::next(bytes, n as usize),
        TargetArch::Aarch64 => aarch64::next(bytes, n),
    }
}

pub fn prev(arch: TargetArch, bytes: &mut Vec<u8>, n: u16)
    ensures
        final(bytes)@ == old(bytes)@ + prev_code(arch, n),
{
    proof {
        reveal(prev_code);
    }
    match arch {
        TargetArch::X86_64 => x86_64::prev(bytes, n as usize),
        TargetArch::Aarch64 => aarch64::prev(bytes, n),
    }
}

pub fn print(arch: TargetArch, bytes: &mut Vec<u8>)
    ensures
        final(bytes)@ == old(bytes)@ + print_code(arch),
{
    proof {
        reveal(print_code);
    }
    match arch {
        TargetArch::X86_64 => x86_64::print(bytes),
        TargetArch::Aarch64 => aarch64::print(bytes),
    }
}

pub fn read(arch: TargetArch, bytes: &mut Vec<u8>)
    ensures
        final(bytes)@ == old(bytes)@ + read_code(arch),
{
    proof {
        reveal(read_code);
    }
    match arch {
        TargetArch::X86_64 => x86_64::read(bytes),
        TargetArch::Aarch64 => aarch64::read(bytes),
    }
}

pub fn set(arch: TargetArch, bytes: &mut Vec<u8>, v: u8)
    ensures
        final(bytes)@ == old(bytes)@ + set_code(arch, v),
{
    proof {
        reveal(set_code);
    }
    match arch {
        TargetArch::X86_64 => x86_64::set(bytes, v),
        TargetArch::Aarch64 => aarch64::set(bytes, v),
    }
}

pub fn add(arch: TargetArch, bytes: &mut Vec<u8>, offset: i16)
    ensures
        final(bytes)@ == old(bytes)@ + add_code(arch, offset),
{
    proof {
        reveal(add_code);
    }
    match arch {
        TargetArch::X86_64 => x86_64::add(bytes, offset as isize),
        TargetArch::Aarch64 => aarch64::add(bytes, offset),
    }
}

pub fn sub(arch: TargetArch, bytes: &mut Vec<u8>, offset: i16)
    ensures
        final(bytes)@ == old(bytes)@ + sub_code(arch, offset),
{
    proof {
        reveal(sub_code);
    }
    match arch {
        TargetArch::X86_64 => x86_64::sub(bytes, offset as isize),
        TargetArch::Aarch64 => aarch64::sub(bytes, offset),
    }
}

pub fn copy_to(arch: TargetArch, bytes: &mut Vec<u8>, offsets: &Vec<i16>)
    ensures
        final(bytes)@ == old(bytes)@ + copy_to_code(arch, offsets@),
{
    proof {
        reveal(copy_to_code);
    }
    match arch {
        TargetArch::X86_64 => x86_64::copy_to(bytes, offsets),
        TargetArch::Aarch64 => aarch64::copy_to(bytes, offsets),
    }
}

pub fn sub_from(arch: TargetArch, bytes: &mut Vec<u8>, offsets: &Vec<i16>)
    ensures
        final(bytes)@ == old(bytes)@ + sub_from_code(arch, offsets@),
{
    proof {
        reveal(sub_from_code);
    }
    match arch {
        TargetArch::X86_64 => x86_64::sub_from(bytes, offsets),
        TargetArch::Aarch64 => aarch64::sub_from(bytes, offsets),
    }
}

pub fn multiply_add(arch: TargetArch, bytes: &mut Vec<u8>, offset: i16, factor: u8)
    ensures
        final(bytes)@ == old(bytes)@ + multiply_add_code(arch, offset, factor),
{
    proof {
        reveal(multiply_add_code);
    }
    match arch {
        TargetArch::X86_64 => x86_64::multiply_add(bytes, offset, factor),
        TargetArch::Aarch64 => aarch64::multiply_add(bytes, offset, factor),
    }
}

/// Whether an inline loop body is small enough for the architecture's
/// conditional-branch range.
pub fn fits_aot_loop(arch: TargetArch, len: usize) -> (r: bool)
    ensures
        r == aot_loop_fits(arch, len as int),
{
    match arch {
        TargetArch::X86_64 => len <= 0x7FFF_FFFF - 10,
        TargetArch::Aarch64 => len / 4 <= 0x3FFFF - 2,
    }
}

pub fn aot_loop(arch: TargetArch, bytes: &mut Vec<u8>, inner_loop_bytes: Vec<u8>)
    requires
        aot_loop_fits(arch, inner_loop_bytes@.len() as int),
    ensures
        final(bytes)@ == old(bytes)@ + aot_loop_code(arch, inner_loop_bytes@),
{
    proof {
        reveal(aot_loop_code);
    }
    match arch {
        TargetArch::X86_64 => x86_64::aot_loop(bytes, inner_loop_bytes),
        TargetArch::Aarch64 => aarch64::aot_loop(bytes, inner_loop_bytes),
    }
}

pub fn jit_loop(arch: TargetArch, bytes: &mut Vec<u8>, loop_index: crate::jit_promise::JITPromiseID)
    ensures
        final(bytes)@ == old(bytes)@ + jit_loop_code(arch, loop_index.spec_value()),
{
    proof {
        reveal(jit_loop_code);
    }
    match arch {
        TargetArch::X86_64 => x86_64::jit_loop(bytes, loop_index),
        TargetArch::Aarch64 => aarch64::jit_loop(bytes, loop_index),
    }
}

} // verus!
