use vstd::prelude::*;

verus! {

broadcast use vstd::std_specs::vec::group_vec_axioms;

/// Length of an executable buffer: an integer number of pages at least as
/// large as the source.
#[verifier::loop_isolation(false)]
pub fn calculate_length(source_length: usize, page_size: usize) -> (r: usize)
    requires
        page_size > 0,
        source_length <= usize::MAX - page_size,
    ensures
        r % page_size == 0,
        r >= source_length,
        r < source_length + page_size,
{
    proof {
        vstd::arithmetic::div_mod::lemma_fundamental_div_mod(
            source_length as int,
            page_size as int,
        );
        vstd::arithmetic::div_mod::lemma_mod_bound(source_length as int, page_size as int);
    }
    let rem = source_length % page_size;
    if rem == 0 {
        source_length
    } else {
        let q = source_length / page_size;
        proof {
            assert(page_size as int * (q as int) == source_length - rem);
            assert((q as int + 1) * (page_size as int) == source_length - rem + page_size)
                by (nonlinear_arith)
                requires
                    page_size as int * (q as int) == source_length - rem,
            {}
            vstd::arithmetic::div_mod::lemma_mod_multiples_basic(
                q as int + 1,
                page_size as int,
            );
        }
        let r = (q + 1) * page_size;
        r
    }
}

/// Pre-fill a buffer with the architecture's return instruction, repeated,
/// so that a stray jump past emitted code returns cleanly.
#[verifier::loop_isolation(false)]
pub fn fill_with_ret(buffer: &mut Vec<u8>, ret_bytes: &Vec<u8>)
    requires
        ret_bytes@.len() >= 1,
        old(buffer)@.len() % ret_bytes@.len() == 0,
    ensures
        final(buffer)@.len() == old(buffer)@.len(),
        forall|i: int|
            0 <= i < final(buffer)@.len() ==> final(buffer)@[i] == ret_bytes@[i % (
            ret_bytes@.len() as int)],
{
    let mut i: usize = 0;
    while i < buffer.len()
        invariant
            i <= buffer@.len(),
            buffer@.len() == old(buffer)@.len(),
            forall|k: int|
                0 <= k < i ==> buffer@[k] == ret_bytes@[k % (ret_bytes@.len() as int)],
            forall|k: int| i <= k < buffer@.len() ==> buffer@[k] == old(buffer)@[k],
        decreases buffer@.len() - i,
    {
        proof {
            vstd::arithmetic::div_mod::lemma_mod_bound(i as int, ret_bytes@.len() as int);
        }
        let b = ret_bytes[i % ret_bytes.len()];
        buffer[i] = b;
        i += 1;
    }
}

/// Copy emitted code over the front of a prepared buffer.
#[verifier::loop_isolation(false)]
pub fn copy_source(buffer: &mut Vec<u8>, source: &Vec<u8>)
    requires
        old(buffer)@.len() >= source@.len(),
    ensures
        final(buffer)@.len() == old(buffer)@.len(),
        forall|i: int| 0 <= i < source@.len() ==> final(buffer)@[i] == source@[i],
        forall|i: int|
            source@.len() <= i < final(buffer)@.len() ==> final(buffer)@[i] == old(buffer)@[i],
{
    let mut i: usize = 0;
    while i < source.len()
        invariant
            i <= source@.len(),
            buffer@.len() == old(buffer)@.len(),
            forall|k: int| 0 <= k < i ==> buffer@[k] == source@[k],
            forall|k: int| i <= k < buffer@.len() ==> buffer@[k] == old(buffer)@[k],
        decreases source@.len() - i,
    {
        let b = source[i];
        buffer[i] = b;
        i += 1;
    }
}

} // verus!
