use vstd::prelude::*;

verus! {

broadcast use vstd::std_specs::vec::group_vec_axioms;

// Syscall support for Brainfuck, following the "systemf" convention for
// encoding syscall parameters in Brainfuck memory.
//
// The packet format from the current cell position:
// - Cell 0: syscall number
// - Cell 1: number of arguments (0-6)
// - For each argument:
//   - 1 cell: argument type (0 = normal value, 1 = pointer to buffer,
//     2 = cell pointer)
//   - 1 cell: argument length in cells
//   - N cells: argument data (big-endian for multi-cell values)
//
// Parsing is pure; materializing buffer and cell pointers and issuing the
// call is the host's affair.

/// Maximum number of arguments supported by syscalls.
pub const MAX_ARGS: usize = 6;

/// A malformed syscall packet.
#[derive(Clone, Copy, Debug, PartialEq, Eq, Structural)]
pub enum SyscallError {
    /// An argument type outside the three defined kinds.
    InvalidArgType,
    /// The packet ran past the end of the readable memory.
    Truncated,
}

/// One parsed argument, with pointers kept symbolic: a buffer argument is
/// the packet position of its data, a cell-pointer argument the cell offset
/// to resolve against the tape base.
#[derive(Clone, Copy, Debug, PartialEq, Eq, Structural)]
pub enum SyscallArg {
    /// The value is passed directly.
    Normal(u64),
    /// A pointer to the argument data, as an index into the packet.
    BufferAt(usize),
    /// The value is an offset from the base memory pointer.
    CellOffset(u64),
}

/// Parsed syscall arguments ready for execution.
#[derive(Debug, PartialEq, Eq)]
pub struct SyscallArgs {
    /// The syscall number.
    pub syscall_num: u64,
    /// The argument values, padded with `Normal(0)`.
    pub args: Vec<SyscallArg>,
}

/// The big-endian value of `len` cells starting at `pos`, reduced to 64
/// bits: each cell shifts the accumulated value up one byte.
pub open spec fn be_value(mem: Seq<u8>, pos: int, len: int) -> u64
    decreases len,
{
    if len <= 0 {
        0u64
    } else {
        (((be_value(mem, pos, len - 1) % 0x100_0000_0000_0000) * 256) + mem[pos + len - 1]) as u64
    }
}

/// One parsed argument and the position after it.
pub open spec fn parse_arg_spec(mem: Seq<u8>, pos: int) -> Result<(SyscallArg, int), SyscallError> {
    if pos + 2 > mem.len() {
        Err(SyscallError::Truncated)
    } else {
        let ty = mem[pos];
        let alen = mem[pos + 1] as int;
        let data_pos = pos + 2;
        if data_pos + alen > mem.len() {
            Err(SyscallError::Truncated)
        } else {
            let v = be_value(mem, data_pos, alen);
            if ty == 0 {
                Ok((SyscallArg::Normal(v), data_pos + alen))
            } else if ty == 1 {
                Ok((SyscallArg::BufferAt(data_pos as usize), data_pos + alen))
            } else if ty == 2 {
                Ok((SyscallArg::CellOffset(v), data_pos + alen))
            } else {
                Err(SyscallError::InvalidArgType)
            }
        }
    }
}

/// The first `k` arguments from `pos` on.
pub open spec fn parse_args_spec(mem: Seq<u8>, pos: int, k: int) -> Result<
    (Seq<SyscallArg>, int),
    SyscallError,
>
    decreases k,
{
    if k <= 0 {
        Ok((Seq::empty(), pos))
    } else {
        match parse_arg_spec(mem, pos) {
            Err(e) => Err(e),
            Ok((arg, pos2)) => match parse_args_spec(mem, pos2, k - 1) {
                Err(e) => Err(e),
                Ok((rest, pos3)) => Ok((seq![arg] + rest, pos3)),
            },
        }
    }
}

/// What `parse_syscall_args` yields: the syscall number is the first cell
/// (with the platform's offset folded in), the argument count the second,
/// capped at `MAX_ARGS`; the argument list is padded to `MAX_ARGS` entries.
pub open spec fn parse_syscall_spec(mem: Seq<u8>, num_offset: u64) -> Result<
    (u64, Seq<SyscallArg>),
    SyscallError,
> {
    if mem.len() < 2 {
        Err(SyscallError::Truncated)
    } else {
        let num = (mem[0] as u64) | num_offset;
        let count = if mem[1] as int <= MAX_ARGS as int {
            mem[1] as int
        } else {
            MAX_ARGS as int
        };
        match parse_args_spec(mem, 2, count) {
            Err(e) => Err(e),
            Ok((parsed, _)) => Ok(
                (num, parsed + Seq::new((MAX_ARGS - parsed.len()) as nat, |i: int| SyscallArg::Normal(0u64))),
            ),
        }
    }
}

/// Parse a syscall packet from memory, starting at the current data
/// pointer.  `num_offset` is the platform's syscall-number offset, folded
/// into the first cell's value.
#[verifier::loop_isolation(false)]
#[verifier::rlimit(60)]
pub fn parse_syscall_args(memory: &Vec<u8>, num_offset: u64) -> (r: Result<
    SyscallArgs,
    SyscallError,
>)
    ensures
        match parse_syscall_spec(memory@, num_offset) {
            Ok((num, args)) => match r {
                Ok(sa) => sa.syscall_num == num && sa.args@ == args,
                Err(_) => false,
            },
            Err(e) => r == Err::<SyscallArgs, SyscallError>(e),
        },
{
    if memory.len() < 2 {
        return Err(SyscallError::Truncated);
    }
    let syscall_num: u64 = (memory[0] as u64) | num_offset;
    let count: usize = if (memory[1] as usize) <= MAX_ARGS {
        memory[1] as usize
    } else {
        MAX_ARGS
    };

    let mut args: Vec<SyscallArg> = Vec::new();
    let mut pos: usize = 2;
    let mut k: usize = 0;

    while k < count
        invariant
            k <= count,
            pos <= memory@.len(),
            args@.len() == k,
            parse_args_spec(memory@, 2, count as int) == match parse_args_spec(
                memory@,
                pos as int,
                (count - k) as int,
            ) {
                Err(e) => Err::<(Seq<SyscallArg>, int), SyscallError>(e),
                Ok((rest, p)) => Ok::<(Seq<SyscallArg>, int), SyscallError>((args@ + rest, p)),
            },
        decreases count - k,
    {
        let ghost pre_args = args@;
        if pos > memory.len() - 2 {
            proof {
                assert(parse_args_spec(memory@, pos as int, (count - k) as int) == Err::<
                    (Seq<SyscallArg>, int),
                    SyscallError,
                >(SyscallError::Truncated));
            }
            return Err(SyscallError::Truncated);
        }
        let ty = memory[pos];
        let alen = memory[pos + 1] as usize;
        let data_pos = pos + 2;
        if alen > memory.len() - data_pos {
            proof {
                assert(parse_args_spec(memory@, pos as int, (count - k) as int) == Err::<
                    (Seq<SyscallArg>, int),
                    SyscallError,
                >(SyscallError::Truncated));
            }
            return Err(SyscallError::Truncated);
        }

        // Read the argument value (big-endian, reduced to 64 bits).
        let mut value: u64 = 0;
        let mut j: usize = 0;
        while j < alen
            invariant
                j <= alen,
                data_pos + alen <= memory@.len(),
                value == be_value(memory@, data_pos as int, j as int),
            decreases alen - j,
        {
            value = (value % 0x100_0000_0000_0000) * 256 + (memory[data_pos + j] as u64);
            j += 1;
        }

        let arg = if ty == 0 {
            SyscallArg::Normal(value)
        } else if ty == 1 {
            SyscallArg::BufferAt(data_pos)
        } else if ty == 2 {
            SyscallArg::CellOffset(value)
        } else {
            proof {
                assert(parse_args_spec(memory@, pos as int, (count - k) as int) == Err::<
                    (Seq<SyscallArg>, int),
                    SyscallError,
                >(SyscallError::InvalidArgType));
            }
            return Err(SyscallError::InvalidArgType);
        };
        args.push(arg);
        pos = data_pos + alen;
        k += 1;
        proof {
            assert(args@ == pre_args.push(arg));
            match parse_args_spec(memory@, pos as int, (count - k) as int) {
                Ok((rest2, p)) => {
                    assert(pre_args + (seq![arg] + rest2) =~= args@ + rest2);
                },
                Err(_) => {},
            }
        }
    }

    let ghost parsed = args@;
    proof {
        assert(parse_args_spec(memory@, pos as int, 0) == Ok::<(Seq<SyscallArg>, int), SyscallError>(
            (Seq::empty(), pos as int),
        ));
        assert(parsed + Seq::<SyscallArg>::empty() =~= parsed);
    }

    // Pad the remaining slots with zero arguments.
    while args.len() < MAX_ARGS
        invariant
            parsed.len() <= args@.len() <= MAX_ARGS,
            args@.subrange(0, parsed.len() as int) == parsed,
            forall|i: int|
                parsed.len() <= i < args@.len() ==> args@[i] == SyscallArg::Normal(0u64),
        decreases MAX_ARGS - args@.len(),
    {
        let ghost before = args@;
        args.push(SyscallArg::Normal(0));
        proof {
            assert(args@.subrange(0, parsed.len() as int) =~= before.subrange(
                0,
                parsed.len() as int,
            ));
        }
    }
    proof {
        assert(args@ =~= parsed + Seq::new(
            (MAX_ARGS - parsed.len()) as nat,
            |i: int| SyscallArg::Normal(0u64),
        ));
    }

    Ok(SyscallArgs { syscall_num, args })
}

} // verus!
