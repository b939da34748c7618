use fucker::ast::AstNode;
use fucker::code_gen::TargetArch;
use fucker::code_gen::x86_64;
use fucker::code_gen::aarch64;
use fucker::jit_memory::{calculate_length, copy_source, fill_with_ret};
use fucker::jit_promise::{JITPromise, PromiseSet};
use fucker::jit_target::{JITContext, JITTarget, VTableEntry};
use fucker::syscall::{SyscallArg, SyscallError, parse_syscall_args};

#[test]
fn optimizer_is_idempotent_on_its_output() {
    let ast = AstNode::parse("+++--<<>>>[->>++<<]..").unwrap();
    let once = AstNode::combine_consecutive_nodes(&ast);
    let twice = AstNode::combine_consecutive_nodes(&once);
    assert_eq!(once, twice);
}

#[test]
fn promise_dedup_returns_same_id() {
    let mut pool = PromiseSet::new();
    let body_a = AstNode::parse("->+<").unwrap();
    let body_b = AstNode::parse("->+<").unwrap();
    let body_c = AstNode::parse("->-<").unwrap();

    let id_a = pool.add(body_a);
    let id_c = pool.add(body_c);
    let id_b = pool.add(body_b);

    // Two structurally equal loop bodies share one promise.
    assert_eq!(id_a.value(), id_b.value());
    assert_ne!(id_a.value(), id_c.value());
    assert_eq!(pool.len(), 2);
}

#[test]
fn promise_take_and_put_round_trip() {
    let mut pool = PromiseSet::new();
    let body = AstNode::parse("->+<").unwrap();
    let id = pool.add(body);

    let taken = pool.take(id).unwrap();
    assert!(matches!(taken, JITPromise::Deferred(_)));
    // While checked out, the slot holds nothing and a fresh body gets a new
    // ID.
    let other = AstNode::parse("->+<").unwrap();
    let id2 = pool.add(other);
    assert_ne!(id.value(), id2.value());

    pool.put(id, taken);
    assert_eq!(pool.len(), 2);
}

#[test]
fn x86_64_incr_emits_add_byte_ptr() {
    let mut bytes = Vec::new();
    x86_64::incr(&mut bytes, 7);
    assert_eq!(bytes, vec![0x41, 0x80, 0x02, 7]);
}

#[test]
fn x86_64_set_emits_mov_byte_ptr() {
    let mut bytes = Vec::new();
    x86_64::set(&mut bytes, 42);
    assert_eq!(bytes, vec![0x41, 0xc6, 0x02, 42]);
}

#[test]
fn x86_64_next_emits_little_endian_operand() {
    let mut bytes = Vec::new();
    x86_64::next(&mut bytes, 0x0102);
    assert_eq!(bytes, vec![0x49, 0x81, 0xc2, 0x02, 0x01, 0x00, 0x00]);
}

#[test]
fn x86_64_wrapper_brackets_content() {
    let mut bytes = Vec::new();
    x86_64::wrapper(&mut bytes, vec![0x90]);
    // Saves all callee-saved registers first, and ends in `ret`.
    assert_eq!(bytes[0], 0x53);
    assert_eq!(*bytes.last().unwrap(), x86_64::RET);
    assert!(bytes.contains(&0x90));
}

#[test]
fn x86_64_aot_loop_wraps_body_with_tests() {
    let mut bytes = Vec::new();
    x86_64::aot_loop(&mut bytes, vec![0x90, 0x90]);
    // cmp [r10],0; je +12; body; cmp [r10],0; jne -12
    assert_eq!(
        bytes,
        vec![
            0x41, 0x80, 0x3a, 0x00, 0x0f, 0x84, 12, 0, 0, 0, 0x90, 0x90, 0x41, 0x80, 0x3a, 0x00,
            0x0f, 0x85, 0xf4, 0xff, 0xff, 0xff,
        ]
    );
}

#[test]
fn aarch64_incr_emits_three_words() {
    let mut bytes = Vec::new();
    aarch64::incr(&mut bytes, 1);
    assert_eq!(bytes.len(), 12);
    // ldrb w8, [x19]
    assert_eq!(&bytes[0..4], &[0x68, 0x02, 0x40, 0x39]);
}

#[test]
fn aarch64_wrapper_ends_in_ret() {
    let mut bytes = Vec::new();
    aarch64::wrapper(&mut bytes, Vec::new());
    let n = bytes.len();
    assert_eq!(&bytes[n - 4..], &[0xc0, 0x03, 0x5f, 0xd6]);
}

#[test]
fn jit_target_compiles_hello_world() {
    let source = "++++++++[>++++[>++>+++>+++>+<<<<-]>+>+>->>+[<]<-]>>.>---.+++++++..+++.>>.<-.<.+++.------.--------.>>+.>++.";
    let ast = AstNode::parse(source).unwrap();
    let mut context = JITContext::new();
    let target = JITTarget::new(ast, TargetArch::X86_64, &mut context).unwrap();

    // The wrapper is present and the body was emitted.
    assert!(target.code.len() > 20);
    assert_eq!(target.code[0], 0x53);
    assert_eq!(*target.code.last().unwrap(), x86_64::RET);
}

#[test]
fn jit_target_defers_large_loops_once() {
    // A loop body of 22 or more nodes is deferred; two equal bodies share
    // one promise pool entry.
    let big_body = ".+.+.+.+.+.+.+.+.+.+.+";
    let source = format!("+[{}]+[{}]", big_body, big_body);
    let ast = AstNode::parse(&source).unwrap();
    let mut context = JITContext::new();
    JITTarget::new(ast, TargetArch::X86_64, &mut context).unwrap();

    assert_eq!(context.promises.len(), 1);
}

#[test]
fn jit_target_inlines_small_loops() {
    let ast = AstNode::parse("+[.-]").unwrap();
    let mut context = JITContext::new();
    JITTarget::new(ast, TargetArch::Aarch64, &mut context).unwrap();

    assert_eq!(context.promises.len(), 0);
}

#[test]
fn calculate_length_rounds_up_to_pages() {
    assert_eq!(calculate_length(0, 4096), 0);
    assert_eq!(calculate_length(1, 4096), 4096);
    assert_eq!(calculate_length(4096, 4096), 4096);
    assert_eq!(calculate_length(4097, 4096), 8192);
}

#[test]
fn fill_with_ret_repeats_the_word() {
    let mut buffer = vec![0u8; 8];
    let ret = vec![0xc0u8, 0x03, 0x5f, 0xd6];
    fill_with_ret(&mut buffer, &ret);
    assert_eq!(buffer, vec![0xc0, 0x03, 0x5f, 0xd6, 0xc0, 0x03, 0x5f, 0xd6]);
}

#[test]
fn copy_source_overwrites_prefix_only() {
    let mut buffer = vec![0xc3u8; 4];
    let source = vec![1u8, 2];
    copy_source(&mut buffer, &source);
    assert_eq!(buffer, vec![1, 2, 0xc3, 0xc3]);
}

#[test]
fn vtable_slots_are_stable() {
    assert_eq!(VTableEntry::JITCallback.index(), 0);
    assert_eq!(VTableEntry::Read.index(), 1);
    assert_eq!(VTableEntry::Print.index(), 2);
}

#[test]
fn immutable_hands_out_its_value() {
    let boxed = fucker::immutable::Immutable::new(vec![1u8, 2, 3]);
    assert_eq!(boxed.get(), &vec![1u8, 2, 3]);
}

#[test]
fn syscall_packet_parses() {
    // syscall 60 (exit), one normal argument of two cells: 0x0102.
    let packet = vec![60u8, 1, 0, 2, 1, 2];
    let parsed = parse_syscall_args(&packet, 0).unwrap();
    assert_eq!(parsed.syscall_num, 60);
    assert_eq!(parsed.args[0], SyscallArg::Normal(0x0102));
    assert_eq!(parsed.args[1], SyscallArg::Normal(0));
    assert_eq!(parsed.args.len(), 6);
}

#[test]
fn syscall_packet_buffer_argument_is_positional() {
    // One buffer argument: its value is where its data sits in the packet.
    let packet = vec![1u8, 1, 1, 3, b'h', b'i', b'!'];
    let parsed = parse_syscall_args(&packet, 0).unwrap();
    assert_eq!(parsed.args[0], SyscallArg::BufferAt(4));
}

#[test]
fn syscall_packet_rejects_bad_type() {
    let packet = vec![0u8, 1, 9, 1, 0];
    assert_eq!(parse_syscall_args(&packet, 0), Err(SyscallError::InvalidArgType));
}

#[test]
fn syscall_packet_rejects_truncation() {
    let packet = vec![0u8, 1, 0, 200, 1, 2];
    assert_eq!(parse_syscall_args(&packet, 0), Err(SyscallError::Truncated));
}
