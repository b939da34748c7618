use vstd::prelude::*;

verus! {

use vstd::string::StringSliceAdditionalSpecFns;

broadcast use vstd::std_specs::vec::group_vec_axioms;

/// Brainfuck AST node, as produced by the parser and peephole optimizer.
#[derive(Debug)]
pub enum AstNode {
    /// Add to the current memory cell.
    Incr(u8),
    /// Remove from the current memory cell.
    Decr(u8),
    /// Shift the data pointer to the right.
    Next(u16),
    /// Shift the data pointer to the left.
    Prev(u16),
    /// Display the current memory cell as an ASCII character.
    Print,
    /// Read one character from the input source.
    Read,
    /// Set a literal value in the current cell.
    SetTo(u8),
    /// Multiply current cell by a factor and add to cell at offset, then set current to 0.
    MultiplyAddTo(i16, u8),
    /// Add current cell to multiple offsets, then set current to 0.
    AddTo(Vec<i16>),
    /// Subtract current cell from multiple offsets, then set current to 0.
    SubFrom(Vec<i16>),
    /// Loop over the contained instructions while the current memory cell is
    /// not zero.
    Loop(Vec<AstNode>),
}

/// Mathematical counterpart of `AstNode`, used by all contracts.
pub enum AstSpec {
    Incr(u8),
    Decr(u8),
    Next(u16),
    Prev(u16),
    Print,
    Read,
    SetTo(u8),
    MultiplyAddTo(i16, u8),
    AddTo(Seq<i16>),
    SubFrom(Seq<i16>),
    Loop(Seq<AstSpec>),
}

/// Abstraction of one AST node as a mathematical value.
pub open spec fn node_view(n: AstNode) -> AstSpec
    decreases n, 1int,
{
    match n {
        AstNode::Incr(x) => AstSpec::Incr(x),
        AstNode::Decr(x) => AstSpec::Decr(x),
        AstNode::Next(x) => AstSpec::Next(x),
        AstNode::Prev(x) => AstSpec::Prev(x),
        AstNode::Print => AstSpec::Print,
        AstNode::Read => AstSpec::Read,
        AstNode::SetTo(x) => AstSpec::SetTo(x),
        AstNode::MultiplyAddTo(off, k) => AstSpec::MultiplyAddTo(off, k),
        AstNode::AddTo(offs) => AstSpec::AddTo(offs@),
        AstNode::SubFrom(offs) => AstSpec::SubFrom(offs@),
        AstNode::Loop(body) => {
            proof {
                assert(decreases_to!(n => body));
                assert(decreases_to!(body => body@));
            }
            AstSpec::Loop(nodes_view(body@))
        },
    }
}

/// Abstraction of a sequence of AST nodes.
pub open spec fn nodes_view(v: Seq<AstNode>) -> Seq<AstSpec>
    decreases v, 0int,
{
    Seq::new(
        v.len(),
        |i: int|
            if 0 <= i < v.len() {
                node_view(v[i])
            } else {
                AstSpec::Print
            },
    )
}

/// Whether the node provably leaves the current cell at zero after it runs.
pub open spec fn zeroes_cell(n: AstSpec) -> bool {
    match n {
        AstSpec::SetTo(v) => v == 0,
        AstSpec::MultiplyAddTo(_, _) => true,
        AstSpec::AddTo(_) => true,
        AstSpec::SubFrom(_) => true,
        _ => false,
    }
}

/// The single combined node that replaces the adjacent pair `prev, next`,
/// when such a replacement exists.
pub open spec fn fuses_to(prev: AstSpec, next: AstSpec) -> Option<AstSpec> {
    match (prev, next) {
        (AstSpec::Incr(b), AstSpec::Incr(a)) => if (a + b) % 256 != 0 {
            Some(AstSpec::Incr(((a + b) % 256) as u8))
        } else {
            None
        },
        (AstSpec::Decr(b), AstSpec::Decr(a)) => if (a + b) % 256 != 0 {
            Some(AstSpec::Decr(((a + b) % 256) as u8))
        } else {
            None
        },
        (AstSpec::Next(b), AstSpec::Next(a)) => if a + b <= 0xFFFF {
            Some(AstSpec::Next((a + b) as u16))
        } else {
            None
        },
        (AstSpec::Prev(b), AstSpec::Prev(a)) => if a + b <= 0xFFFF {
            Some(AstSpec::Prev((a + b) as u16))
        } else {
            None
        },
        (AstSpec::Incr(a), AstSpec::Decr(b)) => if a > b {
            Some(AstSpec::Incr((a - b) as u8))
        } else if a < b {
            Some(AstSpec::Decr((b - a) as u8))
        } else {
            None
        },
        (AstSpec::Decr(a), AstSpec::Incr(b)) => if a > b {
            Some(AstSpec::Decr((a - b) as u8))
        } else if a < b {
            Some(AstSpec::Incr((b - a) as u8))
        } else {
            None
        },
        (AstSpec::Next(a), AstSpec::Prev(b)) => if a > b {
            Some(AstSpec::Next((a - b) as u16))
        } else if a < b {
            Some(AstSpec::Prev((b - a) as u16))
        } else {
            None
        },
        (AstSpec::Prev(a), AstSpec::Next(b)) => if a > b {
            Some(AstSpec::Prev((a - b) as u16))
        } else if a < b {
            Some(AstSpec::Next((b - a) as u16))
        } else {
            None
        },
        (AstSpec::SetTo(a), AstSpec::Incr(b)) => Some(AstSpec::SetTo(((a + b) % 256) as u8)),
        (AstSpec::SetTo(a), AstSpec::Decr(b)) => Some(AstSpec::SetTo(((a - b) % 256) as u8)),
        _ => None,
    }
}

/// Whether the adjacent pair `prev, next` has no effect at all and is dropped.
pub open spec fn cancels(prev: AstSpec, next: AstSpec) -> bool {
    match (prev, next) {
        (AstSpec::Incr(a), AstSpec::Decr(b)) => a == b,
        (AstSpec::Decr(a), AstSpec::Incr(b)) => a == b,
        (AstSpec::Next(a), AstSpec::Prev(b)) => a == b,
        (AstSpec::Prev(a), AstSpec::Next(b)) => a == b,
        (AstSpec::Incr(b), AstSpec::Incr(a)) => (a + b) % 256 == 0,
        (AstSpec::Decr(b), AstSpec::Decr(a)) => (a + b) % 256 == 0,
        _ => false,
    }
}

/// Appending one node to an already-optimized stream: fuse with or cancel
/// against the last emitted node (cascading), and drop a loop that can never
/// run because the cell before it is provably zero.
pub open spec fn push_opt(out: Seq<AstSpec>, node: AstSpec, top: bool) -> Seq<AstSpec>
    decreases out.len(),
{
    if (node is Loop) && (if out.len() == 0 {
        top
    } else {
        zeroes_cell(out.last())
    }) {
        out
    } else if out.len() == 0 {
        seq![node]
    } else {
        match fuses_to(out.last(), node) {
            Some(c) => push_opt(out.drop_last(), c, top),
            None => if cancels(out.last(), node) {
                out.drop_last()
            } else {
                out.push(node)
            },
        }
    }
}

/// The peephole optimizer over a whole stream: fold `push_opt` left to right.
pub open spec fn opt_seq(input: Seq<AstSpec>, top: bool) -> Seq<AstSpec>
    decreases input.len(),
{
    if input.len() == 0 {
        Seq::empty()
    } else {
        push_opt(opt_seq(input.drop_last(), top), input.last(), top)
    }
}

/// No adjacent pair of an optimized stream can be fused, cancelled, or is a
/// provably dead loop.
pub open spec fn norm_pair_ok(prev: AstSpec, next: AstSpec) -> bool {
    &&& fuses_to(prev, next) is None
    &&& !cancels(prev, next)
    &&& !((next is Loop) && zeroes_cell(prev))
}

/// A stream in the optimizer's normal form; at the top level it additionally
/// never begins with a loop (all cells start at zero).
pub open spec fn normalized(s: Seq<AstSpec>, top: bool) -> bool {
    &&& forall|i: int| 0 <= i < s.len() - 1 ==> #[trigger] norm_pair_ok(s[i], s[i + 1])
    &&& (top ==> (s.len() > 0 ==> !(s[0] is Loop)))
}

pub proof fn lemma_normalized_drop_last(s: Seq<AstSpec>, top: bool)
    requires
        normalized(s, top),
        s.len() > 0,
    ensures
        normalized(s.drop_last(), top),
{
    assert forall|i: int| 0 <= i < s.drop_last().len() - 1 implies #[trigger] norm_pair_ok(
        s.drop_last()[i],
        s.drop_last()[i + 1],
    ) by {
        assert(norm_pair_ok(s[i], s[i + 1]));
    }
}

/// Pushing any node onto a normalized stream keeps it normalized.
pub proof fn lemma_push_opt_normalized(out: Seq<AstSpec>, node: AstSpec, top: bool)
    requires
        normalized(out, top),
    ensures
        normalized(push_opt(out, node, top), top),
    decreases out.len(),
{
    if (node is Loop) && (if out.len() == 0 {
        top
    } else {
        zeroes_cell(out.last())
    }) {
    } else if out.len() == 0 {
    } else {
        match fuses_to(out.last(), node) {
            Some(c) => {
                lemma_normalized_drop_last(out, top);
                lemma_push_opt_normalized(out.drop_last(), c, top);
            },
            None => {
                if cancels(out.last(), node) {
                    lemma_normalized_drop_last(out, top);
                } else {
                    let r = out.push(node);
                    assert forall|i: int| 0 <= i < r.len() - 1 implies #[trigger] norm_pair_ok(
                        r[i],
                        r[i + 1],
                    ) by {
                        if i < out.len() - 1 {
                            assert(norm_pair_ok(out[i], out[i + 1]));
                        }
                    }
                }
            },
        }
    }
}

/// The optimizer's output is always in normal form.
pub proof fn lemma_opt_seq_normalized(input: Seq<AstSpec>, top: bool)
    ensures
        normalized(opt_seq(input, top), top),
    decreases input.len(),
{
    if input.len() == 0 {
    } else {
        lemma_opt_seq_normalized(input.drop_last(), top);
        lemma_push_opt_normalized(opt_seq(input.drop_last(), top), input.last(), top);
    }
}

/// The optimizer does not touch a stream that is already in normal form.
pub proof fn lemma_opt_seq_identity(s: Seq<AstSpec>, top: bool)
    requires
        normalized(s, top),
    ensures
        opt_seq(s, top) == s,
    decreases s.len(),
{
    if s.len() == 0 {
        assert(opt_seq(s, top) =~= s);
    } else {
        lemma_normalized_drop_last(s, top);
        lemma_opt_seq_identity(s.drop_last(), top);
        if s.len() == 1 {
            assert(push_opt(s.drop_last(), s.last(), top) =~= s);
        } else {
            let j = s.len() - 2;
            assert(norm_pair_ok(s[j], s[j + 1]));
            assert(s.drop_last().last() == s[s.len() - 2]);
            assert(s.drop_last().push(s.last()) =~= s);
        }
    }
}

/// Law: the peephole optimizer is confluent.  Running it a second time on its
/// own output changes nothing.
pub proof fn lemma_optimizer_confluent(input: Seq<AstSpec>, top: bool)
    ensures
        opt_seq(opt_seq(input, top), top) == opt_seq(input, top),
{
    lemma_opt_seq_normalized(input, top);
    lemma_opt_seq_identity(opt_seq(input, top), top);
}

/// Result of a clear loop: a body that only decrements (or increments) the
/// current cell by one.
pub open spec fn set_node_spec(body: Seq<AstSpec>) -> Option<AstSpec> {
    if body.len() == 1 && (body[0] == AstSpec::Incr(1u8) || body[0] == AstSpec::Decr(1u8)) {
        Some(AstSpec::SetTo(0))
    } else {
        None
    }
}

/// Result of a multiply loop: decrement source, move by an offset, add a
/// factor greater than one, move back.
pub open spec fn muladd_node_spec(body: Seq<AstSpec>) -> Option<AstSpec> {
    if body.len() == 4 && body[0] == AstSpec::Decr(1u8) {
        match (body[1], body[2], body[3]) {
            (AstSpec::Prev(a), AstSpec::Incr(n), AstSpec::Next(b)) => if a == b && n > 1 && a
                <= 32768 {
                Some(AstSpec::MultiplyAddTo((-(a as int)) as i16, n))
            } else {
                None
            },
            (AstSpec::Next(a), AstSpec::Incr(n), AstSpec::Prev(b)) => if a == b && n > 1 && a
                <= 32767 {
                Some(AstSpec::MultiplyAddTo(a as i16, n))
            } else {
                None
            },
            _ => None,
        }
    } else {
        None
    }
}

/// Walk a move/copy loop body from `i` on, tracking the data-pointer
/// displacement and collecting one target offset for each unit bump of the
/// marker kind (`Decr(1)` when `dec`, else `Incr(1)`).
pub open spec fn scan_moves(
    body: Seq<AstSpec>,
    i: int,
    pos: int,
    targets: Seq<i16>,
    dec: bool,
) -> Option<(int, Seq<i16>)>
    decreases body.len() - i,
{
    if i >= body.len() {
        Some((pos, targets))
    } else {
        match body[i] {
            AstSpec::Next(n) => if n <= 32767 && -32768 <= pos + n <= 32767 {
                scan_moves(body, i + 1, pos + n, targets, dec)
            } else {
                None
            },
            AstSpec::Prev(n) => if n <= 32767 && -32768 <= pos - n <= 32767 {
                scan_moves(body, i + 1, pos - n, targets, dec)
            } else {
                None
            },
            AstSpec::Incr(n) => if !dec && n == 1 && pos != 0 {
                scan_moves(body, i + 1, pos, targets.push(pos as i16), dec)
            } else {
                None
            },
            AstSpec::Decr(n) => if dec && n == 1 && pos != 0 {
                scan_moves(body, i + 1, pos, targets.push(pos as i16), dec)
            } else {
                None
            },
            _ => None,
        }
    }
}

/// Result of a move/copy loop: decrement source once, add one to each of a
/// set of targets, return to the start.
pub open spec fn addto_node_spec(body: Seq<AstSpec>) -> Option<AstSpec> {
    if body.len() >= 3 && body[0] == AstSpec::Decr(1u8) {
        match scan_moves(body, 1, 0, Seq::empty(), false) {
            Some((pos, targets)) => if pos == 0 && targets.len() > 0 {
                Some(AstSpec::AddTo(targets))
            } else {
                None
            },
            None => None,
        }
    } else {
        None
    }
}

/// Mirror of `addto_node_spec` with `Decr(1)` on the targets.
pub open spec fn subfrom_node_spec(body: Seq<AstSpec>) -> Option<AstSpec> {
    if body.len() >= 3 && body[0] == AstSpec::Decr(1u8) {
        match scan_moves(body, 1, 0, Seq::empty(), true) {
            Some((pos, targets)) => if pos == 0 && targets.len() > 0 {
                Some(AstSpec::SubFrom(targets))
            } else {
                None
            },
            None => None,
        }
    } else {
        None
    }
}

/// The shorthand that replaces a whole loop, when one of the recognized
/// idioms applies.
pub open spec fn simplify_spec(body: Seq<AstSpec>) -> Option<AstSpec> {
    if set_node_spec(body) is Some {
        set_node_spec(body)
    } else if muladd_node_spec(body) is Some {
        muladd_node_spec(body)
    } else if addto_node_spec(body) is Some {
        addto_node_spec(body)
    } else {
        subfrom_node_spec(body)
    }
}

pub proof fn lemma_nodes_view_push(v: Seq<AstNode>, x: AstNode)
    ensures
        nodes_view(v.push(x)) == nodes_view(v).push(node_view(x)),
{
    assert(nodes_view(v.push(x)) =~= nodes_view(v).push(node_view(x)));
}

pub proof fn lemma_nodes_view_drop_last(v: Seq<AstNode>)
    requires
        v.len() > 0,
    ensures
        nodes_view(v.drop_last()) == nodes_view(v).drop_last(),
{
    assert(nodes_view(v.drop_last()) =~= nodes_view(v).drop_last());
}

impl AstNode {
    /// Structural copy of one node.
    #[verifier::loop_isolation(false)]
    pub fn duplicate(&self) -> (r: AstNode)
        ensures
            node_view(r) == node_view(*self),
        decreases *self,
    {
        match self {
            AstNode::Incr(x) => AstNode::Incr(*x),
            AstNode::Decr(x) => AstNode::Decr(*x),
            AstNode::Next(x) => AstNode::Next(*x),
            AstNode::Prev(x) => AstNode::Prev(*x),
            AstNode::Print => AstNode::Print,
            AstNode::Read => AstNode::Read,
            AstNode::SetTo(x) => AstNode::SetTo(*x),
            AstNode::MultiplyAddTo(off, k) => AstNode::MultiplyAddTo(*off, *k),
            AstNode::AddTo(offs) => AstNode::AddTo(copy_offsets(offs)),
            AstNode::SubFrom(offs) => AstNode::SubFrom(copy_offsets(offs)),
            AstNode::Loop(body) => {
                proof {
                    assert(decreases_to!(*self => *body));
                    assert(decreases_to!(*body => body@));
                }
                let mut new_body: Vec<AstNode> = Vec::new();
                let mut j: usize = 0;
                while j < body.len()
                    invariant
                        j <= body@.len(),
                        new_body@.len() == j,
                        forall|k: int|
                            0 <= k < j ==> node_view(#[trigger] new_body@[k]) == node_view(
                                body@[k],
                            ),
                    decreases body@.len() - j,
                {
                    proof {
                        assert(decreases_to!(*self => *body));
                        assert(decreases_to!(*body => body@));
                        assert(decreases_to!(body@ => body@[j as int]));
                    }
                    new_body.push(body[j].duplicate());
                    j += 1;
                }
                proof {
                    assert(nodes_view(new_body@) =~= nodes_view(body@));
                }
                AstNode::Loop(new_body)
            },
        }
    }

    /// Whether the data pointer points to zero after execution of the node.
    fn sets_to_zero(node: Option<&AstNode>) -> (r: bool)
        ensures
            r == match node {
                // If there's no node, then no code has executed yet. All cells start at zero.
                None => true,
                Some(n) => zeroes_cell(node_view(*n)),
            },
    {
        match node {
            None => true,
            Some(AstNode::SetTo(v)) => *v == 0,
            Some(AstNode::MultiplyAddTo(_, _)) => true,
            Some(AstNode::AddTo(_)) => true,
            Some(AstNode::SubFrom(_)) => true,
            _ => false,
        }
    }

    /// For each operator `+`, `-`, `<` and `>`, if the last emitted node is
    /// combinable with the next one, return the single node that replaces the
    /// pair.
    fn combined_node(prev_node: Option<&AstNode>, next_node: &AstNode) -> (r: Option<AstNode>)
        ensures
            match prev_node {
                None => r is None,
                Some(p) => match fuses_to(node_view(*p), node_view(*next_node)) {
                    Some(c) => r is Some && node_view(r->Some_0) == c,
                    None => r is None,
                },
            },
    {
        match (prev_node, next_node) {
            // Combine sequential Incr, Decr, Next and Prev.
            // Cell arithmetic wraps modulo 256; a pair that wraps to a zero
            // count has no effect and is cancelled instead (never emit a zero
            // count).
            (Some(AstNode::Incr(b)), AstNode::Incr(a)) => {
                let s: u16 = *a as u16 + *b as u16;
                if s % 256 != 0 {
                    Some(AstNode::Incr((s % 256) as u8))
                } else {
                    None
                }
            },
            (Some(AstNode::Decr(b)), AstNode::Decr(a)) => {
                let s: u16 = *a as u16 + *b as u16;
                if s % 256 != 0 {
                    Some(AstNode::Decr((s % 256) as u8))
                } else {
                    None
                }
            },
            // Pointer shifts must stay within u16; emit separately on overflow.
            (Some(AstNode::Next(b)), AstNode::Next(a)) => {
                let s: u32 = *a as u32 + *b as u32;
                if s <= 0xFFFF {
                    Some(AstNode::Next(s as u16))
                } else {
                    None
                }
            },
            (Some(AstNode::Prev(b)), AstNode::Prev(a)) => {
                let s: u32 = *a as u32 + *b as u32;
                if s <= 0xFFFF {
                    Some(AstNode::Prev(s as u16))
                } else {
                    None
                }
            },
            // Partial cancellation.
            (Some(AstNode::Incr(a)), AstNode::Decr(b)) => if *a > *b {
                Some(AstNode::Incr(*a - *b))
            } else if *a < *b {
                Some(AstNode::Decr(*b - *a))
            } else {
                None
            },
            (Some(AstNode::Decr(a)), AstNode::Incr(b)) => if *a > *b {
                Some(AstNode::Decr(*a - *b))
            } else if *a < *b {
                Some(AstNode::Incr(*b - *a))
            } else {
                None
            },
            (Some(AstNode::Next(a)), AstNode::Prev(b)) => if *a > *b {
                Some(AstNode::Next(*a - *b))
            } else if *a < *b {
                Some(AstNode::Prev(*b - *a))
            } else {
                None
            },
            (Some(AstNode::Prev(a)), AstNode::Next(b)) => if *a > *b {
                Some(AstNode::Prev(*a - *b))
            } else if *a < *b {
                Some(AstNode::Next(*b - *a))
            } else {
                None
            },
            // Fold Incr or Decr into a preceding Set.
            (Some(AstNode::SetTo(a)), AstNode::Incr(b)) => {
                let s: u16 = *a as u16 + *b as u16;
                Some(AstNode::SetTo((s % 256) as u8))
            },
            (Some(AstNode::SetTo(a)), AstNode::Decr(b)) => {
                let d: u8 = if *a >= *b {
                    *a - *b
                } else {
                    ((256u16 + *a as u16) - *b as u16) as u8
                };
                Some(AstNode::SetTo(d))
            },
            // Node is not combinable.
            _ => None,
        }
    }

    /// Dead code elimination: an adjacent pair whose effects cancel exactly.
    fn eliminate_pair(prev_node: Option<&AstNode>, next_node: &AstNode) -> (r: bool)
        ensures
            r == match prev_node {
                None => false,
                Some(p) => cancels(node_view(*p), node_view(*next_node)),
            },
    {
        match (prev_node, next_node) {
            (Some(AstNode::Incr(a)), AstNode::Decr(b)) => *a == *b,
            (Some(AstNode::Decr(a)), AstNode::Incr(b)) => *a == *b,
            (Some(AstNode::Next(a)), AstNode::Prev(b)) => *a == *b,
            (Some(AstNode::Prev(a)), AstNode::Next(b)) => *a == *b,
            (Some(AstNode::Incr(b)), AstNode::Incr(a)) => (*a as u16 + *b as u16) % 256 == 0,
            (Some(AstNode::Decr(b)), AstNode::Decr(a)) => (*a as u16 + *b as u16) % 256 == 0,
            _ => false,
        }
    }

    /// Append one node to an optimized stream, fusing, cancelling and
    /// dropping dead loops as `push_opt` describes.
    #[verifier::loop_isolation(false)]
    fn push_node(out: &mut Vec<AstNode>, node: AstNode, top: bool)
        ensures
            nodes_view(final(out)@) == push_opt(nodes_view(old(out)@), node_view(node), top),
    {
        let mut cur = node;
        let ghost goal = push_opt(nodes_view(old(out)@), node_view(node), top);
        loop
            invariant
                push_opt(nodes_view(out@), node_view(cur), top) == goal,
            decreases out@.len(),
        {
            if out.len() == 0 {
                let is_dead = top && matches!(cur, AstNode::Loop(_));
                if !is_dead {
                    let ghost prev_out = out@;
                    out.push(cur);
                    proof {
                        lemma_nodes_view_push(prev_out, cur);
                        assert(nodes_view(out@) =~= seq![node_view(cur)]);
                    }
                } else {
                    proof {
                        assert(node_view(cur) is Loop);
                        assert(nodes_view(out@).len() == 0);
                    }
                }
                return;
            }
            let last_i = out.len() - 1;
            if matches!(cur, AstNode::Loop(_)) && AstNode::sets_to_zero(Some(&out[last_i])) {
                proof {
                    assert(node_view(cur) is Loop);
                    assert(nodes_view(out@).last() == node_view(out@[last_i as int]));
                }
                return;
            }
            let ghost prev_out = out@;
            match AstNode::combined_node(Some(&out[last_i]), &cur) {
                Some(c) => {
                    out.pop();
                    proof {
                        lemma_nodes_view_drop_last(prev_out);
                    }
                    cur = c;
                },
                None => {
                    proof {
                        assert(nodes_view(prev_out).last() == node_view(prev_out[last_i as int]));
                    }
                    if AstNode::eliminate_pair(Some(&out[last_i]), &cur) {
                        out.pop();
                        proof {
                            lemma_nodes_view_drop_last(prev_out);
                        }
                    } else {
                        out.push(cur);
                        proof {
                            lemma_nodes_view_push(prev_out, cur);
                        }
                    }
                    return;
                },
            }
        }
    }

    /// Run the peephole optimizer over a stream of nodes.
    #[verifier::loop_isolation(false)]
    pub fn combine_consecutive_nodes(input: &Vec<AstNode>) -> (out: Vec<AstNode>)
        ensures
            nodes_view(out@) == opt_seq(nodes_view(input@), false),
    {
        let mut out: Vec<AstNode> = Vec::new();
        let mut i: usize = 0;
        proof {
            assert(nodes_view(input@).subrange(0, 0) =~= Seq::<AstSpec>::empty());
            assert(nodes_view(out@) =~= Seq::<AstSpec>::empty());
        }
        while i < input.len()
            invariant
                i <= input@.len(),
                nodes_view(out@) == opt_seq(nodes_view(input@).subrange(0, i as int), false),
            decreases input@.len() - i,
        {
            let ghost processed = nodes_view(input@).subrange(0, i as int);
            let node = input[i].duplicate();
            AstNode::push_node(&mut out, node, false);
            proof {
                let all = nodes_view(input@);
                assert(all.subrange(0, i + 1 as int).drop_last() =~= processed);
                assert(all.subrange(0, i + 1 as int).last() == node_view(input@[i as int]));
            }
            i += 1;
        }
        proof {
            assert(nodes_view(input@).subrange(0, input@.len() as int) =~= nodes_view(input@));
        }
        out
    }
}

impl AstNode {
    /// Try to convert a loop into an `AstNode::SetTo(0)` node.
    fn create_set_node(input: &Vec<AstNode>) -> (r: Option<AstNode>)
        ensures
            match r {
                Some(n) => set_node_spec(nodes_view(input@)) == Some(node_view(n)),
                None => set_node_spec(nodes_view(input@)) is None,
            },
    {
        if input.len() != 1 {
            return None;
        }
        match &input[0] {
            AstNode::Incr(1u8) | AstNode::Decr(1u8) => Some(AstNode::SetTo(0)),
            _ => None,
        }
    }

    /// Try to convert a loop into an `AstNode::MultiplyAddTo` node.
    fn create_multiplyaddto_node(input: &Vec<AstNode>) -> (r: Option<AstNode>)
        ensures
            match r {
                Some(n) => muladd_node_spec(nodes_view(input@)) == Some(node_view(n)),
                None => muladd_node_spec(nodes_view(input@)) is None,
            },
    {
        if input.len() != 4 {
            return None;
        }
        match (&input[0], &input[1], &input[2], &input[3]) {
            (AstNode::Decr(1u8), AstNode::Prev(a), AstNode::Incr(n), AstNode::Next(b)) => {
                if *a == *b && *n > 1 && *a <= 32768 {
                    let offset = (0i32 - (*a as i32)) as i16;
                    Some(AstNode::MultiplyAddTo(offset, *n))
                } else {
                    None
                }
            },
            (AstNode::Decr(1u8), AstNode::Next(a), AstNode::Incr(n), AstNode::Prev(b)) => {
                if *a == *b && *n > 1 && *a <= 32767 {
                    Some(AstNode::MultiplyAddTo(*a as i16, *n))
                } else {
                    None
                }
            },
            _ => None,
        }
    }

    /// Try to convert a loop into an `AstNode::AddTo` node.
    #[verifier::loop_isolation(false)]
    fn create_addto_node(input: &Vec<AstNode>) -> (r: Option<AstNode>)
        ensures
            match r {
                Some(n) => addto_node_spec(nodes_view(input@)) == Some(node_view(n)),
                None => addto_node_spec(nodes_view(input@)) is None,
            },
    {
        if input.len() < 3 {
            return None;
        }
        if !matches!(&input[0], AstNode::Decr(1u8)) {
            return None;
        }

        let ghost whole = nodes_view(input@);
        let mut position: i16 = 0;
        let mut targets: Vec<i16> = Vec::new();
        let mut i: usize = 1;

        while i < input.len()
            invariant
                1 <= i <= input@.len(),
                scan_moves(whole, i as int, position as int, targets@, false) == scan_moves(
                    whole,
                    1,
                    0,
                    Seq::<i16>::empty(),
                    false,
                ),
            decreases input@.len() - i,
        {
            match &input[i] {
                AstNode::Next(n) => {
                    if *n > 32767 {
                        return None;
                    }
                    let p: i32 = position as i32 + *n as i32;
                    if p > 32767 {
                        return None;
                    }
                    position = p as i16;
                },
                AstNode::Prev(n) => {
                    if *n > 32767 {
                        return None;
                    }
                    let p: i32 = position as i32 - *n as i32;
                    if p < -32768 {
                        return None;
                    }
                    position = p as i16;
                },
                AstNode::Incr(n) => {
                    if *n != 1 {
                        return None;
                    }
                    if position == 0 {
                        return None;
                    }
                    targets.push(position);
                },
                _ => {
                    return None;
                },
            }
            i += 1;
        }

        // Must return to the starting position, and move something.
        if position != 0 {
            return None;
        }
        if targets.len() == 0 {
            return None;
        }

        Some(AstNode::AddTo(targets))
    }

    /// Try to convert a loop into an `AstNode::SubFrom` node.
    #[verifier::loop_isolation(false)]
    fn create_subfrom_node(input: &Vec<AstNode>) -> (r: Option<AstNode>)
        ensures
            match r {
                Some(n) => subfrom_node_spec(nodes_view(input@)) == Some(node_view(n)),
                None => subfrom_node_spec(nodes_view(input@)) is None,
            },
    {
        if input.len() < 3 {
            return None;
        }
        if !matches!(&input[0], AstNode::Decr(1u8)) {
            return None;
        }

        let ghost whole = nodes_view(input@);
        let mut position: i16 = 0;
        let mut targets: Vec<i16> = Vec::new();
        let mut i: usize = 1;

        while i < input.len()
            invariant
                1 <= i <= input@.len(),
                scan_moves(whole, i as int, position as int, targets@, true) == scan_moves(
                    whole,
                    1,
                    0,
                    Seq::<i16>::empty(),
                    true,
                ),
            decreases input@.len() - i,
        {
            match &input[i] {
                AstNode::Next(n) => {
                    if *n > 32767 {
                        return None;
                    }
                    let p: i32 = position as i32 + *n as i32;
                    if p > 32767 {
                        return None;
                    }
                    position = p as i16;
                },
                AstNode::Prev(n) => {
                    if *n > 32767 {
                        return None;
                    }
                    let p: i32 = position as i32 - *n as i32;
                    if p < -32768 {
                        return None;
                    }
                    position = p as i16;
                },
                AstNode::Decr(n) => {
                    if *n != 1 {
                        return None;
                    }
                    if position == 0 {
                        return None;
                    }
                    targets.push(position);
                },
                _ => {
                    return None;
                },
            }
            i += 1;
        }

        // Must return to the starting position, and move something.
        if position != 0 {
            return None;
        }
        if targets.len() == 0 {
            return None;
        }

        Some(AstNode::SubFrom(targets))
    }

    /// If a shorthand for the provided loop exists, return that.
    fn simplify_loop(input: &Vec<AstNode>) -> (r: Option<AstNode>)
        ensures
            match r {
                Some(n) => simplify_spec(nodes_view(input@)) == Some(node_view(n)),
                None => simplify_spec(nodes_view(input@)) is None,
            },
    {
        if let Some(n) = AstNode::create_set_node(input) {
            return Some(n);
        }
        if let Some(n) = AstNode::create_multiplyaddto_node(input) {
            return Some(n);
        }
        if let Some(n) = AstNode::create_addto_node(input) {
            return Some(n);
        }
        AstNode::create_subfrom_node(input)
    }
}

/// A bracket error, with the line and column at which it was noticed.
#[derive(Clone, Copy, Debug, PartialEq, Eq, Structural)]
pub enum ParseError {
    /// A `]` with no `[` open.
    UnmatchedClose { line: usize, col: usize },
    /// End of input with a `[` still open.
    UnmatchedOpen { line: usize, col: usize },
}

/// Parser state: the stack of streams being built (the bottom entry is the
/// top-level output, each further entry an open loop body), and the current
/// source position.
pub struct ParseState {
    pub stack: Seq<Seq<AstSpec>>,
    pub line: int,
    pub col: int,
}

impl ParseState {
    pub open spec fn init() -> ParseState {
        ParseState { stack: seq![Seq::empty()], line: 1, col: 0 }
    }
}

/// Append one node to the innermost stream being built.
pub open spec fn parse_emit(st: ParseState, node: AstSpec, col: int) -> ParseState {
    let k = st.stack.len() - 1;
    ParseState {
        stack: st.stack.update(k, push_opt(st.stack[k], node, k == 0)),
        line: st.line,
        col: col,
    }
}

/// Close the innermost open loop: drop it when the cell before it is provably
/// zero, otherwise emit its recognized shorthand or the loop itself.
pub open spec fn parse_close(st: ParseState, col: int) -> ParseState {
    let body = st.stack.last();
    let rest = st.stack.drop_last();
    let target = rest.last();
    let top = rest.len() == 1;
    let dead = if target.len() == 0 {
        top
    } else {
        zeroes_cell(target.last())
    };
    if dead {
        ParseState { stack: rest, line: st.line, col: col }
    } else {
        let node = match simplify_spec(body) {
            Some(n) => n,
            None => AstSpec::Loop(body),
        };
        ParseState {
            stack: rest.update(rest.len() - 1, push_opt(target, node, top)),
            line: st.line,
            col: col,
        }
    }
}

/// One step of the parser on one input byte.
pub open spec fn parse_step(st: ParseState, c: u8) -> Result<ParseState, ParseError> {
    let col = st.col + 1;
    if c == 43 {
        Ok(parse_emit(st, AstSpec::Incr(1), col))
    } else if c == 45 {
        Ok(parse_emit(st, AstSpec::Decr(1), col))
    } else if c == 62 {
        Ok(parse_emit(st, AstSpec::Next(1), col))
    } else if c == 60 {
        Ok(parse_emit(st, AstSpec::Prev(1), col))
    } else if c == 46 {
        Ok(parse_emit(st, AstSpec::Print, col))
    } else if c == 44 {
        Ok(parse_emit(st, AstSpec::Read, col))
    } else if c == 91 {
        Ok(ParseState { stack: st.stack.push(Seq::empty()), line: st.line, col: col })
    } else if c == 93 {
        if st.stack.len() == 1 {
            Err(ParseError::UnmatchedClose { line: st.line as usize, col: col as usize })
        } else {
            Ok(parse_close(st, col))
        }
    } else if c == 10 {
        Ok(ParseState { stack: st.stack, line: st.line + 1, col: 0 })
    } else {
        // All other characters are comments and are ignored.
        Ok(ParseState { stack: st.stack, line: st.line, col: col })
    }
}

/// The parser state after the first `i` bytes of the input.
pub open spec fn parse_state_at(input: Seq<u8>, i: int) -> Result<ParseState, ParseError>
    decreases i,
{
    if i <= 0 {
        Ok(ParseState::init())
    } else {
        match parse_state_at(input, i - 1) {
            Err(e) => Err(e),
            Ok(st) => parse_step(st, input[i - 1]),
        }
    }
}

/// Every node of the stream is well formed.
pub open spec fn seq_wf(s: Seq<AstSpec>) -> bool
    decreases s, 0int,
{
    forall|i: int| 0 <= i < s.len() ==> node_wf(#[trigger] s[i])
}

/// Well-formed IR: no zero counts, bulk operations move something, and every
/// loop body is itself an optimized well-formed stream.
pub open spec fn node_wf(n: AstSpec) -> bool
    decreases n, 1int,
{
    match n {
        AstSpec::Incr(x) => x >= 1,
        AstSpec::Decr(x) => x >= 1,
        AstSpec::Next(x) => x >= 1,
        AstSpec::Prev(x) => x >= 1,
        AstSpec::Print => true,
        AstSpec::Read => true,
        AstSpec::SetTo(_) => true,
        AstSpec::MultiplyAddTo(off, k) => off != 0 && k > 1,
        AstSpec::AddTo(t) => t.len() > 0 && (forall|j: int| 0 <= j < t.len() ==> t[j] != 0),
        AstSpec::SubFrom(t) => t.len() > 0 && (forall|j: int| 0 <= j < t.len() ==> t[j] != 0),
        AstSpec::Loop(b) => seq_wf(b) && normalized(b, false),
    }
}

/// Fusing two well-formed nodes yields a well-formed node.
pub proof fn lemma_fuse_wf(p: AstSpec, n: AstSpec, c: AstSpec)
    requires
        node_wf(p),
        node_wf(n),
        fuses_to(p, n) == Some(c),
    ensures
        node_wf(c),
{
}

/// Pushing a well-formed node onto a well-formed stream keeps every node
/// well formed.
pub proof fn lemma_push_opt_wf(out: Seq<AstSpec>, node: AstSpec, top: bool)
    requires
        seq_wf(out),
        node_wf(node),
    ensures
        seq_wf(push_opt(out, node, top)),
    decreases out.len(),
{
    if (node is Loop) && (if out.len() == 0 {
        top
    } else {
        zeroes_cell(out.last())
    }) {
    } else if out.len() == 0 {
        assert forall|i: int| 0 <= i < 1 implies node_wf(#[trigger] seq![node][i]) by {}
    } else {
        assert(node_wf(out.last()));
        assert forall|i: int| 0 <= i < out.drop_last().len() implies node_wf(
            #[trigger] out.drop_last()[i],
        ) by {
            assert(node_wf(out[i]));
        }
        match fuses_to(out.last(), node) {
            Some(c) => {
                lemma_fuse_wf(out.last(), node, c);
                lemma_push_opt_wf(out.drop_last(), c, top);
            },
            None => {
                if !cancels(out.last(), node) {
                    assert forall|i: int| 0 <= i < out.push(node).len() implies node_wf(
                        #[trigger] out.push(node)[i],
                    ) by {
                        if i < out.len() {
                            assert(node_wf(out[i]));
                        }
                    }
                }
            },
        }
    }
}

/// The optimizer keeps every node well formed.
pub proof fn lemma_opt_seq_wf(input: Seq<AstSpec>, top: bool)
    requires
        seq_wf(input),
    ensures
        seq_wf(opt_seq(input, top)),
    decreases input.len(),
{
    if input.len() == 0 {
    } else {
        assert forall|i: int| 0 <= i < input.drop_last().len() implies node_wf(
            #[trigger] input.drop_last()[i],
        ) by {
            assert(node_wf(input[i]));
        }
        lemma_opt_seq_wf(input.drop_last(), top);
        assert(node_wf(input.last()));
        lemma_push_opt_wf(opt_seq(input.drop_last(), top), input.last(), top);
    }
}

/// Every target collected by the move-loop scan is a non-zero offset.
pub proof fn lemma_scan_targets_nonzero(
    body: Seq<AstSpec>,
    i: int,
    pos: int,
    targets: Seq<i16>,
    dec: bool,
)
    requires
        -32768 <= pos <= 32767,
        forall|j: int| 0 <= j < targets.len() ==> targets[j] != 0,
    ensures
        match scan_moves(body, i, pos, targets, dec) {
            Some(r) => r.1.len() >= targets.len() && forall|j: int|
                0 <= j < r.1.len() ==> r.1[j] != 0,
            None => true,
        },
    decreases body.len() - i,
{
    if i >= body.len() {
    } else {
        match body[i] {
            AstSpec::Next(n) => if n <= 32767 && -32768 <= pos + n <= 32767 {
                lemma_scan_targets_nonzero(body, i + 1, pos + n, targets, dec);
            },
            AstSpec::Prev(n) => if n <= 32767 && -32768 <= pos - n <= 32767 {
                lemma_scan_targets_nonzero(body, i + 1, pos - n, targets, dec);
            },
            AstSpec::Incr(n) => if !dec && n == 1 && pos != 0 {
                assert(pos as i16 != 0);
                lemma_scan_targets_nonzero(body, i + 1, pos, targets.push(pos as i16), dec);
            },
            AstSpec::Decr(n) => if dec && n == 1 && pos != 0 {
                assert(pos as i16 != 0);
                lemma_scan_targets_nonzero(body, i + 1, pos, targets.push(pos as i16), dec);
            },
            _ => {},
        }
    }
}

/// A recognized loop shorthand is well formed whenever the loop body is.
pub proof fn lemma_simplify_wf(body: Seq<AstSpec>)
    requires
        seq_wf(body),
    ensures
        match simplify_spec(body) {
            Some(n) => node_wf(n),
            None => true,
        },
{
    if set_node_spec(body) is Some {
    } else if muladd_node_spec(body) is Some {
        assert(node_wf(body[1]));
    } else {
        lemma_scan_targets_nonzero(body, 1, 0, Seq::empty(), false);
        lemma_scan_targets_nonzero(body, 1, 0, Seq::empty(), true);
    }
}

/// Every level of the parser's stack is a well-formed stream in normal form;
/// the bottom level is top-level normalized.
pub open spec fn parse_levels_ok(st: ParseState) -> bool {
    &&& st.stack.len() >= 1
    &&& forall|k: int|
        0 <= k < st.stack.len() ==> seq_wf(#[trigger] st.stack[k]) && normalized(
            st.stack[k],
            k == 0,
        )
}

pub proof fn lemma_parse_state_wf(input: Seq<u8>, i: int)
    requires
        0 <= i <= input.len(),
    ensures
        match parse_state_at(input, i) {
            Ok(st) => parse_levels_ok(st),
            Err(_) => true,
        },
    decreases i,
{
    if i <= 0 {
        let st = ParseState::init();
        assert(st.stack[0] =~= Seq::<AstSpec>::empty());
    } else {
        lemma_parse_state_wf(input, i - 1);
        match parse_state_at(input, i - 1) {
            Err(_) => {},
            Ok(st) => {
                let c = input[i - 1];
                let col = st.col + 1;
                if c == 43 || c == 45 || c == 62 || c == 60 || c == 46 || c == 44 {
                    let node: AstSpec = if c == 43 {
                        AstSpec::Incr(1)
                    } else if c == 45 {
                        AstSpec::Decr(1)
                    } else if c == 62 {
                        AstSpec::Next(1)
                    } else if c == 60 {
                        AstSpec::Prev(1)
                    } else if c == 46 {
                        AstSpec::Print
                    } else {
                        AstSpec::Read
                    };
                    let k = st.stack.len() - 1;
                    lemma_push_opt_wf(st.stack[k], node, k == 0);
                    lemma_push_opt_normalized(st.stack[k], node, k == 0);
                    assert(parse_levels_ok(parse_emit(st, node, col)));
                } else if c == 91 {
                    let st2 = ParseState { stack: st.stack.push(Seq::empty()), line: st.line, col: col };
                    assert(parse_levels_ok(st2));
                } else if c == 93 {
                    if st.stack.len() > 1 {
                        let body = st.stack.last();
                        let rest = st.stack.drop_last();
                        let target = rest.last();
                        let top = rest.len() == 1;
                        let kb = st.stack.len() - 1;
                        let kt = rest.len() - 1;
                        assert(seq_wf(st.stack[kb]) && normalized(st.stack[kb], kb == 0));
                        assert(seq_wf(st.stack[kt]) && normalized(st.stack[kt], kt == 0));
                        let dead = if target.len() == 0 {
                            top
                        } else {
                            zeroes_cell(target.last())
                        };
                        if !dead {
                            let node = match simplify_spec(body) {
                                Some(n) => n,
                                None => AstSpec::Loop(body),
                            };
                            lemma_simplify_wf(body);
                            assert(node_wf(node));
                            lemma_push_opt_wf(target, node, top);
                            lemma_push_opt_normalized(target, node, top);
                        }
                        assert(parse_levels_ok(parse_close(st, col)));
                    }
                } else {
                }
            },
        }
    }
}

/// Law: IR well-formedness after optimization.  A successful parse yields a
/// stream with no zero counts, no adjacent fusable or cancelling pair, no
/// provably dead loop, and no loop as the first top-level instruction; the
/// same holds inside every loop body.
pub proof fn lemma_parse_well_formed(input: Seq<u8>)
    ensures
        match parse_spec(input) {
            Ok(ir) => seq_wf(ir) && normalized(ir, true),
            Err(_) => true,
        },
{
    lemma_parse_state_wf(input, input.len() as int);
}

/// A bracket error stops the parse: every later state carries it unchanged.
pub proof fn lemma_parse_err_persists(input: Seq<u8>, i: int, e: ParseError)
    requires
        0 <= i <= input.len(),
        parse_state_at(input, i) == Err::<ParseState, ParseError>(e),
    ensures
        parse_state_at(input, input.len() as int) == Err::<ParseState, ParseError>(e),
    decreases input.len() - i,
{
    if i < input.len() {
        assert(parse_state_at(input, i + 1) == Err::<ParseState, ParseError>(e));
        lemma_parse_err_persists(input, i + 1, e);
    }
}

/// What parsing a whole input yields: the optimized top-level stream, or the
/// first bracket error.
pub open spec fn parse_spec(input: Seq<u8>) -> Result<Seq<AstSpec>, ParseError> {
    match parse_state_at(input, input.len() as int) {
        Err(e) => Err(e),
        Ok(st) => if st.stack.len() > 1 {
            Err(
                ParseError::UnmatchedOpen { line: st.line as usize, col: st.col as usize },
            )
        } else {
            Ok(st.stack[0])
        },
    }
}

/// Abstraction of the exec parser's stack of streams.
pub open spec fn stack_view(stack: Seq<Vec<AstNode>>) -> Seq<Seq<AstSpec>> {
    Seq::new(
        stack.len(),
        |k: int|
            if 0 <= k < stack.len() {
                nodes_view(stack[k]@)
            } else {
                Seq::empty()
            },
    )
}

impl AstNode {
    /// Convert raw input into an optimized AST.
    ///
    /// Every byte outside the eight Brainfuck operators is a comment.  The
    /// result is the fully peephole-optimized top-level stream; a bracket
    /// mismatch is reported with its line and column.
    #[verifier::loop_isolation(false)]
    pub fn parse(input: &str) -> (r: Result<Vec<AstNode>, ParseError>)
        requires
            input.spec_bytes().len() < usize::MAX,
        ensures
            match r {
                Ok(ast) => parse_spec(input.spec_bytes()) == Ok::<Seq<AstSpec>, ParseError>(
                    nodes_view(ast@),
                ),
                Err(e) => parse_spec(input.spec_bytes()) == Err::<Seq<AstSpec>, ParseError>(e),
            },
            match r {
                Ok(ast) => seq_wf(nodes_view(ast@)) && normalized(nodes_view(ast@), true),
                Err(_) => true,
            },
    {
        let bytes: &[u8] = input.as_bytes();
        let ghost all = input.spec_bytes();

        let mut stack: Vec<Vec<AstNode>> = Vec::new();
        stack.push(Vec::new());
        let mut line: usize = 1;
        let mut col: usize = 0;
        let mut i: usize = 0;

        proof {
            assert(stack_view(stack@) =~~= ParseState::init().stack);
        }

        while i < bytes.len()
            invariant
                i <= all.len(),
                stack@.len() >= 1,
                line <= i + 1,
                col <= i,
                parse_state_at(all, i as int) == Ok::<ParseState, ParseError>(
                    ParseState {
                        stack: stack_view(stack@),
                        line: line as int,
                        col: col as int,
                    },
                ),
            decreases all.len() - i,
        {
            let c = bytes[i];
            let ghost pre = ParseState {
                stack: stack_view(stack@),
                line: line as int,
                col: col as int,
            };

            if c == 43 || c == 45 || c == 62 || c == 60 || c == 46 || c == 44 {
                let node = if c == 43 {
                    AstNode::Incr(1)
                } else if c == 45 {
                    AstNode::Decr(1)
                } else if c == 62 {
                    AstNode::Next(1)
                } else if c == 60 {
                    AstNode::Prev(1)
                } else if c == 46 {
                    AstNode::Print
                } else {
                    AstNode::Read
                };
                let ghost target_pre = stack@.last()@;
                let mut target = stack.pop().unwrap();
                let is_top = stack.len() == 0;
                AstNode::push_node(&mut target, node, is_top);
                stack.push(target);
                col = col + 1;
                proof {
                    assert(stack_view(stack@) =~~= parse_emit(pre, node_view(node), col as int)
                        .stack);
                }
            } else if c == 91 {
                stack.push(Vec::new());
                col = col + 1;
                proof {
                    assert(stack_view(stack@) =~~= pre.stack.push(Seq::empty()));
                }
            } else if c == 93 {
                col = col + 1;
                if stack.len() == 1 {
                    let e = ParseError::UnmatchedClose { line, col };
                    proof {
                        assert(parse_state_at(all, i + 1) == Err::<ParseState, ParseError>(e));
                        lemma_parse_err_persists(all, i + 1, e);
                    }
                    return Err(e);
                }
                let body = stack.pop().unwrap();
                let mut target = stack.pop().unwrap();
                let is_top = stack.len() == 0;
                let dead = if target.len() == 0 {
                    is_top
                } else {
                    AstNode::sets_to_zero(Some(&target[target.len() - 1]))
                };
                proof {
                    assert(pre.stack.last() == nodes_view(body@));
                    assert(pre.stack.drop_last() =~~= stack_view(stack@).push(
                        nodes_view(target@),
                    ));
                }
                if !dead {
                    let node = match AstNode::simplify_loop(&body) {
                        Some(n) => n,
                        None => AstNode::Loop(body),
                    };
                    AstNode::push_node(&mut target, node, is_top);
                }
                stack.push(target);
                proof {
                    assert(stack_view(stack@) =~~= parse_close(pre, col as int).stack);
                }
            } else if c == 10 {
                line = line + 1;
                col = 0;
            } else {
                // All other characters are comments and are ignored.
                col = col + 1;
            }
            i = i + 1;
        }

        if stack.len() > 1 {
            return Err(ParseError::UnmatchedOpen { line, col });
        }

        let ghost final_state = parse_state_at(all, all.len() as int);
        let out = stack.pop().unwrap();
        proof {
            assert(stack_view(stack@.push(out)) [0] == nodes_view(out@));
            lemma_parse_well_formed(all);
        }
        Ok(out)
    }
}

/// Compare two AST nodes structurally.
#[verifier::loop_isolation(false)]
pub fn node_eq(a: &AstNode, b: &AstNode) -> (r: bool)
    ensures
        r == (node_view(*a) == node_view(*b)),
    decreases *a,
{
    match (a, b) {
        (AstNode::Incr(x), AstNode::Incr(y)) => *x == *y,
        (AstNode::Decr(x), AstNode::Decr(y)) => *x == *y,
        (AstNode::Next(x), AstNode::Next(y)) => *x == *y,
        (AstNode::Prev(x), AstNode::Prev(y)) => *x == *y,
        (AstNode::Print, AstNode::Print) => true,
        (AstNode::Read, AstNode::Read) => true,
        (AstNode::SetTo(x), AstNode::SetTo(y)) => *x == *y,
        (AstNode::MultiplyAddTo(xo, xk), AstNode::MultiplyAddTo(yo, yk)) => *xo == *yo && *xk
            == *yk,
        (AstNode::AddTo(xs), AstNode::AddTo(ys)) => offsets_eq(xs, ys),
        (AstNode::SubFrom(xs), AstNode::SubFrom(ys)) => offsets_eq(xs, ys),
        (AstNode::Loop(xs), AstNode::Loop(ys)) => {
            if xs.len() != ys.len() {
                proof {
                    assert(nodes_view(xs@).len() != nodes_view(ys@).len());
                }
                return false;
            }
            let mut i: usize = 0;
            while i < xs.len()
                invariant
                    i <= xs@.len(),
                    xs@.len() == ys@.len(),
                    forall|k: int|
                        0 <= k < i ==> node_view(#[trigger] xs@[k]) == node_view(ys@[k]),
                decreases xs@.len() - i,
            {
                proof {
                    assert(decreases_to!(*a => *xs));
                    assert(decreases_to!(*xs => xs@));
                    assert(decreases_to!(xs@ => xs@[i as int]));
                }
                if !node_eq(&xs[i], &ys[i]) {
                    proof {
                        assert(nodes_view(xs@)[i as int] != nodes_view(ys@)[i as int]);
                    }
                    return false;
                }
                i += 1;
            }
            proof {
                assert(nodes_view(xs@) =~= nodes_view(ys@));
            }
            true
        },
        _ => false,
    }
}

/// Compare two offset lists.
#[verifier::loop_isolation(false)]
pub fn offsets_eq(a: &Vec<i16>, b: &Vec<i16>) -> (r: bool)
    ensures
        r == (a@ == b@),
{
    if a.len() != b.len() {
        return false;
    }
    let mut i: usize = 0;
    while i < a.len()
        invariant
            i <= a@.len(),
            a@.len() == b@.len(),
            forall|k: int| 0 <= k < i ==> a@[k] == b@[k],
        decreases a@.len() - i,
    {
        if a[i] != b[i] {
            return false;
        }
        i += 1;
    }
    proof {
        assert(a@ =~= b@);
    }
    true
}

/// Compare two node streams structurally.
#[verifier::loop_isolation(false)]
pub fn nodes_eq(a: &Vec<AstNode>, b: &Vec<AstNode>) -> (r: bool)
    ensures
        r == (nodes_view(a@) == nodes_view(b@)),
{
    if a.len() != b.len() {
        proof {
            assert(nodes_view(a@).len() != nodes_view(b@).len());
        }
        return false;
    }
    let mut i: usize = 0;
    while i < a.len()
        invariant
            i <= a@.len(),
            a@.len() == b@.len(),
            forall|k: int| 0 <= k < i ==> node_view(#[trigger] a@[k]) == node_view(b@[k]),
        decreases a@.len() - i,
    {
        if !node_eq(&a[i], &b[i]) {
            proof {
                assert(nodes_view(a@)[i as int] != nodes_view(b@)[i as int]);
            }
            return false;
        }
        i += 1;
    }
    proof {
        assert(nodes_view(a@) =~= nodes_view(b@));
    }
    true
}


impl PartialEq for AstNode {
    /// Structural equality.
    fn eq(&self, other: &Self) -> bool {
        node_eq(self, other)
    }
}

impl vstd::std_specs::cmp::PartialEqSpecImpl for AstNode {
    open spec fn obeys_eq_spec() -> bool {
        true
    }

    open spec fn eq_spec(&self, other: &Self) -> bool {
        node_view(*self) == node_view(*other)
    }
}

/// Structural copy of a stream of nodes.
#[verifier::loop_isolation(false)]
pub fn duplicate_nodes(v: &Vec<AstNode>) -> (r: Vec<AstNode>)
    ensures
        nodes_view(r@) == nodes_view(v@),
{
    let mut r: Vec<AstNode> = Vec::new();
    let mut i: usize = 0;
    while i < v.len()
        invariant
            i <= v@.len(),
            r@.len() == i,
            forall|k: int| 0 <= k < i ==> node_view(#[trigger] r@[k]) == node_view(v@[k]),
        decreases v@.len() - i,
    {
        r.push(v[i].duplicate());
        i += 1;
    }
    proof {
        assert(nodes_view(r@) =~= nodes_view(v@));
    }
    r
}

/// Structural copy of an offset list.
#[verifier::loop_isolation(false)]
pub fn copy_offsets(v: &Vec<i16>) -> (r: Vec<i16>)
    ensures
        r@ == v@,
{
    let mut r: Vec<i16> = Vec::new();
    let mut i: usize = 0;
    while i < v.len()
        invariant
            i <= v@.len(),
            r@ == v@.subrange(0, i as int),
        decreases v@.len() - i,
    {
        r.push(v[i]);
        proof {
            assert(v@.subrange(0, i + 1 as int) =~= v@.subrange(0, i as int).push(v@[i as int]));
        }
        i += 1;
    }
    proof {
        assert(v@.subrange(0, v@.len() as int) =~= v@);
    }
    r
}

} // verus!
