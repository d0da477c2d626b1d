use vstd::prelude::*;
use crate::text::str_equal;

verus! {

/// Most frames that one backtrace visits; a frame chain that never reaches
/// the entry function is cut off here.
pub const MAX_FRAMES: usize = 1024;

/// What the walk does after visiting a frame.
#[derive(Clone, Copy, Debug, PartialEq, Eq, Structural)]
pub enum WalkStep {
    /// The backtrace is complete.
    Stop,
    /// Read the caller's return address at `return_slot` and the caller's
    /// frame base at `base_slot`, and visit that frame next.
    Next { return_slot: u64, base_slot: u64 },
}

/// Whether `function` is the program's entry function, where a walk ends.
pub open spec fn is_entry_function(function: Seq<char>) -> bool {
    function == "main"@
}

/// The step after visiting frame number `depth` (zero for the innermost),
/// whose frame base is `rbp` and whose function is named `function`. The
/// saved frame base is stored at the frame base and the return address in
/// the word above it.
pub open spec fn walk_step_of(depth: nat, rbp: u64, function: Seq<char>) -> WalkStep {
    if is_entry_function(function) || depth + 1 >= MAX_FRAMES || rbp > u64::MAX - 8 {
        WalkStep::Stop
    } else {
        WalkStep::Next { return_slot: (rbp + 8) as u64, base_slot: rbp }
    }
}

pub fn walk_step(depth: usize, rbp: u64, function: &str) -> (r: WalkStep)
    ensures
        r == walk_step_of(depth as nat, rbp, function@),
{
    if str_equal(function, "main") || depth >= MAX_FRAMES - 1 || rbp > u64::MAX - 8 {
        WalkStep::Stop
    } else {
        WalkStep::Next { return_slot: rbp + 8, base_slot: rbp }
    }
}

/// Number of frames that a walk emits from frame `depth` on, where frame `i`
/// has base `base(i)` and function `name(i)`.
pub open spec fn walk_length(
    base: spec_fn(nat) -> u64,
    name: spec_fn(nat) -> Seq<char>,
    depth: nat,
) -> nat
    decreases MAX_FRAMES - depth,
{
    if walk_step_of(depth, base(depth), name(depth)) is Stop {
        depth + 1
    } else {
        walk_length(base, name, depth + 1)
    }
}

/// Frame `k` is the first whose function is the entry function, and every
/// frame before it has a base from which the caller's slots can be addressed.
pub open spec fn reaches_entry_at(
    base: spec_fn(nat) -> u64,
    name: spec_fn(nat) -> Seq<char>,
    k: nat,
) -> bool {
    &&& is_entry_function(name(k))
    &&& forall|j: nat| j < k ==> !is_entry_function(#[trigger] name(j)) && base(j) <= u64::MAX - 8
}

proof fn lemma_walk_length_bounded(
    base: spec_fn(nat) -> u64,
    name: spec_fn(nat) -> Seq<char>,
    depth: nat,
)
    requires
        depth < MAX_FRAMES,
    ensures
        depth < walk_length(base, name, depth) <= MAX_FRAMES,
    decreases MAX_FRAMES - depth,
{
    if !(walk_step_of(depth, base(depth), name(depth)) is Stop) {
        lemma_walk_length_bounded(base, name, depth + 1);
    }
}

proof fn lemma_walk_reaches_entry(
    base: spec_fn(nat) -> u64,
    name: spec_fn(nat) -> Seq<char>,
    depth: nat,
    k: nat,
)
    requires
        depth <= k < MAX_FRAMES,
        reaches_entry_at(base, name, k),
    ensures
        walk_length(base, name, depth) == k + 1,
    decreases k - depth,
{
    if depth < k {
        lemma_walk_reaches_entry(base, name, depth + 1, k);
    }
}

/// A stack walk always ends: it visits at most `MAX_FRAMES` frames, whatever
/// the memory it reads. When the frame chain follows the frame-pointer
/// convention and reaches the entry function at frame `k` within that
/// bound, the walk emits exactly the frames up to and including frame `k`.
pub proof fn lemma_stack_walk_terminates(
    base: spec_fn(nat) -> u64,
    name: spec_fn(nat) -> Seq<char>,
    k: nat,
)
    ensures
        1 <= walk_length(base, name, 0) <= MAX_FRAMES,
        k < MAX_FRAMES && reaches_entry_at(base, name, k) ==> walk_length(base, name, 0) == k + 1,
{
    lemma_walk_length_bounded(base, name, 0);
    if k < MAX_FRAMES && reaches_entry_at(base, name, k) {
        lemma_walk_reaches_entry(base, name, 0, k);
    }
}

} // verus!
