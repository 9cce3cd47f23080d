//! Index arithmetic on the complete binary tree whose root is index `0`.
//!
//! The children of `i` are `2i + 1` and `2i + 2`, so level `d` holds the
//! indices from `2^d - 1` to `2^(d+1) - 2`.

use crate::tree_arithmetic::lemma_pow2_monotonic;
use crate::NodeIndex;
use vstd::arithmetic::power2::{
    lemma2_to64, lemma2_to64_rest, lemma_pow2_adds, lemma_pow2_unfold, pow2,
};
use vstd::prelude::*;

verus! {

/// The index one level above `index`; the root is its own parent.
pub open spec fn spec_parent(index: nat) -> nat {
    if index == 0 {
        0
    } else {
        ((index - 1) / 2) as nat
    }
}

/// The number of levels between the root and `index`.
pub open spec fn spec_depth(index: nat) -> nat
    decreases index,
{
    if index == 0 {
        0
    } else {
        1 + spec_depth(spec_parent(index))
    }
}

/// The index reached from `index` by `depth` steps towards the root.
pub open spec fn spec_root_from_depth(index: nat, depth: nat) -> nat
    decreases depth,
{
    if depth == 0 {
        index
    } else {
        spec_root_from_depth(spec_parent(index), (depth - 1) as nat)
    }
}

/// The number of levels by which `index` lies below the level of `ancestor`.
pub open spec fn spec_relative_depth(ancestor: nat, index: nat) -> nat {
    (spec_depth(index) - spec_depth(ancestor)) as nat
}

/// `index` is `root` or one of its descendants.
pub open spec fn in_subtree(root: nat, index: nat) -> bool {
    &&& spec_depth(root) <= spec_depth(index)
    &&& spec_root_from_depth(index, spec_relative_depth(root, index)) == root
}

/// The index that `index` has in the tree that starts at `root`: each level
/// below `root` is numbered as the same level below index `0`.
pub open spec fn spec_general_index_to_subtree(root: nat, index: nat) -> nat {
    (index - root * pow2(spec_relative_depth(root, index))) as nat
}

/// The index in the whole tree of the node that has index `local` in the tree
/// that starts at `root`.
pub open spec fn spec_subtree_index_to_general(root: nat, local: nat) -> nat {
    local + root * pow2(spec_depth(local))
}

/// Level `d` holds exactly the indices from `2^d - 1` to `2^(d+1) - 2`.
pub proof fn lemma_depth_bounds(index: nat)
    ensures
        pow2(spec_depth(index)) <= index + 1 < 2 * pow2(spec_depth(index)),
    decreases index,
{
    if index == 0 {
        lemma2_to64();
    } else {
        lemma_depth_bounds(spec_parent(index));
        lemma_pow2_unfold(spec_depth(index));
    }
}

/// An index between `2^d - 1` and `2^(d+1) - 2` lies on level `d`.
pub proof fn lemma_depth_unique(index: nat, d: nat)
    requires
        pow2(d) <= index + 1 < 2 * pow2(d),
    ensures
        spec_depth(index) == d,
{
    let k = spec_depth(index);
    lemma_depth_bounds(index);
    if k < d {
        lemma_pow2_unfold(k + 1);
        lemma_pow2_monotonic(k + 1, d);
    } else if d < k {
        lemma_pow2_unfold(d + 1);
        lemma_pow2_monotonic(d + 1, k);
    }
}

/// A larger index never lies on a higher level.
pub proof fn lemma_depth_monotonic(a: nat, b: nat)
    requires
        a <= b,
    ensures
        spec_depth(a) <= spec_depth(b),
{
    lemma_depth_bounds(a);
    lemma_depth_bounds(b);
    if spec_depth(b) < spec_depth(a) {
        lemma_pow2_unfold(spec_depth(b) + 1);
        lemma_pow2_monotonic(spec_depth(b) + 1, spec_depth(a));
    }
}

/// Every `u64` index lies on one of the levels `0` to `64`.
pub proof fn lemma_depth_of_u64(index: u64)
    ensures
        spec_depth(index as nat) <= 64,
{
    lemma_depth_bounds(index as nat);
    if spec_depth(index as nat) > 64 {
        lemma2_to64_rest();
        lemma_pow2_unfold(65);
        lemma_pow2_monotonic(65, spec_depth(index as nat));
    }
}

/// The ancestor `depth` levels above `index` lies on the level that is
/// `depth` higher, and its descendants on the level of `index` are the
/// `2^depth` indices from `(r + 1) * 2^depth - 1` on.
pub proof fn lemma_root_from_depth_bounds(index: nat, depth: nat)
    requires
        depth <= spec_depth(index),
    ensures
        spec_depth(spec_root_from_depth(index, depth)) == spec_depth(index) - depth,
        (spec_root_from_depth(index, depth) + 1) * pow2(depth) <= index + 1,
        index + 1 < (spec_root_from_depth(index, depth) + 2) * pow2(depth),
    decreases depth,
{
    if depth == 0 {
        lemma2_to64();
    } else {
        let p = spec_parent(index);
        let r = spec_root_from_depth(index, depth);
        let half = pow2((depth - 1) as nat);
        lemma_root_from_depth_bounds(p, (depth - 1) as nat);
        lemma_pow2_unfold(depth);
        assert((r + 1) * (2 * half) == 2 * ((r + 1) * half)) by (nonlinear_arith);
        assert((r + 2) * (2 * half) == 2 * ((r + 2) * half)) by (nonlinear_arith);
    }
}

/// Only one multiple of `m` has `x` among the `m` numbers that start at it.
proof fn lemma_multiple_unique(a: nat, b: nat, m: nat, x: nat)
    by (nonlinear_arith)
    requires
        a * m <= x < (a + 1) * m,
        b * m <= x < (b + 1) * m,
    ensures
        a == b,
{
}

/// What holds of an index inside a subtree: the subtree's offset lies below
/// it, and its local index lies on the level that is its depth below the root.
pub proof fn lemma_subtree_bounds(root: nat, index: nat)
    requires
        in_subtree(root, index),
    ensures
        root * pow2(spec_relative_depth(root, index)) <= index,
        spec_depth(spec_general_index_to_subtree(root, index)) == spec_relative_depth(root, index),
        spec_subtree_index_to_general(root, spec_general_index_to_subtree(root, index)) == index,
{
    let d = spec_relative_depth(root, index);
    let w = pow2(d);
    lemma_root_from_depth_bounds(index, d);
    assert((root + 1) * w == root * w + w) by (nonlinear_arith);
    assert((root + 2) * w == root * w + 2 * w) by (nonlinear_arith);
    lemma_depth_unique(spec_general_index_to_subtree(root, index), d);
}

/// What holds of the node with index `local` in the tree that starts at
/// `root`: it lies in that subtree, as many levels below `root` as `local`
/// lies below index `0`, and re-basing it gives `local` back.
pub proof fn lemma_subtree_index_to_general(root: nat, local: nat)
    ensures
        spec_depth(spec_subtree_index_to_general(root, local)) == spec_depth(root) + spec_depth(local),
        in_subtree(root, spec_subtree_index_to_general(root, local)),
        spec_root_from_depth(spec_subtree_index_to_general(root, local), spec_depth(local)) == root,
        spec_general_index_to_subtree(root, spec_subtree_index_to_general(root, local)) == local,
{
    let g = spec_subtree_index_to_general(root, local);
    let d = spec_depth(local);
    let dr = spec_depth(root);
    let w = pow2(d);
    let wr = pow2(dr);
    lemma_depth_bounds(local);
    lemma_depth_bounds(root);
    lemma_pow2_adds(dr, d);
    assert((root + 1) * w == root * w + w) by (nonlinear_arith);
    assert((root + 2) * w == root * w + 2 * w) by (nonlinear_arith);
    assert(wr * w <= (root + 1) * w) by (nonlinear_arith)
        requires
            wr <= root + 1,
    ;
    assert((root + 2) * w <= (2 * wr) * w) by (nonlinear_arith)
        requires
            root + 2 <= 2 * wr,
    ;
    assert((2 * wr) * w == 2 * (wr * w)) by (nonlinear_arith);
    lemma_depth_unique(g, dr + d);
    lemma_root_from_depth_bounds(g, d);
    let r = spec_root_from_depth(g, d);
    lemma_multiple_unique(r + 1, root + 1, w, g + 1);
}

/// Re-basing keeps the shape of the tree: the root of a subtree becomes
/// index `0`, and the children of a node in the subtree become the children
/// of what the node becomes.
pub proof fn lemma_rebase_keeps_children(root: nat, index: nat)
    requires
        in_subtree(root, index),
    ensures
        spec_general_index_to_subtree(root, root) == 0,
        in_subtree(root, 2 * index + 1),
        in_subtree(root, 2 * index + 2),
        spec_general_index_to_subtree(root, 2 * index + 1) == 2 * spec_general_index_to_subtree(
            root,
            index,
        ) + 1,
        spec_general_index_to_subtree(root, 2 * index + 2) == 2 * spec_general_index_to_subtree(
            root,
            index,
        ) + 2,
{
    let d = spec_relative_depth(root, index);
    lemma2_to64();
    lemma_pow2_unfold(d + 1);
    lemma_subtree_bounds(root, index);
    assert(root * 1 == root) by (nonlinear_arith);
    assert(root * (2 * pow2(d)) == 2 * (root * pow2(d))) by (nonlinear_arith);
}

/// The level of `index`.
pub fn depth(index: NodeIndex) -> (d: u64)
    ensures
        d == spec_depth(index as nat),
        d <= 64,
{
    let mut i: u64 = index;
    let mut d: u64 = 0;
    proof {
        lemma_depth_of_u64(index);
    }
    while i > 0
        invariant
            spec_depth(index as nat) == d + spec_depth(i as nat),
            spec_depth(index as nat) <= 64,
        decreases i,
    {
        i = (i - 1) / 2;
        d = d + 1;
    }
    d
}

/// The number of levels by which `index` lies below the level of `ancestor`.
pub fn relative_depth(ancestor: NodeIndex, index: NodeIndex) -> (levels: u64)
    requires
        spec_depth(ancestor as nat) <= spec_depth(index as nat),
    ensures
        levels == spec_relative_depth(ancestor as nat, index as nat),
        levels <= 64,
{
    depth(index) - depth(ancestor)
}

/// The ancestor of `index` that lies `depth` levels above it.
pub fn root_from_depth(index: NodeIndex, depth: u64) -> (root: NodeIndex)
    requires
        depth <= spec_depth(index as nat),
    ensures
        root == spec_root_from_depth(index as nat, depth as nat),
        in_subtree(root as nat, index as nat),
{
    proof {
        lemma_root_from_depth_bounds(index as nat, depth as nat);
    }
    let mut root: u64 = index;
    let mut remaining: u64 = depth;
    while remaining > 0
        invariant
            remaining <= spec_depth(root as nat),
            spec_root_from_depth(index as nat, depth as nat) == spec_root_from_depth(
                root as nat,
                remaining as nat,
            ),
        decreases remaining,
    {
        root = (root - 1) / 2;
        remaining = remaining - 1;
    }
    root
}

/// Re-bases `index`, which lies in the subtree of `subtree_root`, into the
/// numbering of that subtree, where `subtree_root` itself is index `0`.
pub fn general_index_to_subtree(subtree_root: NodeIndex, index: NodeIndex) -> (local: NodeIndex)
    requires
        in_subtree(subtree_root as nat, index as nat),
    ensures
        local == spec_general_index_to_subtree(subtree_root as nat, index as nat),
{
    let levels = relative_depth(subtree_root, index);
    let mut offset: u64 = subtree_root;
    let mut done: u64 = 0;
    proof {
        lemma_subtree_bounds(subtree_root as nat, index as nat);
        lemma2_to64();
    }
    while done < levels
        invariant
            done <= levels,
            offset == subtree_root * pow2(done as nat),
            subtree_root * pow2(levels as nat) <= index,
        decreases levels - done,
    {
        proof {
            let next = pow2((done + 1) as nat);
            let all = pow2(levels as nat);
            lemma_pow2_unfold((done + 1) as nat);
            lemma_pow2_monotonic((done + 1) as nat, levels as nat);
            assert(subtree_root * next <= subtree_root * all) by (nonlinear_arith)
                requires
                    next <= all,
            ;
            assert(subtree_root * (2 * pow2(done as nat)) == 2 * (subtree_root * pow2(done as nat)))
                by (nonlinear_arith);
        }
        offset = offset * 2;
        done = done + 1;
    }
    index - offset
}

} // verus!
