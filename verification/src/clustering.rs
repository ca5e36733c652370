//! Split partitioning: the interface to a 2-way node partitioner, and
//! the decisions around it. The spectral eigen-decomposition itself is
//! floating-point work supplied by a caller; the library consumes only
//! the signs of the Fiedler vector's entries.

use vstd::prelude::*;

use crate::error::BlocktreeError;

verus! {

/// A 2-way partitioner over a fixed node set. The Fiedler vector is
/// handed over reduced to the signs of its entries (`true` for
/// non-negative), the only part of it the partition consumes.
pub trait Clustering: Sized {
    /// The signs of the Fiedler vector's entries, one per node; a
    /// `ClusteringError` when the computation is degenerate.
    fn compute_fiedler_vector(&self) -> (r: Result<Vec<bool>, BlocktreeError>)
        ensures
            r matches Err(e) ==> e is ClusteringError,
    ;

    /// Partitions the node set by entry sign: non-negative entries to
    /// the first cluster, negative to the second.
    fn partition_nodes(&self, fiedler_vector: &Vec<bool>) -> (r: (Vec<u32>, Vec<u32>));
}

/// The nodes whose entry sign matches `wanted`, in node order.
pub open spec fn spec_cluster(nodes: Seq<u32>, signs: Seq<bool>, wanted: bool) -> Seq<u32>
    decreases nodes.len(),
{
    if nodes.len() == 0 || signs.len() == 0 {
        Seq::empty()
    } else if signs.last() == wanted {
        spec_cluster(nodes.drop_last(), signs.drop_last(), wanted).push(nodes.last())
    } else {
        spec_cluster(nodes.drop_last(), signs.drop_last(), wanted)
    }
}

/// Splits a node set by the per-node signs: non-negative first, ties to
/// the first cluster by convention.
pub fn partition_by_sign(nodes: &Vec<u32>, signs: &Vec<bool>) -> (r: (Vec<u32>, Vec<u32>))
    requires
        nodes@.len() == signs@.len(),
    ensures
        r.0@ == spec_cluster(nodes@, signs@, true),
        r.1@ == spec_cluster(nodes@, signs@, false),
{
    let mut c1: Vec<u32> = Vec::new();
    let mut c2: Vec<u32> = Vec::new();
    let n = nodes.len();
    proof {
        assert(nodes@.subrange(0, 0) =~= Seq::<u32>::empty());
    }
    for i in 0..n
        invariant
            n == nodes@.len(),
            n == signs@.len(),
            c1@ == spec_cluster(nodes@.subrange(0, i as int), signs@.subrange(0, i as int), true),
            c2@ == spec_cluster(nodes@.subrange(0, i as int), signs@.subrange(0, i as int), false),
    {
        if signs[i] {
            c1.push(nodes[i]);
        } else {
            c2.push(nodes[i]);
        }
        proof {
            assert(nodes@.subrange(0, i + 1).drop_last() =~= nodes@.subrange(0, i as int));
            assert(signs@.subrange(0, i + 1).drop_last() =~= signs@.subrange(0, i as int));
        }
    }
    proof {
        assert(nodes@.subrange(0, n as int) =~= nodes@);
        assert(signs@.subrange(0, n as int) =~= signs@);
    }
    (c1, c2)
}

/// Decides which eigenpair carries the partition signal: the one with
/// the second-smallest eigenvalue. Owed exactly when at least two
/// eigenpairs exist; degenerate graphs are refused.
pub fn fiedler_component_index(eigen_count: usize) -> (r: Result<usize, BlocktreeError>)
    ensures
        match r {
            Ok(i) => eigen_count >= 2 && i == 1,
            Err(e) => e is ClusteringError && eigen_count < 2,
        },
{
    if eigen_count >= 2 {
        Ok(1)
    } else {
        Err(BlocktreeError::ClusteringError("Failed to compute Fiedler vector".to_owned()))
    }
}

/// Law: the two clusters partition the node set — together they hold as
/// many entries as there are nodes, and each node stands in the cluster
/// named by its sign.
pub proof fn lemma_partition_complete(nodes: Seq<u32>, signs: Seq<bool>)
    requires
        nodes.len() == signs.len(),
    ensures
        spec_cluster(nodes, signs, true).len() + spec_cluster(nodes, signs, false).len()
            == nodes.len(),
        forall|i: int|
            0 <= i < nodes.len() ==> spec_cluster(nodes, signs, signs[i]).contains(
                #[trigger] nodes[i],
            ),
    decreases nodes.len(),
{
    if nodes.len() > 0 {
        lemma_partition_complete(nodes.drop_last(), signs.drop_last());
        assert forall|i: int|
            0 <= i < nodes.len() implies spec_cluster(nodes, signs, signs[i]).contains(
            #[trigger] nodes[i],
        ) by {
            if i < nodes.len() - 1 {
                assert(signs.drop_last()[i] == signs[i]);
                assert(nodes.drop_last()[i] == nodes[i]);
                assert(spec_cluster(nodes.drop_last(), signs.drop_last(), signs.drop_last()[i])
                    .contains(nodes.drop_last()[i]));
                assert(spec_cluster(nodes.drop_last(), signs.drop_last(), signs[i]).contains(
                    nodes[i],
                ));
                let w = choose|j: int|
                    0 <= j < spec_cluster(nodes.drop_last(), signs.drop_last(), signs[i]).len()
                        && spec_cluster(nodes.drop_last(), signs.drop_last(), signs[i])[j]
                        == nodes[i];
                assert(spec_cluster(nodes, signs, signs[i])[w] == nodes[i]);
            } else {
                let c = spec_cluster(nodes, signs, signs[i]);
                assert(c.last() == nodes[i]);
            }
        }
    }
}

} // verus!
