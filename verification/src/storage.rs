//! The ledger store: an append/read interface over branches keyed by
//! identifier, with an in-memory map as its concrete implementation.

use vstd::hash_map::StringHashMap;
use vstd::prelude::*;

use crate::block::{Block, BlockModel};
use crate::error::BlocktreeError;

verus! {

/// What a store holds: each branch's ordered block sequence, keyed by
/// the branch identifier.
pub type BranchMap = Map<Seq<char>, Seq<BlockModel>>;

/// The blocks of branch `k` in `m`; an empty sequence if `k` is absent.
pub open spec fn branch_or_empty(m: BranchMap, k: Seq<char>) -> Seq<BlockModel> {
    if m.contains_key(k) {
        m[k]
    } else {
        Seq::empty()
    }
}

/// The append/read interface to durable branch storage.
pub trait Storage: Sized {
    /// The branches held.
    spec fn branches(&self) -> BranchMap;

    /// Appends a block to the named branch, creating the branch if it is
    /// absent. On failure the store is unchanged.
    fn save_block(&mut self, block: Block, branch_id: &str) -> (r: Result<(), BlocktreeError>)
        ensures
            match r {
                Ok(()) => final(self).branches() == old(self).branches().insert(
                    branch_id@,
                    branch_or_empty(old(self).branches(), branch_id@).push(block@),
                ),
                Err(e) => final(self).branches() == old(self).branches() && e is StorageError,
            },
    ;

    /// The named branch's blocks, `None` exactly when the branch is
    /// absent.
    fn get_branch(&self, branch_id: &str) -> (r: Option<&Vec<Block>>)
        ensures
            match r {
                Some(v) => self.branches().contains_key(branch_id@) && v.deep_view()
                    == self.branches()[branch_id@],
                None => !self.branches().contains_key(branch_id@),
            },
    ;

    /// The identifiers of the held branches: every listed identifier
    /// names a branch, every branch is listed, and no identifier is
    /// listed twice.
    fn get_branch_keys(&self) -> (r: Vec<String>)
        ensures
            forall|i: int| 0 <= i < r@.len() ==> self.branches().contains_key(#[trigger] r@[i]@),
            forall|k: Seq<char>|
                #[trigger] self.branches().contains_key(k) ==> exists|i: int|
                    0 <= i < r@.len() && r@[i]@ == k,
            forall|i: int, j: int|
                #![trigger r@[i], r@[j]]
                0 <= i < j < r@.len() ==> r@[i]@ != r@[j]@,
    ;
}

/// An owned copy of a block sequence, model-equal to the original.
fn clone_blocks(v: &Vec<Block>) -> (r: Vec<Block>)
    ensures
        r.deep_view() == v.deep_view(),
{
    let mut r: Vec<Block> = Vec::new();
    let n = v.len();
    for i in 0..n
        invariant
            n == v@.len(),
            r@.len() == i,
            forall|j: int| 0 <= j < i ==> #[trigger] r@[j]@ == v@[j]@,
    {
        r.push(v[i].duplicate());
    }
    proof {
        assert(r.deep_view() =~~= v.deep_view());
    }
    r
}

struct StoreInner {
    table: StringHashMap<Vec<Block>>,
    ids: Vec<String>,
}

/// An in-memory store: one valid implementation of `Storage`, holding
/// each branch in a map beside the list of its identifiers.
pub struct InMemoryStorage {
    inner: StoreInner,
}

impl InMemoryStorage {
    /// The identifier list names exactly the table's keys, once each.
    #[verifier::type_invariant]
    spec fn inv(self) -> bool {
        &&& forall|i: int, j: int|
            0 <= i < j < self.inner.ids@.len() ==> self.inner.ids@[i]@ != self.inner.ids@[j]@
        &&& forall|i: int|
            0 <= i < self.inner.ids@.len() ==> self.inner.table@.contains_key(
                #[trigger] self.inner.ids@[i]@,
            )
        &&& forall|k: Seq<char>|
            #[trigger] self.inner.table@.contains_key(k) ==> exists|i: int|
                0 <= i < self.inner.ids@.len() && self.inner.ids@[i]@ == k
    }

    /// An empty store.
    pub fn new() -> (r: InMemoryStorage)
        ensures
            r.branches() == Map::<Seq<char>, Seq<BlockModel>>::empty(),
    {
        let r = InMemoryStorage {
            inner: StoreInner { table: StringHashMap::new(), ids: Vec::new() },
        };
        proof {
            assert(r.branches() =~= Map::<Seq<char>, Seq<BlockModel>>::empty());
        }
        r
    }
}

impl Default for InMemoryStorage {
    /// An empty store.
    fn default() -> (r: InMemoryStorage)
        ensures
            r.branches() == Map::<Seq<char>, Seq<BlockModel>>::empty(),
    {
        InMemoryStorage::new()
    }
}

impl Storage for InMemoryStorage {
    closed spec fn branches(&self) -> BranchMap {
        self.inner.table@.map_values(|v: Vec<Block>| v.deep_view())
    }

    fn save_block(&mut self, block: Block, branch_id: &str) -> (r: Result<(), BlocktreeError>)
        ensures
            r matches Ok(()),
    {
        proof {
            use_type_invariant(&*self);
        }
        let ghost old_branches = self.branches();
        let ghost old_table = self.inner.table@;
        let ghost old_ids = self.inner.ids@;
        let mut inner = StoreInner { table: StringHashMap::new(), ids: Vec::new() };
        core::mem::swap(&mut self.inner, &mut inner);
        let mut updated: Vec<Block>;
        let existed: bool;
        match inner.table.get(branch_id) {
            Some(v) => {
                updated = clone_blocks(v);
                existed = true;
            },
            None => {
                updated = Vec::new();
                existed = false;
            },
        }
        updated.push(block);
        proof {
            assert(updated.deep_view() =~~= branch_or_empty(old_branches, branch_id@).push(
                block@,
            ));
        }
        let ghost upd = updated.deep_view();
        if !existed {
            inner.ids.push(branch_id.to_owned());
        }
        inner.table.insert(branch_id.to_owned(), updated);
        proof {
            // the identifier list still names exactly the table's keys
            if !existed {
                assert forall|i: int| 0 <= i < old_ids.len() implies old_ids[i]@ != branch_id@ by {
                    assert(old_table.contains_key(old_ids[i]@));
                }
            }
            assert forall|k: Seq<char>| #[trigger]
                inner.table@.contains_key(k) implies exists|i: int|
                0 <= i < inner.ids@.len() && inner.ids@[i]@ == k by {
                if k == branch_id@ && !existed {
                    assert(inner.ids@[inner.ids@.len() - 1]@ == k);
                } else {
                    let i = choose|i: int| 0 <= i < old_ids.len() && old_ids[i]@ == k;
                    assert(inner.ids@[i]@ == k);
                }
            }
        }
        self.inner = inner;
        proof {
            let k = branch_id@;
            let lhs = self.branches();
            let rhs = old_branches.insert(k, branch_or_empty(old_branches, k).push(block@));
            assert(self.inner.table@ == old_table.insert(k, self.inner.table@[k]));
            assert forall|k2: Seq<char>| #![auto]
                lhs.contains_key(k2) <==> rhs.contains_key(k2) by {}
            assert(lhs.dom() =~= rhs.dom());
            assert forall|k2: Seq<char>| #[trigger] rhs.contains_key(k2) implies lhs[k2]
                == rhs[k2] by {
                if k2 == k {
                    assert(lhs[k] == upd);
                } else {
                    assert(lhs[k2] == old_table[k2].deep_view());
                }
            }
            assert(lhs =~= rhs);
        }
        Ok(())
    }

    fn get_branch(&self, branch_id: &str) -> (r: Option<&Vec<Block>>) {
        self.inner.table.get(branch_id)
    }

    fn get_branch_keys(&self) -> (r: Vec<String>) {
        proof {
            use_type_invariant(&*self);
        }
        let mut r: Vec<String> = Vec::new();
        let n = self.inner.ids.len();
        for i in 0..n
            invariant
                n == self.inner.ids@.len(),
                r@.len() == i,
                forall|j: int| 0 <= j < i ==> #[trigger] r@[j] == self.inner.ids@[j],
        {
            r.push(self.inner.ids[i].clone());
        }
        proof {
            assert forall|k: Seq<char>| #[trigger]
                self.branches().contains_key(k) implies exists|i: int|
                0 <= i < r@.len() && r@[i]@ == k by {
                assert(self.inner.table@.contains_key(k));
                let i = choose|i: int|
                    0 <= i < self.inner.ids@.len() && self.inner.ids@[i]@ == k;
                assert(r@[i]@ == k);
            }
        }
        r
    }
}

} // verus!
