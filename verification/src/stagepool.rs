//! The per-node pool of in-flight mined blocks awaiting quorum votes,
//! keyed by block hash.

use crate::block::Block;
use vstd::prelude::*;

verus! {

/// A staged block together with the votes gathered for it so far.
#[derive(Debug)]
pub struct StagedBlockStatus {
    pub block: Block,
    pub votes: u64,
}

/// The first entry in `s` whose block hash reads `h`, if any.
pub open spec fn stage_entry(s: Seq<StagedBlockStatus>, h: Seq<char>) -> Option<StagedBlockStatus>
    decreases s.len(),
{
    if s.len() == 0 {
        None
    } else if s[0].block.hash@ == h {
        Some(s[0])
    } else {
        stage_entry(s.drop_first(), h)
    }
}

/// Whether some entry in `s` carries block hash `h`.
pub open spec fn stage_has(s: Seq<StagedBlockStatus>, h: Seq<char>) -> bool {
    stage_entry(s, h) is Some
}

/// Uniqueness by block hash: no entry's hash recurs later in the sequence.
pub open spec fn stage_wf(s: Seq<StagedBlockStatus>) -> bool
    decreases s.len(),
{
    s.len() == 0 || (!stage_has(s.drop_first(), s[0].block.hash@) && stage_wf(s.drop_first()))
}

/// A lookup finds a hash exactly when some entry carries it.
pub proof fn lemma_stage_entry_exists(s: Seq<StagedBlockStatus>, h: Seq<char>)
    ensures
        stage_has(s, h) <==> exists|i: int| 0 <= i < s.len() && s[i].block.hash@ == h,
    decreases s.len(),
{
    if s.len() > 0 {
        lemma_stage_entry_exists(s.drop_first(), h);
        if s[0].block.hash@ == h {
            assert(s[0].block.hash@ == h);
        } else if stage_has(s.drop_first(), h) {
            let i = choose|i: int|
                0 <= i < s.drop_first().len() && s.drop_first()[i].block.hash@ == h;
            assert(s[i + 1].block.hash@ == h);
        } else {
            assert forall|i: int| 0 <= i < s.len() implies s[i].block.hash@ != h by {
                if i > 0 {
                    assert(s.drop_first()[i - 1] == s[i]);
                }
            }
        }
    }
}

/// The entry a lookup finds is one of the pool's entries.
pub proof fn lemma_stage_entry_member(s: Seq<StagedBlockStatus>, h: Seq<char>)
    requires
        stage_has(s, h),
    ensures
        exists|i: int| 0 <= i < s.len() && s[i] == stage_entry(s, h)->Some_0,
    decreases s.len(),
{
    if s[0].block.hash@ == h {
        assert(s[0] == stage_entry(s, h)->Some_0);
    } else {
        lemma_stage_entry_member(s.drop_first(), h);
        let i = choose|i: int|
            0 <= i < s.drop_first().len() && s.drop_first()[i] == stage_entry(
                s.drop_first(),
                h,
            )->Some_0;
        assert(s[i + 1] == stage_entry(s, h)->Some_0);
    }
}

/// The entry a lookup finds carries the hash it was looked up by.
pub proof fn lemma_stage_entry_hash(s: Seq<StagedBlockStatus>, h: Seq<char>)
    requires
        stage_has(s, h),
    ensures
        stage_entry(s, h)->Some_0.block.hash@ == h,
    decreases s.len(),
{
    if s[0].block.hash@ != h {
        lemma_stage_entry_hash(s.drop_first(), h);
    }
}

/// Removing the first entry that carries `h` (at position `i`) erases `h`
/// from the pool and leaves every other hash's entry unchanged.
proof fn lemma_stage_remove_at(s: Seq<StagedBlockStatus>, i: int, h2: Seq<char>)
    requires
        stage_wf(s),
        0 <= i < s.len(),
        forall|j: int| 0 <= j < i ==> s[j].block.hash@ != s[i].block.hash@,
    ensures
        stage_wf(s.remove(i)),
        stage_entry(s.remove(i), h2) == if h2 == s[i].block.hash@ {
            None::<StagedBlockStatus>
        } else {
            stage_entry(s, h2)
        },
    decreases s.len(),
{
    lemma_stage_entry_exists(s.drop_first(), s[0].block.hash@);
    if i == 0 {
        assert(s.remove(0) =~= s.drop_first());
        if h2 == s[0].block.hash@ {
            lemma_stage_entry_exists(s.drop_first(), h2);
        }
    } else {
        let rest = s.drop_first();
        assert forall|j: int| 0 <= j < i - 1 implies (#[trigger] rest[j]).block.hash@ != rest[i
            - 1].block.hash@ by {
            assert(rest[j] == s[j + 1]);
            assert(rest[i - 1] == s[i]);
        }
        assert(rest[i - 1] == s[i]);
        lemma_stage_remove_at(rest, i - 1, h2);
        let t = s.remove(i);
        assert(t[0] == s[0]);
        assert(t.drop_first() =~= rest.remove(i - 1));
        if h2 == s[i].block.hash@ {
            // The head does not carry h2: it stands before position i.
            assert(s[0].block.hash@ != s[i].block.hash@);
        }
        lemma_stage_entry_exists(rest.remove(i - 1), s[0].block.hash@);
        assert forall|k: int| 0 <= k < rest.remove(i - 1).len() implies (#[trigger] rest.remove(
            i - 1,
        )[k]).block.hash@ != s[0].block.hash@ by {
            if k < i - 1 {
                assert(rest.remove(i - 1)[k] == rest[k]);
            } else {
                assert(rest.remove(i - 1)[k] == rest[k + 1]);
            }
            lemma_stage_entry_exists(rest, s[0].block.hash@);
        }
        assert(stage_wf(t));
    }
}

/// Appending an entry whose hash is absent adds exactly that entry.
proof fn lemma_stage_push(s: Seq<StagedBlockStatus>, e: StagedBlockStatus, h2: Seq<char>)
    requires
        stage_wf(s),
        !stage_has(s, e.block.hash@),
    ensures
        stage_wf(s.push(e)),
        stage_entry(s.push(e), h2) == if h2 == e.block.hash@ {
            Some(e)
        } else {
            stage_entry(s, h2)
        },
    decreases s.len(),
{
    if s.len() == 0 {
        let t = s.push(e);
        assert(t[0] == e);
        assert(t.drop_first() =~= Seq::<StagedBlockStatus>::empty());
        assert(stage_entry(Seq::<StagedBlockStatus>::empty(), h2) is None);
        assert(stage_wf(Seq::<StagedBlockStatus>::empty()));
        if h2 != e.block.hash@ {
            assert(stage_entry(t, h2) is None);
        }
    } else {
        let t = s.push(e);
        assert(t[0] == s[0]);
        assert(t.drop_first() =~= s.drop_first().push(e));
        lemma_stage_push(s.drop_first(), e, h2);
        lemma_stage_push(s.drop_first(), e, s[0].block.hash@);
        assert(stage_wf(t));
    }
}

/// The per-node pool of mined blocks awaiting quorum.
#[derive(Debug)]
pub struct StagePool {
    pub staged: Vec<StagedBlockStatus>,
}

impl StagePool {
    /// Uniqueness by block hash.
    pub open spec fn wf(self) -> bool {
        stage_wf(self.staged@)
    }
}

impl Default for StagePool {
    /// The empty pool.
    fn default() -> (r: Self)
        ensures
            r.staged@ == Seq::<StagedBlockStatus>::empty(),
            r.wf(),
    {
        let r = StagePool { staged: Vec::new() };
        proof {
            assert(r.staged@ =~= Seq::<StagedBlockStatus>::empty());
        }
        r
    }
}

impl StagePool {
    /// The position of the entry carrying `hash`, if any.
    #[verifier::loop_isolation(false)]
    fn position_of(&self, hash: &String) -> (r: Option<usize>)
        ensures
            match r {
                Some(i) => i < self.staged@.len() && self.staged@[i as int].block.hash@ == hash@
                    && forall|j: int| 0 <= j < i ==> self.staged@[j].block.hash@ != hash@,
                None => !stage_has(self.staged@, hash@),
            },
    {
        proof {
            lemma_stage_entry_exists(self.staged@, hash@);
        }
        let mut i: usize = 0;
        while i < self.staged.len()
            invariant
                i <= self.staged@.len(),
                forall|j: int| 0 <= j < i ==> self.staged@[j].block.hash@ != hash@,
            decreases self.staged@.len() - i,
        {
            if self.staged[i].block.hash == *hash {
                return Some(i);
            }
            i = i + 1;
        }
        None
    }

    /// Remove and hand back the entry carrying `hash`, if any.
    pub fn take(&mut self, hash: &String) -> (r: Option<StagedBlockStatus>)
        requires
            old(self).wf(),
        ensures
            final (self).wf(),
            r == stage_entry(old(self).staged@, hash@),
            r is None ==> *final (self) == *old(self),
            r is Some ==> !stage_has(final (self).staged@, hash@) && forall|h2: Seq<char>|
                h2 != hash@ ==> stage_entry(final (self).staged@, h2) == stage_entry(
                    old(self).staged@,
                    h2,
                ),
    {
        match self.position_of(hash) {
            Some(i) => {
                proof {
                    lemma_stage_entry_exists(self.staged@, hash@);
                    assert forall|h2: Seq<char>|
                        stage_entry(self.staged@.remove(i as int), h2) == (if h2 == hash@ {
                            None::<StagedBlockStatus>
                        } else {
                            stage_entry(self.staged@, h2)
                        }) by {
                        lemma_stage_remove_at(self.staged@, i as int, h2);
                    }
                    lemma_stage_remove_at(self.staged@, i as int, hash@);
                    lemma_stage_first_match(self.staged@, i as int);
                }
                let e = self.staged.remove(i);
                Some(e)
            },
            None => None,
        }
    }

    /// Stage an entry whose hash is not yet present.
    pub fn restage(&mut self, e: StagedBlockStatus)
        requires
            old(self).wf(),
            !stage_has(old(self).staged@, e.block.hash@),
        ensures
            final (self).wf(),
            stage_entry(final (self).staged@, e.block.hash@) == Some(e),
            forall|h2: Seq<char>|
                h2 != e.block.hash@ ==> stage_entry(final (self).staged@, h2) == stage_entry(
                    old(self).staged@,
                    h2,
                ),
    {
        proof {
            assert forall|h2: Seq<char>|
                stage_entry(self.staged@.push(e), h2) == (if h2 == e.block.hash@ {
                    Some(e)
                } else {
                    stage_entry(self.staged@, h2)
                }) by {
                lemma_stage_push(self.staged@, e, h2);
            }
            lemma_stage_push(self.staged@, e, e.block.hash@);
        }
        self.staged.push(e);
    }

    /// Stage a freshly mined or received block with its one self-vote. An
    /// entry already carrying the block's hash is replaced.
    pub fn insert(&mut self, block: Block)
        requires
            old(self).wf(),
        ensures
            final (self).wf(),
            stage_entry(final (self).staged@, block.hash@) == Some(
                StagedBlockStatus { block, votes: 1 },
            ),
            forall|h2: Seq<char>|
                h2 != block.hash@ ==> stage_entry(final (self).staged@, h2) == stage_entry(
                    old(self).staged@,
                    h2,
                ),
    {
        let _ = self.take(&block.hash);
        let e = StagedBlockStatus { block, votes: 1 };
        self.restage(e);
    }
}

/// The entry a lookup finds stands at the first matching position.
proof fn lemma_stage_first_match(s: Seq<StagedBlockStatus>, i: int)
    requires
        0 <= i < s.len(),
        forall|j: int| 0 <= j < i ==> s[j].block.hash@ != s[i].block.hash@,
    ensures
        stage_entry(s, s[i].block.hash@) == Some(s[i]),
    decreases i,
{
    if i == 0 {
    } else {
        assert forall|j: int| 0 <= j < i - 1 implies (#[trigger] s.drop_first()[j]).block.hash@
            != s.drop_first()[i - 1].block.hash@ by {
            assert(s.drop_first()[j] == s[j + 1]);
            assert(s.drop_first()[i - 1] == s[i]);
        }
        assert(s.drop_first()[i - 1] == s[i]);
        lemma_stage_first_match(s.drop_first(), i - 1);
    }
}

} // verus!
