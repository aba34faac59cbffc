//! A model of the file set that one appender owns on disk.
//!
//! Slot `i` of a [`DiskModel`] stands for the file named `filename_for(i)`
//! of the owning appender: slot 0 is the live file, slot `i` the historical
//! file `base.i`. A slot holds `Some` contents when the file exists and
//! `None` when it does not. A slot may be marked as denying renames, which
//! stands for an environmental failure (permissions, for instance) of the
//! real filesystem; every other modelled operation is infallible, as the
//! corresponding syscalls are assumed to be outside such an injected fault.

use vstd::prelude::*;

verus! {

/// Why a modelled file operation failed.
#[derive(Clone, Copy, Debug, PartialEq, Eq, Structural)]
pub enum DiskError {
    /// The source of a rename, or the target of a removal, does not exist.
    NotFound,
    /// The source slot of a rename is marked as denying renames.
    PermissionDenied,
}

/// The modelled file set: `slots[i]` is the contents of the file `i` places
/// back in the rotation chain, or `None` when that file does not exist.
pub struct DiskModel {
    /// The contents of each modelled file.
    pub slots: Vec<Option<Vec<u8>>>,
    /// Which slots fail when used as the source of a rename.
    pub deny_rename: Vec<bool>,
}

/// One attempted rename of slot `from` onto slot `to`: a denied or absent
/// source leaves every slot as it was; otherwise the contents move and the
/// source ceases to exist.
pub open spec fn spec_rename(
    s: Seq<Option<Seq<u8>>>,
    deny: Seq<bool>,
    from: int,
    to: int,
) -> Seq<Option<Seq<u8>>> {
    if deny[from] || s[from] is None {
        s
    } else {
        s.update(to, s[from]).update(from, None)
    }
}

/// The rename cascade of a rotation: slot `hi - 1` is renamed onto slot
/// `hi` first, then `hi - 2` onto `hi - 1`, and so on down to slot `lo`
/// onto slot `lo + 1`. Every step is attempted whatever became of the
/// earlier ones.
pub open spec fn spec_rename_cascade(
    s: Seq<Option<Seq<u8>>>,
    deny: Seq<bool>,
    hi: int,
    lo: int,
) -> Seq<Option<Seq<u8>>>
    decreases hi - lo,
{
    if hi <= lo {
        s
    } else {
        spec_rename_cascade(spec_rename(s, deny, hi - 1, hi), deny, hi - 1, lo)
    }
}

/// A full rotation pass over a chain of length `m`: the oldest retained
/// file (slot `m`) is deleted, then every younger file moves one slot up.
pub open spec fn spec_rotate_files(
    s: Seq<Option<Seq<u8>>>,
    deny: Seq<bool>,
    m: int,
) -> Seq<Option<Seq<u8>>> {
    spec_rename_cascade(s.update(m, None::<Seq<u8>>), deny, m, 0)
}

/// Opening the live file in append mode creates it empty when it is absent
/// and touches nothing when it exists.
pub open spec fn spec_open_live(s: Seq<Option<Seq<u8>>>) -> Seq<Option<Seq<u8>>> {
    if s[0] is None {
        s.update(0, Some(Seq::<u8>::empty()))
    } else {
        s
    }
}

/// Unrolls the rename cascade at its lowest step: running the steps
/// `hi - 1` down to `lo` is running the steps down to `lo + 1`, then
/// attempting the rename of slot `lo` last.
pub proof fn lemma_cascade_unfold_last(s: Seq<Option<Seq<u8>>>, deny: Seq<bool>, hi: int, lo: int)
    requires
        lo < hi,
    ensures
        spec_rename_cascade(s, deny, hi, lo) == spec_rename(
            spec_rename_cascade(s, deny, hi, lo + 1),
            deny,
            lo,
            lo + 1,
        ),
    decreases hi - lo,
{
    let s1 = spec_rename(s, deny, hi - 1, hi);
    assert(spec_rename_cascade(s, deny, hi, lo) == spec_rename_cascade(s1, deny, hi - 1, lo));
    if lo + 1 == hi {
        assert(spec_rename_cascade(s1, deny, lo, lo) == s1);
        assert(spec_rename_cascade(s, deny, hi, lo + 1) == s);
    } else {
        lemma_cascade_unfold_last(s1, deny, hi - 1, lo);
        assert(spec_rename_cascade(s, deny, hi, lo + 1) == spec_rename_cascade(
            s1,
            deny,
            hi - 1,
            lo + 1,
        ));
    }
}

/// Frame of the rename cascade: it preserves the number of slots and leaves
/// every slot outside `lo ..= hi` untouched.
pub proof fn lemma_cascade_frame(s: Seq<Option<Seq<u8>>>, deny: Seq<bool>, hi: int, lo: int)
    requires
        0 <= lo <= hi < s.len(),
    ensures
        spec_rename_cascade(s, deny, hi, lo).len() == s.len(),
        forall|j: int|
            0 <= j < s.len() && (j < lo || j > hi) ==> spec_rename_cascade(s, deny, hi, lo)[j]
                == s[j],
    decreases hi - lo,
{
    if lo < hi {
        let s1 = spec_rename(s, deny, hi - 1, hi);
        assert(s1.len() == s.len());
        lemma_cascade_frame(s1, deny, hi - 1, lo);
        assert(spec_rename_cascade(s, deny, hi, lo) == spec_rename_cascade(s1, deny, hi - 1, lo));
        assert forall|j: int|
            0 <= j < s.len() && (j < lo || j > hi) implies spec_rename_cascade(s, deny, hi, lo)[j]
            == s[j] by {
            assert(s1[j] == s[j]);
            assert(spec_rename_cascade(s1, deny, hi - 1, lo)[j] == s1[j]);
        }
    }
}

/// With no step denied, the rename cascade is an exact shift: slot `lo`
/// ceases to exist, every slot strictly between `lo` and `hi` takes the
/// old contents of its younger neighbour, and slot `hi` takes the old
/// contents of slot `hi - 1` when that existed.
pub proof fn lemma_cascade_clean_shift(s: Seq<Option<Seq<u8>>>, deny: Seq<bool>, hi: int, lo: int)
    requires
        0 <= lo < hi < s.len(),
        forall|i: int| lo <= i < hi ==> !deny[i],
    ensures
        spec_rename_cascade(s, deny, hi, lo).len() == s.len(),
        spec_rename_cascade(s, deny, hi, lo)[lo] is None,
        forall|j: int| lo < j < hi ==> spec_rename_cascade(s, deny, hi, lo)[j] == s[j - 1],
        spec_rename_cascade(s, deny, hi, lo)[hi] == (if s[hi - 1] is Some {
            s[hi - 1]
        } else {
            s[hi]
        }),
        forall|j: int|
            0 <= j < s.len() && (j < lo || j > hi) ==> spec_rename_cascade(s, deny, hi, lo)[j]
                == s[j],
    decreases hi - lo,
{
    let s1 = spec_rename(s, deny, hi - 1, hi);
    let r = spec_rename_cascade(s, deny, hi, lo);
    assert(r == spec_rename_cascade(s1, deny, hi - 1, lo));
    if lo + 1 == hi {
        assert(spec_rename_cascade(s1, deny, lo, lo) == s1);
        assert(r == s1);
    } else {
        lemma_cascade_clean_shift(s1, deny, hi - 1, lo);
        assert forall|j: int| lo < j < hi implies r[j] == s[j - 1] by {
            if j < hi - 1 {
                assert(r[j] == s1[j - 1]);
                assert(s1[j - 1] == s[j - 1]);
            } else {
                assert(j == hi - 1);
                assert(r[j] == (if s1[j - 1] is Some {
                    s1[j - 1]
                } else {
                    s1[j]
                }));
                assert(s1[hi - 2] == s[hi - 2]);
                if s[hi - 2] is None {
                    assert(s1[hi - 1] is None);
                }
            }
        }
        assert(r[hi] == s1[hi]);
        assert forall|j: int|
            0 <= j < s.len() && (j < lo || j > hi) implies r[j] == s[j] by {
            assert(r[j] == s1[j]);
            assert(s1[j] == s[j]);
        }
    }
}

/// After a rotation pass the live slot either ceased to exist (its rename
/// moved its contents up the chain) or kept its old contents (its rename
/// was denied); with its rename not denied it always ceases to exist.
pub proof fn lemma_rotate_live_slot(s: Seq<Option<Seq<u8>>>, deny: Seq<bool>, m: int)
    requires
        0 < m < s.len(),
    ensures
        spec_rotate_files(s, deny, m).len() == s.len(),
        spec_rotate_files(s, deny, m)[0] is None || spec_rotate_files(s, deny, m)[0] == s[0],
        !deny[0] ==> spec_rotate_files(s, deny, m)[0] is None,
{
    let s0 = s.update(m, None::<Seq<u8>>);
    lemma_cascade_frame(s0, deny, m, 1);
    lemma_cascade_unfold_last(s0, deny, m, 0);
    assert(spec_rename_cascade(s0, deny, m, 1)[0] == s0[0]);
    if s[0] is None {
        assert(spec_rotate_files(s, deny, m)[0] is None);
    }
}

/// The disk shape that clean rotation maintains: the live file exists, the
/// historical files are exactly the slots `1 ..= h`, and no file exists
/// beyond them.
pub open spec fn spec_chain_shape(s: Seq<Option<Seq<u8>>>, h: int) -> bool {
    &&& s[0] is Some
    &&& forall|j: int| 1 <= j <= h ==> s[j] is Some
    &&& forall|j: int| h < j < s.len() ==> s[j] is None
}

/// One rollover of the modelled disk: rotate the chain, then reopen the
/// live file.
pub open spec fn spec_rollover_disk(
    s: Seq<Option<Seq<u8>>>,
    deny: Seq<bool>,
    m: int,
) -> Seq<Option<Seq<u8>>> {
    spec_open_live(spec_rotate_files(s, deny, m))
}

/// `k` rollovers of the modelled disk, one after the other.
pub open spec fn spec_iter_rollover(
    s: Seq<Option<Seq<u8>>>,
    deny: Seq<bool>,
    m: int,
    k: nat,
) -> Seq<Option<Seq<u8>>>
    decreases k,
{
    if k == 0 {
        s
    } else {
        spec_iter_rollover(spec_rollover_disk(s, deny, m), deny, m, (k - 1) as nat)
    }
}

/// One clean rollover grows the contiguous chain of historical files by
/// one, up to the chain length `m`, and keeps a live file present.
pub proof fn lemma_rollover_chain_shape(s: Seq<Option<Seq<u8>>>, deny: Seq<bool>, m: int, h: int)
    requires
        0 < m < s.len(),
        0 <= h <= m,
        spec_chain_shape(s, h),
        forall|i: int| 0 <= i < m ==> !deny[i],
    ensures
        spec_rollover_disk(s, deny, m).len() == s.len(),
        spec_chain_shape(
            spec_rollover_disk(s, deny, m),
            if h + 1 <= m {
                h + 1
            } else {
                m
            },
        ),
{
    let s0 = s.update(m, None::<Seq<u8>>);
    lemma_cascade_clean_shift(s0, deny, m, 0);
    let rot = spec_rotate_files(s, deny, m);
    let h2 = if h + 1 <= m {
        h + 1
    } else {
        m
    };
    assert forall|j: int| 1 <= j <= h2 implies rot[j] is Some by {
        if j < m {
            assert(rot[j] == s0[j - 1]);
        }
    }
    assert forall|j: int| h2 < j < rot.len() implies rot[j] is None by {
        if j < m {
            assert(rot[j] == s0[j - 1]);
            assert(s0[j - 1] == s[j - 1]);
            assert(h < j - 1 < s.len());
            assert(s[j - 1] is None);
        } else if j == m {
            assert(rot[m] == (if s0[m - 1] is Some {
                s0[m - 1]
            } else {
                s0[m]
            }));
            assert(h2 < m);
            assert(m - 1 > h);
            assert(s0[m - 1] == s[m - 1]);
            assert(s[m - 1] is None);
            assert(s0[m] is None);
        } else {
            assert(rot[j] == s0[j]);
            assert(s0[j] == s[j]);
            assert(h < j < s.len());
            assert(s[j] is None);
        }
    }
}

/// Law: starting from a live file and no historical files, after `k` clean
/// rotations with chain length `m` exactly `min(k, m)` historical files
/// exist, in the contiguous slots `1 ..= min(k, m)`, and no slot beyond
/// `m` — in particular slot `m + 1` — ever holds a file.
pub proof fn lemma_rotation_chain_length(s: Seq<Option<Seq<u8>>>, deny: Seq<bool>, m: int, k: nat)
    requires
        0 < m < s.len(),
        spec_chain_shape(s, 0),
        forall|i: int| 0 <= i < m ==> !deny[i],
    ensures
        spec_iter_rollover(s, deny, m, k).len() == s.len(),
        spec_chain_shape(
            spec_iter_rollover(s, deny, m, k),
            if k <= m {
                k as int
            } else {
                m
            },
        ),
{
    lemma_rotation_chain_length_from(s, deny, m, 0, k);
}

/// The induction behind [`lemma_rotation_chain_length`], generalized over
/// the length `h` of the chain already present.
pub proof fn lemma_rotation_chain_length_from(
    s: Seq<Option<Seq<u8>>>,
    deny: Seq<bool>,
    m: int,
    h: int,
    k: nat,
)
    requires
        0 < m < s.len(),
        0 <= h <= m,
        spec_chain_shape(s, h),
        forall|i: int| 0 <= i < m ==> !deny[i],
    ensures
        spec_iter_rollover(s, deny, m, k).len() == s.len(),
        spec_chain_shape(
            spec_iter_rollover(s, deny, m, k),
            if h + k <= m {
                h + k
            } else {
                m
            },
        ),
    decreases k,
{
    if k > 0 {
        lemma_rollover_chain_shape(s, deny, m, h);
        let h2 = if h + 1 <= m {
            h + 1
        } else {
            m
        };
        lemma_rotation_chain_length_from(
            spec_rollover_disk(s, deny, m),
            deny,
            m,
            h2,
            (k - 1) as nat,
        );
    }
}

impl DiskModel {
    /// The contents of every modelled file, as mathematical sequences.
    pub open spec fn spec_slots(self) -> Seq<Option<Seq<u8>>> {
        Seq::new(
            self.slots@.len(),
            |i: int|
                match self.slots@[i] {
                    Some(v) => Some(v@),
                    None => None::<Seq<u8>>,
                },
        )
    }

    /// Which slots deny renames.
    pub open spec fn spec_deny(self) -> Seq<bool> {
        self.deny_rename@
    }

    /// Both bookkeeping vectors describe the same slots.
    pub open spec fn wf(self) -> bool {
        self.deny_rename@.len() == self.slots@.len()
    }

    /// An empty file set with `n_slots` modelled names, none of which
    /// exists yet and none of which denies renames.
    pub fn new(n_slots: usize) -> (d: DiskModel)
        ensures
            d.wf(),
            d.spec_slots().len() == n_slots,
            forall|j: int| 0 <= j < n_slots ==> d.spec_slots()[j] is None,
            forall|j: int| 0 <= j < n_slots ==> !d.spec_deny()[j],
    {
        let mut slots: Vec<Option<Vec<u8>>> = Vec::new();
        let mut deny_rename: Vec<bool> = Vec::new();
        let mut i: usize = 0;
        while i < n_slots
            invariant
                i <= n_slots,
                slots@.len() == i,
                deny_rename@.len() == i,
                forall|j: int| 0 <= j < i ==> slots@[j] is None,
                forall|j: int| 0 <= j < i ==> !deny_rename@[j],
            decreases n_slots - i,
        {
            slots.push(None);
            deny_rename.push(false);
            i = i + 1;
        }
        DiskModel { slots, deny_rename }
    }

    /// How many modelled names there are.
    pub fn slot_count(&self) -> (n: usize)
        ensures
            n == self.spec_slots().len(),
    {
        self.slots.len()
    }

    /// The contents of slot `i`, for inspection.
    pub fn slot(&self, i: usize) -> (s: &Option<Vec<u8>>)
        requires
            i < self.spec_slots().len(),
        ensures
            *s == self.slots@[i as int],
            s is Some <==> self.spec_slots()[i as int] is Some,
            s matches Some(v) ==> self.spec_slots()[i as int] == Some(v@),
    {
        &self.slots[i]
    }

    /// Marks slot `i` as denying renames, or clears the mark.
    pub fn set_deny_rename(&mut self, i: usize, deny: bool)
        requires
            old(self).wf(),
            i < old(self).spec_slots().len(),
        ensures
            final(self).wf(),
            final(self).spec_slots() == old(self).spec_slots(),
            final(self).spec_deny() == old(self).spec_deny().update(i as int, deny),
    {
        let cell = &mut self.deny_rename[i];
        *cell = deny;
        proof {
            assert(final(self).spec_slots() =~= old(self).spec_slots());
        }
    }

    /// Deletes the file of slot `i`; tells the caller when there was none.
    pub fn remove_file(&mut self, i: usize) -> (r: Result<(), DiskError>)
        requires
            old(self).wf(),
            i < old(self).spec_slots().len(),
        ensures
            final(self).wf(),
            final(self).spec_deny() == old(self).spec_deny(),
            final(self).spec_slots() == old(self).spec_slots().update(i as int, None::<Seq<u8>>),
            r == (if old(self).spec_slots()[i as int] is Some {
                Ok::<(), DiskError>(())
            } else {
                Err::<(), DiskError>(DiskError::NotFound)
            }),
    {
        let cell = &mut self.slots[i];
        let prev = cell.take();
        proof {
            assert(final(self).spec_slots() =~= old(self).spec_slots().update(
                i as int,
                None::<Seq<u8>>,
            ));
        }
        match prev {
            Some(_) => Ok(()),
            None => Err(DiskError::NotFound),
        }
    }

    /// Renames slot `from` onto slot `to`, replacing whatever was there: the
    /// modelled counterpart of one rename step of a rotation. A denied
    /// source reports a permission failure and an absent source reports
    /// that nothing was found; either way no slot changes.
    pub fn rename(&mut self, from: usize, to: usize) -> (r: Result<(), DiskError>)
        requires
            old(self).wf(),
            from < old(self).spec_slots().len(),
            to < old(self).spec_slots().len(),
            from != to,
        ensures
            final(self).wf(),
            final(self).spec_deny() == old(self).spec_deny(),
            final(self).spec_slots() == spec_rename(
                old(self).spec_slots(),
                old(self).spec_deny(),
                from as int,
                to as int,
            ),
            r == (if old(self).spec_deny()[from as int] {
                Err::<(), DiskError>(DiskError::PermissionDenied)
            } else if old(self).spec_slots()[from as int] is None {
                Err::<(), DiskError>(DiskError::NotFound)
            } else {
                Ok::<(), DiskError>(())
            }),
    {
        if self.deny_rename[from] {
            return Err(DiskError::PermissionDenied);
        }
        let cell = &mut self.slots[from];
        let moved = cell.take();
        match moved {
            None => {
                proof {
                    assert(final(self).spec_slots() =~= old(self).spec_slots());
                }
                Err(DiskError::NotFound)
            },
            Some(v) => {
                let dst = &mut self.slots[to];
                *dst = Some(v);
                proof {
                    assert(final(self).spec_slots() =~= old(self).spec_slots().update(
                        to as int,
                        old(self).spec_slots()[from as int],
                    ).update(from as int, None::<Seq<u8>>));
                }
                Ok(())
            },
        }
    }

    /// Opens the live file in append mode: creates it empty when absent,
    /// touches nothing when present.
    pub fn create_live_if_missing(&mut self)
        requires
            old(self).wf(),
            old(self).spec_slots().len() > 0,
        ensures
            final(self).wf(),
            final(self).spec_deny() == old(self).spec_deny(),
            final(self).spec_slots() == spec_open_live(old(self).spec_slots()),
    {
        let cell = &mut self.slots[0];
        if cell.is_none() {
            *cell = Some(Vec::new());
            proof {
                assert(final(self).spec_slots() =~= old(self).spec_slots().update(
                    0,
                    Some(Seq::<u8>::empty()),
                ));
            }
        } else {
            proof {
                assert(final(self).spec_slots() =~= old(self).spec_slots());
            }
        }
    }

    /// The size in bytes of the live file, which must exist.
    pub fn live_len(&self) -> (n: usize)
        requires
            self.spec_slots().len() > 0,
            self.spec_slots()[0] is Some,
        ensures
            n == self.spec_slots()[0]->0.len(),
    {
        match &self.slots[0] {
            Some(v) => v.len(),
            None => {
                proof {
                    assert(false);
                }
                0
            },
        }
    }

    /// Appends `data` to the live file, which must exist, byte for byte and
    /// in order.
    pub fn append_live(&mut self, data: &Vec<u8>)
        requires
            old(self).wf(),
            old(self).spec_slots().len() > 0,
            old(self).spec_slots()[0] is Some,
            old(self).spec_slots()[0]->0.len() + data@.len() <= usize::MAX,
        ensures
            final(self).wf(),
            final(self).spec_deny() == old(self).spec_deny(),
            final(self).spec_slots() == old(self).spec_slots().update(
                0,
                Some(old(self).spec_slots()[0]->0 + data@),
            ),
    {
        let cell = &mut self.slots[0];
        match cell {
            Some(v) => {
                let ghost v0 = v@;
                let mut k: usize = 0;
                while k < data.len()
                    invariant
                        k <= data@.len(),
                        v0.len() + data@.len() <= usize::MAX,
                        v@ == v0 + data@.subrange(0, k as int),
                    decreases data@.len() - k,
                {
                    v.push(data[k]);
                    proof {
                        assert(v@ =~= v0 + data@.subrange(0, k + 1 as int));
                    }
                    k = k + 1;
                }
                proof {
                    assert(v@ =~= v0 + data@);
                }
            },
            None => {
                proof {
                    assert(false);
                }
            },
        }
        proof {
            assert(final(self).spec_slots() =~= old(self).spec_slots().update(
                0,
                Some(old(self).spec_slots()[0]->0 + data@),
            ));
        }
    }
}

} // verus!
