//! The rotating appender: owns the rolling condition, the base filename, the
//! retention limit, and the byte count of the live file, and drives the
//! rotation state machine over the modelled file set.

use vstd::prelude::*;

use crate::RollingCondition;
use crate::disk::DiskError;
use crate::disk::DiskModel;
use crate::disk::lemma_cascade_unfold_last;
use crate::disk::lemma_rotate_live_slot;
use crate::disk::spec_open_live;
use crate::disk::spec_rename_cascade;
use crate::disk::spec_rotate_files;
use crate::timestamp::Timestamp;
use crate::timestamp::now_local;

verus! {

/// The decimal digit character of `d`, for `0 <= d <= 9`.
pub open spec fn spec_digit_char(d: int) -> char {
    if d == 0 {
        '0'
    } else if d == 1 {
        '1'
    } else if d == 2 {
        '2'
    } else if d == 3 {
        '3'
    } else if d == 4 {
        '4'
    } else if d == 5 {
        '5'
    } else if d == 6 {
        '6'
    } else if d == 7 {
        '7'
    } else if d == 8 {
        '8'
    } else {
        '9'
    }
}

/// The decimal digits of `n`, most significant first, with no leading zero
/// except for `n == 0` itself.
pub open spec fn spec_decimal_digits(n: int) -> Seq<char>
    recommends
        n >= 0,
    decreases n,
{
    if n < 10 {
        seq![spec_digit_char(n)]
    } else {
        spec_decimal_digits(n / 10).push(spec_digit_char(n % 10))
    }
}

/// The single-character string of the decimal digit `d`.
fn digit_str(d: usize) -> (r: &'static str)
    requires
        d < 10,
    ensures
        r@ =~= seq![spec_digit_char(d as int)],
{
    proof {
        reveal_strlit("0");
        reveal_strlit("1");
        reveal_strlit("2");
        reveal_strlit("3");
        reveal_strlit("4");
        reveal_strlit("5");
        reveal_strlit("6");
        reveal_strlit("7");
        reveal_strlit("8");
        reveal_strlit("9");
    }
    if d == 0 {
        "0"
    } else if d == 1 {
        "1"
    } else if d == 2 {
        "2"
    } else if d == 3 {
        "3"
    } else if d == 4 {
        "4"
    } else if d == 5 {
        "5"
    } else if d == 6 {
        "6"
    } else if d == 7 {
        "7"
    } else if d == 8 {
        "8"
    } else {
        "9"
    }
}

/// Renders `n` in decimal.
pub fn decimal_string(n: usize) -> (r: String)
    ensures
        r@ =~= spec_decimal_digits(n as int),
    decreases n,
{
    if n < 10 {
        String::from_str(digit_str(n))
    } else {
        assert(n / 10 < n) by (nonlinear_arith)
            requires
                n >= 10,
        ;
        let mut s = decimal_string(n / 10);
        s.append(digit_str(n % 10));
        proof {
            assert(s@ =~= spec_decimal_digits(n as int));
        }
        s
    }
}

/// The name of the file standing `n` slots back in the rotation chain of
/// `base`: `base` itself for `n == 0`, else `base.n`.
pub open spec fn spec_filename_for(base: Seq<char>, n: int) -> Seq<char> {
    if n > 0 {
        base + seq!['.'] + spec_decimal_digits(n)
    } else {
        base
    }
}

/// The name of the file standing `n` slots back in the rotation chain of
/// `base`. The unverified shell takes its real filenames from here, so the
/// names it touches are the ones the contracts speak of.
pub fn filename_for_base(base: &str, n: usize) -> (r: String)
    ensures
        r@ == spec_filename_for(base@, n as int),
{
    if n > 0 {
        proof {
            reveal_strlit(".");
        }
        let mut s = base.to_owned();
        s.append(".");
        let digits = decimal_string(n);
        s.append(digits.as_str());
        proof {
            assert("."@ =~= seq!['.']);
            assert(s@ =~= spec_filename_for(base@, n as int));
        }
        s
    } else {
        base.to_owned()
    }
}

/// The enforced length of the rotation chain for a retention count: at
/// least one historical slot even when no retention was asked for, so that
/// "delete the oldest" stays well defined.
pub open spec fn spec_chain_length(max_filecount: usize) -> int {
    if max_filecount > 0 {
        max_filecount as int
    } else {
        1
    }
}

/// The chain length as executable code computes it.
pub fn chain_length(max_filecount: usize) -> (m: usize)
    ensures
        m as int == spec_chain_length(max_filecount),
        m >= 1,
{
    if max_filecount > 0 {
        max_filecount
    } else {
        1
    }
}

/// The rename steps of one rotation pass, as slot index pairs in the order
/// they must run: slot `m - 1` onto slot `m` first, down to slot 0 onto
/// slot 1, where `m` is the chain length. The unverified shell performs
/// exactly these steps (after deleting slot `m`), so its cascade is the
/// one the contracts describe.
pub fn rotation_plan(max_filecount: usize) -> (plan: Vec<(usize, usize)>)
    ensures
        ({
            let m = spec_chain_length(max_filecount);
            &&& plan@.len() == m
            &&& forall|j: int|
                0 <= j < m ==> plan@[j].0 == m - 1 - j && plan@[j].1 == m - j
        }),
{
    let m = chain_length(max_filecount);
    let mut plan: Vec<(usize, usize)> = Vec::new();
    let mut i: usize = m;
    while i > 0
        invariant
            i <= m,
            plan@.len() == m - i,
            forall|j: int|
                0 <= j < plan@.len() ==> plan@[j].0 == m - 1 - j && plan@[j].1 == m - j,
        decreases i,
    {
        i = i - 1;
        plan.push((i, i + 1));
    }
    plan
}

/// Writes data to a file, and "rolls over" to preserve older data in
/// a separate set of files. Old files have a Debian-style naming scheme
/// where we have base_filename, base_filename.1, ..., base_filename.N
/// where N is the maximum number of rollover files to keep.
///
/// The on-disk file set is carried as an explicit [`DiskModel`] value whose
/// slot `i` stands for the file named `filename_for(i)`; an unverified shell
/// performs the same steps against the real filesystem.
pub struct RollingFileAppender<RC> where RC: RollingCondition {
    /// Decides, before each write, whether to rotate first.
    pub condition: RC,
    /// The name of the live file; historical files append `.1`, `.2`, ...
    pub filename: String,
    /// How many historical files to retain; treated as 1 when 0.
    pub max_filecount: usize,
    /// Bytes in the live file: its size as observed when it was opened plus
    /// the bytes written since.
    pub current_filesize: u64,
    /// Whether a writer to the live file is currently held. It is false only
    /// before the first open and transiently during rotation.
    pub writer_open: bool,
}

impl<RC> RollingFileAppender<RC> where RC: RollingCondition {
    /// The enforced length of this appender's rotation chain.
    pub open spec fn spec_chain_len(self) -> int {
        spec_chain_length(self.max_filecount)
    }

    /// The chain length as executable code computes it.
    pub fn chain_len(&self) -> (m: usize)
        ensures
            m as int == self.spec_chain_len(),
            m >= 1,
    {
        chain_length(self.max_filecount)
    }

    /// Determines the final filename, where n==0 indicates the current file
    pub fn filename_for(&self, n: usize) -> (r: String)
        ensures
            r@ == spec_filename_for(self.filename@, n as int),
    {
        filename_for_base(self.filename.as_str(), n)
    }

    /// The appender's bookkeeping agrees with the disk it owns: the chain
    /// fits among the modelled slots, and while a writer is open the live
    /// file exists and `current_filesize` is exactly its byte length.
    pub open spec fn inv(self, disk: DiskModel) -> bool {
        &&& disk.wf()
        &&& self.spec_chain_len() < disk.spec_slots().len()
        &&& (self.writer_open ==> disk.spec_slots()[0] is Some && self.current_filesize
            == disk.spec_slots()[0]->0.len())
    }

    /// Creates a new rolling file appender with the given condition. The
    /// live file is opened (and created when absent) at once, and its
    /// existing size is recorded, so construction leaves the appender in
    /// its open state.
    pub fn new(
        filename: String,
        condition: RC,
        max_filecount: usize,
        disk: &mut DiskModel,
    ) -> (a: RollingFileAppender<RC>)
        requires
            old(disk).wf(),
            (if max_filecount > 0 {
                max_filecount as int
            } else {
                1
            }) < old(disk).spec_slots().len(),
        ensures
            a.inv(*final(disk)),
            a.condition == condition,
            a.filename == filename,
            a.max_filecount == max_filecount,
            a.writer_open,
            final(disk).spec_deny() == old(disk).spec_deny(),
            final(disk).spec_slots() == spec_open_live(old(disk).spec_slots()),
            a.current_filesize == final(disk).spec_slots()[0]->0.len(),
    {
        let mut appender = RollingFileAppender {
            condition,
            filename,
            max_filecount,
            current_filesize: 0,
            writer_open: false,
        };
        appender.open_writer_if_needed(disk);
        appender
    }

    /// Opens a writer for the current file: creates the live file when it
    /// is absent and records its size; does nothing when a writer is
    /// already open.
    pub fn open_writer_if_needed(&mut self, disk: &mut DiskModel)
        requires
            old(self).inv(*old(disk)),
        ensures
            final(self).inv(*final(disk)),
            final(self).condition == old(self).condition,
            final(self).filename == old(self).filename,
            final(self).max_filecount == old(self).max_filecount,
            final(self).writer_open,
            old(self).writer_open ==> final(self).current_filesize == old(self).current_filesize,
            final(disk).spec_deny() == old(disk).spec_deny(),
            final(disk).spec_slots() == (if old(self).writer_open {
                old(disk).spec_slots()
            } else {
                spec_open_live(old(disk).spec_slots())
            }),
            final(self).current_filesize == final(disk).spec_slots()[0]->0.len(),
    {
        if !self.writer_open {
            disk.create_live_if_missing();
            self.writer_open = true;
            let n = disk.live_len();
            self.current_filesize = n as u64;
        }
    }

    /// Rotates old files to make room for a new one. This may result in
    /// the deletion of the oldest file. Every rename in the cascade is
    /// attempted even when an earlier one failed, to maximize forward
    /// progress, and the first failure is what gets reported.
    pub fn rotate_files(&self, disk: &mut DiskModel) -> (r: Result<(), DiskError>)
        requires
            old(disk).wf(),
            self.spec_chain_len() < old(disk).spec_slots().len(),
        ensures
            final(disk).wf(),
            final(disk).spec_deny() == old(disk).spec_deny(),
            final(disk).spec_slots() == spec_rotate_files(
                old(disk).spec_slots(),
                old(disk).spec_deny(),
                self.spec_chain_len(),
            ),
            r is Ok <==> (forall|i: int|
                0 <= i < self.spec_chain_len() ==> !old(disk).spec_deny()[i]),
            r is Err ==> r == Err::<(), DiskError>(DiskError::PermissionDenied),
    {
        let ghost s_init = old(disk).spec_slots();
        let ghost deny0 = old(disk).spec_deny();
        let m = self.chain_len();
        // ignore any failure removing the oldest file (may not exist)
        let _ = disk.remove_file(m);
        let ghost s0 = s_init.update(m as int, None::<Seq<u8>>);
        let mut r: Result<(), DiskError> = Ok(());
        let mut i: usize = m;
        while i > 0
            invariant
                i <= m,
                m as int == self.spec_chain_len(),
                (m as int) < s_init.len(),
                disk.wf(),
                disk.spec_deny() == deny0,
                disk.spec_slots().len() == s_init.len(),
                disk.spec_slots() == spec_rename_cascade(s0, deny0, m as int, i as int),
                r is Ok <==> (forall|j: int| i <= j < m ==> !deny0[j]),
                r is Err ==> r == Err::<(), DiskError>(DiskError::PermissionDenied),
            decreases i,
        {
            i = i - 1;
            let step = disk.rename(i, i + 1);
            proof {
                lemma_cascade_unfold_last(s0, deny0, m as int, i as int);
            }
            if let Err(e) = step {
                match e {
                    DiskError::NotFound => {
                        // the source of this rename does not exist: nothing
                        // to move, not a failure of the rotation
                    },
                    DiskError::PermissionDenied => {
                        // capture the error, but continue the loop, to
                        // maximize the ability to rename everything
                        if r.is_ok() {
                            r = Err(e);
                        }
                    },
                }
            }
        }
        r
    }

    /// Forces a rollover to happen immediately: the live file is closed,
    /// the rotation cascade runs, and a fresh live file is opened at the
    /// base name. A rotation failure does not stop the reopening: every
    /// rename is attempted, the live file is reopened either way, and only
    /// then is the first rename failure reported. When the live file's own
    /// rename was the denied one, reopening finds its old bytes still
    /// there, and the recorded size says so. The model is unbuffered, so
    /// the flush that precedes a real rotation has nothing to do here.
    pub fn rollover(&mut self, disk: &mut DiskModel) -> (r: Result<(), DiskError>)
        requires
            old(self).inv(*old(disk)),
        ensures
            final(self).inv(*final(disk)),
            final(self).condition == old(self).condition,
            final(self).filename == old(self).filename,
            final(self).max_filecount == old(self).max_filecount,
            final(self).writer_open,
            final(disk).spec_deny() == old(disk).spec_deny(),
            final(disk).spec_slots() == spec_open_live(
                spec_rotate_files(
                    old(disk).spec_slots(),
                    old(disk).spec_deny(),
                    old(self).spec_chain_len(),
                ),
            ),
            final(self).current_filesize == final(disk).spec_slots()[0]->0.len(),
            r is Ok <==> (forall|i: int|
                0 <= i < old(self).spec_chain_len() ==> !old(disk).spec_deny()[i]),
            r is Err ==> r == Err::<(), DiskError>(DiskError::PermissionDenied),
            r is Ok ==> final(self).current_filesize == 0 && final(disk).spec_slots()[0] == Some(
                Seq::<u8>::empty(),
            ),
    {
        // We must close the current file before rotating files
        self.writer_open = false;
        self.current_filesize = 0;
        let rot = self.rotate_files(disk);
        proof {
            lemma_rotate_live_slot(
                old(disk).spec_slots(),
                old(disk).spec_deny(),
                self.spec_chain_len(),
            );
        }
        // reopen the base file whatever became of the renames, and only
        // then report the first rename failure
        self.open_writer_if_needed(disk);
        rot
    }

    /// The whole effect of one write at moment `now`: rotate first exactly
    /// when the condition in the pre state says so, reopen the live file
    /// when the rotation or a closed writer calls for it, then append the
    /// buffer — and record `now` in the condition, whatever was decided.
    pub open spec fn spec_write_outcome(
        pre: Self,
        pre_disk: DiskModel,
        post: Self,
        post_disk: DiskModel,
        buf: Seq<u8>,
        now: Timestamp,
        r: usize,
    ) -> bool {
        let rolled = pre.condition.spec_should_rollover(now, pre.current_filesize);
        let s1 = if rolled {
            spec_rotate_files(pre_disk.spec_slots(), pre_disk.spec_deny(), pre.spec_chain_len())
        } else {
            pre_disk.spec_slots()
        };
        let s2 = if rolled || !pre.writer_open {
            spec_open_live(s1)
        } else {
            s1
        };
        &&& post.filename == pre.filename
        &&& post.max_filecount == pre.max_filecount
        &&& post.condition == pre.condition.spec_after_decision(now)
        &&& post.writer_open
        &&& post_disk.spec_deny() == pre_disk.spec_deny()
        &&& r == buf.len()
        &&& post_disk.spec_slots() == s2.update(0, Some(s2[0]->0 + buf))
        &&& post.current_filesize == s2[0]->0.len() + buf.len()
    }

    /// Writes data using the given datetime to calculate the rolling
    /// condition, and returns how many bytes were written. When the
    /// condition asks for it, a rollover is attempted first; a rollover
    /// failure is deliberately not propagated — the write goes into
    /// whatever live file can still be opened, preferring keeping the data
    /// over strict rotation. (An unverified shell reports such swallowed
    /// failures on a best-effort side channel.)
    pub fn write_with_datetime(
        &mut self,
        disk: &mut DiskModel,
        buf: &Vec<u8>,
        now: &Timestamp,
    ) -> (r: usize)
        requires
            old(self).inv(*old(disk)),
            old(disk).spec_slots()[0] matches Some(live) ==> live.len() + buf@.len()
                <= usize::MAX,
        ensures
            final(self).inv(*final(disk)),
            Self::spec_write_outcome(
                *old(self),
                *old(disk),
                *final(self),
                *final(disk),
                buf@,
                *now,
                r,
            ),
    {
        let should = self.condition.should_rollover(now, self.current_filesize);
        if should {
            let _rollover_outcome = self.rollover(disk);
            // If we can't rollover, just try to continue writing anyway
            // (better than missing data); the unverified shell is the place
            // that reports the failure without blocking the write path.
        }
        proof {
            if should {
                lemma_rotate_live_slot(
                    old(disk).spec_slots(),
                    old(disk).spec_deny(),
                    old(self).spec_chain_len(),
                );
            }
        }
        self.open_writer_if_needed(disk);
        let n = buf.len();
        disk.append_live(buf);
        self.current_filesize = self.current_filesize + n as u64;
        n
    }

    /// Writes data using the current local time to calculate the rolling
    /// condition. The whole effect — condition update, rotation, reopen
    /// and append — is that of [`Self::write_with_datetime`] at the moment
    /// the clock returned; and whatever that moment was, the appender ends
    /// up open, the byte count returned is the whole buffer, and the
    /// written bytes sit at the end of the live file.
    pub fn write(&mut self, disk: &mut DiskModel, buf: &Vec<u8>) -> (r: usize)
        requires
            old(self).inv(*old(disk)),
            old(disk).spec_slots()[0] matches Some(live) ==> live.len() + buf@.len()
                <= usize::MAX,
        ensures
            final(self).inv(*final(disk)),
            exists|t: Timestamp|
                t.wf() && Self::spec_write_outcome(
                    *old(self),
                    *old(disk),
                    *final(self),
                    *final(disk),
                    buf@,
                    t,
                    r,
                ),
            final(self).filename == old(self).filename,
            final(self).max_filecount == old(self).max_filecount,
            final(self).writer_open,
            final(disk).spec_deny() == old(disk).spec_deny(),
            r == buf@.len(),
            final(disk).spec_slots()[0] is Some,
            final(disk).spec_slots()[0]->0.len() >= buf@.len(),
            final(disk).spec_slots()[0]->0.subrange(
                final(disk).spec_slots()[0]->0.len() - buf@.len(),
                final(disk).spec_slots()[0]->0.len() as int,
            ) == buf@,
    {
        let now = now_local();
        let r = self.write_with_datetime(disk, buf, &now);
        proof {
            assert(Self::spec_write_outcome(
                *old(self),
                *old(disk),
                *self,
                *disk,
                buf@,
                now,
                r,
            ));
            let rolled = old(self).condition.spec_should_rollover(now, old(self).current_filesize);
            let s1 = if rolled {
                spec_rotate_files(
                    old(disk).spec_slots(),
                    old(disk).spec_deny(),
                    old(self).spec_chain_len(),
                )
            } else {
                old(disk).spec_slots()
            };
            let s2 = if rolled || !old(self).writer_open {
                spec_open_live(s1)
            } else {
                s1
            };
            if rolled {
                lemma_rotate_live_slot(
                    old(disk).spec_slots(),
                    old(disk).spec_deny(),
                    old(self).spec_chain_len(),
                );
            }
            assert(s1.len() == old(disk).spec_slots().len());
            assert(s2.len() > 0);
            let live2 = s2[0]->0 + buf@;
            assert(disk.spec_slots()[0] == Some(live2));
            assert(live2.subrange(live2.len() - buf@.len(), live2.len() as int) =~= buf@);
        }
        r
    }
}

} // verus!
