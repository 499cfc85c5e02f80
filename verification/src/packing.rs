//! Packing artifact payloads into a backup: payloads are read a few at a
//! time and may arrive in any order, yet each is written once, in the order
//! of the artifact list.
use vstd::prelude::*;

use crate::background::{BackupCompletionSummary, BackupProgress};
use crate::maintenance::BackupProgressStage;
use crate::numbers::{dec_int, format_i32};
use crate::text::{append_all, chars_of, string_from_chars};

verus! {

/// How many payloads are read at once.
pub const BACKUP_ARTIFACT_READ_CONCURRENCY: usize = 4;

/// The folder of the archive that holds the payloads.
pub const BACKUP_ARTIFACTS_DIR: &'static str = "artifacts";

/// Where the payload of artifact `id` sits in the archive.
pub fn backup_payload_path(id: i32) -> (r: String)
    ensures
        r@ == BACKUP_ARTIFACTS_DIR@ + "/"@ + dec_int(id as int) + ".bin"@,
{
    let mut out = chars_of(BACKUP_ARTIFACTS_DIR);
    append_all(&mut out, &chars_of("/"));
    append_all(&mut out, &chars_of(format_i32(id).as_str()));
    append_all(&mut out, &chars_of(".bin"));
    string_from_chars(&out)
}

/// Where one payload is.
#[derive(Clone, Copy, Debug, PartialEq, Eq, Structural)]
pub enum Slot {
    /// Not asked for yet.
    Waiting,
    /// Being read.
    Loading,
    /// Read, waiting for the payloads before it.
    Loaded,
    /// In the archive.
    Written,
}

/// How many payloads are being read.
pub open spec fn loading_count(s: Seq<Slot>) -> nat
    decreases s.len(),
{
    if s.len() == 0 {
        0
    } else {
        loading_count(s.drop_last()) + (if s.last() == Slot::Loading {
            1nat
        } else {
            0nat
        })
    }
}

proof fn lemma_loading_count_update(s: Seq<Slot>, i: int, v: Slot)
    requires
        0 <= i < s.len(),
    ensures
        loading_count(s.update(i, v)) + (if s[i] == Slot::Loading {
            1int
        } else {
            0int
        }) == loading_count(s) + (if v == Slot::Loading {
            1int
        } else {
            0int
        }),
    decreases s.len(),
{
    if i == s.len() - 1 {
        assert(s.update(i, v).drop_last() =~= s.drop_last());
    } else {
        lemma_loading_count_update(s.drop_last(), i, v);
        assert(s.update(i, v).drop_last() =~= s.drop_last().update(i, v));
    }
}

proof fn lemma_loading_count_zero(s: Seq<Slot>)
    requires
        forall|k: int| 0 <= k < s.len() ==> s[k] != Slot::Loading,
    ensures
        loading_count(s) == 0,
    decreases s.len(),
{
    if s.len() > 0 {
        lemma_loading_count_zero(s.drop_last());
    }
}

proof fn lemma_loading_count_positive(s: Seq<Slot>, i: int)
    requires
        0 <= i < s.len(),
        s[i] == Slot::Loading,
    ensures
        loading_count(s) > 0,
    decreases s.len(),
{
    if i < s.len() - 1 {
        lemma_loading_count_positive(s.drop_last(), i);
    }
}

/// The order in which payloads of a backup are read and written.
pub struct PackingSchedule {
    slots: Vec<Slot>,
    next_submit: usize,
    next_write: usize,
    in_flight: usize,
    finished: Ghost<Set<int>>,
}

impl PackingSchedule {
    /// The payload slots, by artifact index.
    pub closed spec fn slots(&self) -> Seq<Slot> {
        self.slots@
    }

    /// The first payload not yet asked for.
    pub closed spec fn next_submit(&self) -> nat {
        self.next_submit as nat
    }

    /// The first payload not yet written.
    pub closed spec fn next_write(&self) -> nat {
        self.next_write as nat
    }

    /// How many payloads are being read.
    pub closed spec fn in_flight(&self) -> nat {
        self.in_flight as nat
    }

    /// The payloads whose read has been reported finished.
    pub closed spec fn finished(&self) -> Set<int> {
        self.finished@
    }

    /// Payloads are asked for and written in list order; those between the
    /// written ones and the next to ask for are being read or read; the
    /// first unwritten one, if asked for, is still being read (every read
    /// payload right after the written ones has been written); no more than
    /// the limit are read at once; a payload is read or written exactly
    /// when its read was reported finished.
    pub closed spec fn well_formed(&self) -> bool {
        let s = self.slots@;
        &&& self.next_write <= self.next_submit <= s.len()
        &&& forall|i: int| 0 <= i < self.next_write ==> #[trigger] s[i] == Slot::Written
        &&& forall|i: int|
            self.next_write <= i < self.next_submit ==> (#[trigger] s[i] == Slot::Loading || s[i]
                == Slot::Loaded)
        &&& forall|i: int| self.next_submit <= i < s.len() ==> #[trigger] s[i] == Slot::Waiting
        &&& self.next_write < self.next_submit ==> s[self.next_write as int] == Slot::Loading
        &&& self.in_flight == loading_count(s)
        &&& self.in_flight <= BACKUP_ARTIFACT_READ_CONCURRENCY
        &&& forall|i: int| #[trigger] self.finished@.contains(i) ==> 0 <= i < s.len()
        &&& forall|i: int|
            0 <= i < s.len() ==> (#[trigger] self.finished@.contains(i) <==> (s[i] == Slot::Loaded
                || s[i] == Slot::Written))
    }

    /// A schedule for `total` payloads, none asked for.
    pub fn new(total: usize) -> (r: Self)
        ensures
            r.well_formed(),
            r.slots().len() == total,
            r.next_submit() == 0,
            r.next_write() == 0,
            r.in_flight() == 0,
            r.finished() == Set::<int>::empty(),
            forall|i: int| 0 <= i < total ==> #[trigger] r.slots()[i] == Slot::Waiting,
    {
        let mut slots: Vec<Slot> = Vec::new();
        let mut i: usize = 0;
        while i < total
            invariant
                i <= total,
                slots@.len() == i,
                forall|k: int| 0 <= k < i ==> slots@[k] == Slot::Waiting,
            decreases total - i,
        {
            slots.push(Slot::Waiting);
            i += 1;
        }
        proof {
            lemma_loading_count_zero(slots@);
        }
        PackingSchedule { slots, next_submit: 0, next_write: 0, in_flight: 0, finished: Ghost(Set::empty()) }
    }

    /// Whether every payload is written.
    pub fn is_complete(&self) -> (b: bool)
        requires
            self.well_formed(),
        ensures
            b == (self.next_write() == self.slots().len()),
    {
        self.next_write == self.slots.len()
    }

    /// The payloads to start reading now, in list order: the next ones not
    /// yet asked for, as long as fewer than the limit are being read.
    pub fn start_reads(&mut self) -> (r: Vec<usize>)
        requires
            old(self).well_formed(),
        ensures
            final(self).well_formed(),
            final(self).slots().len() == old(self).slots().len(),
            final(self).next_write() == old(self).next_write(),
            r@.len() == final(self).next_submit() - old(self).next_submit(),
            forall|k: int| 0 <= k < r@.len() ==> #[trigger] r@[k] == old(self).next_submit() + k,
            final(self).next_submit() == final(self).slots().len() || final(self).in_flight()
                == BACKUP_ARTIFACT_READ_CONCURRENCY,
            final(self).in_flight() == old(self).in_flight() + r@.len(),
            final(self).finished() == old(self).finished(),
            forall|i: int|
                0 <= i < old(self).slots().len() ==> #[trigger] final(self).slots()[i] == (if old(
                    self,
                ).next_submit() <= i < final(self).next_submit() {
                    Slot::Loading
                } else {
                    old(self).slots()[i]
                }),
    {
        let ghost start = self.next_submit;
        let mut out: Vec<usize> = Vec::new();
        while self.next_submit < self.slots.len() && self.in_flight < BACKUP_ARTIFACT_READ_CONCURRENCY
            invariant
                self.well_formed(),
                self.slots@.len() == old(self).slots@.len(),
                self.next_write == old(self).next_write,
                start == old(self).next_submit,
                start <= self.next_submit,
                out@.len() == self.next_submit - start,
                forall|k: int| 0 <= k < out@.len() ==> #[trigger] out@[k] == start + k,
                self.in_flight == old(self).in_flight + out@.len(),
                self.finished@ == old(self).finished@,
                forall|i: int|
                    0 <= i < old(self).slots@.len() ==> #[trigger] self.slots@[i] == (if start <= i
                        < self.next_submit {
                        Slot::Loading
                    } else {
                        old(self).slots@[i]
                    }),
            decreases self.slots@.len() - self.next_submit,
        {
            let i = self.next_submit;
            proof {
                lemma_loading_count_update(self.slots@, i as int, Slot::Loading);
            }
            self.slots.set(i, Slot::Loading);
            self.next_submit = i + 1;
            self.in_flight = self.in_flight + 1;
            out.push(i);
        }
        out
    }

    /// Payload `index` has been read. Returns the payloads to write now, in
    /// list order: the run of read payloads right after those written.
    pub fn finish_read(&mut self, index: usize) -> (r: Vec<usize>)
        requires
            old(self).well_formed(),
            index < old(self).slots().len(),
            old(self).slots()[index as int] == Slot::Loading,
        ensures
            final(self).well_formed(),
            final(self).slots().len() == old(self).slots().len(),
            final(self).next_submit() == old(self).next_submit(),
            final(self).in_flight() + 1 == old(self).in_flight(),
            r@.len() == final(self).next_write() - old(self).next_write(),
            forall|k: int| 0 <= k < r@.len() ==> #[trigger] r@[k] == old(self).next_write() + k,
            forall|k: int|
                0 <= k < r@.len() ==> (#[trigger] old(self).slots()[r@[k] as int] == Slot::Loaded
                    || r@[k] == index),
            (index == old(self).next_write()) == (r@.len() > 0),
            final(self).finished() == old(self).finished().insert(index as int),
            forall|k: int| 0 <= k < r@.len() ==> final(self).finished().contains(#[trigger] r@[k] as int),
            forall|i: int|
                0 <= i < old(self).slots().len() ==> #[trigger] final(self).slots()[i] == (if old(
                    self,
                ).next_write() <= i < final(self).next_write() {
                    Slot::Written
                } else if i == index {
                    Slot::Loaded
                } else {
                    old(self).slots()[i]
                }),
    {
        proof {
            lemma_loading_count_update(self.slots@, index as int, Slot::Loaded);
        }
        self.slots.set(index, Slot::Loaded);
        self.in_flight = self.in_flight - 1;
        self.finished = Ghost(self.finished@.insert(index as int));
        let ghost start = self.next_write;
        let ghost marked = self.slots@;
        let mut out: Vec<usize> = Vec::new();
        while self.next_write < self.next_submit && self.slots[self.next_write] == Slot::Loaded
            invariant
                self.slots@.len() == old(self).slots@.len(),
                self.next_submit == old(self).next_submit,
                start == old(self).next_write,
                start <= self.next_write <= self.next_submit <= self.slots@.len(),
                self.in_flight == loading_count(self.slots@),
                self.in_flight + 1 == old(self).in_flight,
                self.in_flight <= BACKUP_ARTIFACT_READ_CONCURRENCY,
                forall|i: int| 0 <= i < self.next_write ==> #[trigger] self.slots@[i] == Slot::Written,
                forall|i: int|
                    self.next_write <= i < self.next_submit ==> (#[trigger] self.slots@[i]
                        == Slot::Loading || self.slots@[i] == Slot::Loaded),
                forall|i: int|
                    self.next_write <= i < self.slots@.len() ==> #[trigger] self.slots@[i]
                        == marked[i],
                forall|i: int|
                    self.next_submit <= i < self.slots@.len() ==> #[trigger] self.slots@[i]
                        == Slot::Waiting,
                out@.len() == self.next_write - start,
                forall|k: int| 0 <= k < out@.len() ==> #[trigger] out@[k] == start + k,
                forall|k: int| 0 <= k < out@.len() ==> #[trigger] marked[out@[k] as int] == Slot::Loaded,
                marked == old(self).slots@.update(index as int, Slot::Loaded),
                self.finished@ == old(self).finished@.insert(index as int),
                forall|i: int| #[trigger] self.finished@.contains(i) ==> 0 <= i < self.slots@.len(),
                forall|i: int|
                    0 <= i < self.slots@.len() ==> (#[trigger] self.finished@.contains(i) <==> (
                    self.slots@[i] == Slot::Loaded || self.slots@[i] == Slot::Written)),
            decreases self.next_submit - self.next_write,
        {
            let i = self.next_write;
            proof {
                lemma_loading_count_update(self.slots@, i as int, Slot::Written);
            }
            self.slots.set(i, Slot::Written);
            self.next_write = i + 1;
            out.push(i);
        }
        proof {
            if self.next_write < self.next_submit {
                assert(self.slots@[self.next_write as int] == Slot::Loading);
            }
            if start == index {
                assert(marked[start as int] == Slot::Loaded);
                assert(self.next_write > start);
            } else {
                assert(old(self).slots@[start as int] == Slot::Loading);
                assert(marked[start as int] == Slot::Loading);
                if self.next_write > start {
                    assert(out@[0] == start);
                    assert(marked[out@[0] as int] == Slot::Loaded);
                }
                assert(self.next_write == start);
            }
            assert forall|i: int| 0 <= i < old(self).slots().len() implies #[trigger] self.slots@[i]
                == (if start <= i < self.next_write {
                Slot::Written
            } else if i == index {
                Slot::Loaded
            } else {
                old(self).slots()[i]
            }) by {
                if i < start {
                    assert(old(self).slots@[i] == Slot::Written);
                }
            }
            assert forall|k: int| 0 <= k < out@.len() implies (old(self).slots()[out@[k] as int]
                == Slot::Loaded || out@[k] == index) by {
                assert(marked[out@[k] as int] == Slot::Loaded);
            }
        }
        out
    }
}

/// The first report of an export, while its records load: nothing counted.
pub fn loading_records_progress() -> (r: BackupProgress)
    ensures
        r.stage == BackupProgressStage::LoadingRecords,
        r.artifacts_done == 0,
        r.artifacts_total == 0,
{
    BackupProgress { stage: BackupProgressStage::LoadingRecords, artifacts_done: 0, artifacts_total: 0 }
}

impl PackingSchedule {
    /// The packing report now: payloads written out of all; at the start,
    /// none.
    pub fn packing_progress(&self) -> (r: BackupProgress)
        requires
            self.well_formed(),
        ensures
            r.stage == BackupProgressStage::PackingArtifacts,
            r.artifacts_done == self.next_write(),
            r.artifacts_total == self.slots().len(),
    {
        BackupProgress {
            stage: BackupProgressStage::PackingArtifacts,
            artifacts_done: self.next_write,
            artifacts_total: self.slots.len(),
        }
    }

    /// One packing report per payload that [`PackingSchedule::finish_read`]
    /// handed out for writing, in order: the count written once it is in.
    pub fn write_reports(&self, written: &Vec<usize>) -> (r: Vec<BackupProgress>)
        requires
            self.well_formed(),
            forall|k: int| 0 <= k < written@.len() ==> #[trigger] written@[k] < self.slots().len(),
        ensures
            r@.len() == written@.len(),
            forall|k: int|
                0 <= k < r@.len() ==> (#[trigger] r@[k]).stage == BackupProgressStage::PackingArtifacts
                    && r@[k].artifacts_done == written@[k] + 1 && r@[k].artifacts_total
                    == self.slots().len(),
    {
        let mut r: Vec<BackupProgress> = Vec::new();
        let n: usize = self.slots.len();
        let mut i: usize = 0;
        while i < written.len()
            invariant
                i <= written@.len(),
                r@.len() == i,
                self.slots().len() == n,
                forall|k: int| 0 <= k < written@.len() ==> #[trigger] written@[k] < self.slots().len(),
                forall|k: int|
                    0 <= k < i ==> (#[trigger] r@[k]).stage == BackupProgressStage::PackingArtifacts
                        && r@[k].artifacts_done == written@[k] + 1 && r@[k].artifacts_total
                        == self.slots().len(),
            decreases written@.len() - i,
        {
            assert(written@[i as int] < self.slots().len());
            r.push(
                BackupProgress {
                    stage: BackupProgressStage::PackingArtifacts,
                    artifacts_done: written[i] + 1,
                    artifacts_total: n,
                },
            );
            i += 1;
        }
        r
    }

    /// The last report, once the payloads are packed.
    pub fn finalizing_progress(&self) -> (r: BackupProgress)
        requires
            self.well_formed(),
        ensures
            r.stage == BackupProgressStage::Finalizing,
            r.artifacts_done == self.next_write(),
            r.artifacts_total == self.slots().len(),
    {
        BackupProgress {
            stage: BackupProgressStage::Finalizing,
            artifacts_done: self.next_write,
            artifacts_total: self.slots.len(),
        }
    }

    /// What the finished export holds: the hyperlink and relation rows, and
    /// the artifacts written.
    pub fn summary(&self, hyperlinks: usize, relations: usize) -> (r: BackupCompletionSummary)
        requires
            self.well_formed(),
        ensures
            r.hyperlinks == hyperlinks,
            r.relations == relations,
            r.artifacts == self.next_write(),
    {
        BackupCompletionSummary { hyperlinks, relations, artifacts: self.next_write }
    }
}

/// A payload goes into the archive only after its read was reported
/// finished: every payload written so far is among the finished reads, and
/// each is written once, since writing moves past it for good.
pub proof fn law_written_payloads_were_read(s: PackingSchedule)
    requires
        s.well_formed(),
    ensures
        forall|i: int| 0 <= i < s.next_write() ==> #[trigger] s.finished().contains(i),
        forall|i: int| 0 <= i < s.next_write() ==> #[trigger] s.slots()[i] == Slot::Written,
{
}

/// Reading never runs more than the limit at once, and the packing cannot
/// stall: once every payload has been asked for and none is being read,
/// every payload has been written.
pub proof fn law_packing_completes(s: PackingSchedule)
    requires
        s.well_formed(),
        s.next_submit() == s.slots().len(),
        s.in_flight() == 0,
    ensures
        s.next_write() == s.slots().len(),
        s.in_flight() <= BACKUP_ARTIFACT_READ_CONCURRENCY,
{
    if s.next_write() < s.next_submit() {
        lemma_loading_count_positive(s.slots(), s.next_write() as int);
    }
}

} // verus!
