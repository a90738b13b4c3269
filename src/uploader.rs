use crate::plan::{batches, closes, lemma_bytes_of_push, lemma_pack_prefix, pack, prefix_of};
use crate::record::{bytes_of, size, Limits, Record};
use vstd::prelude::*;

verus! {

/// Where an upload stands.
#[derive(Clone, Copy, Debug, PartialEq, Eq, Structural)]
pub enum Phase {
    /// Created; nothing written yet.
    Idle,
    /// A batch has been handed out and its write has not been answered.
    Waiting,
    /// Every batch was written.
    Finished,
    /// A write failed, or an event came that did not fit; nothing more is written.
    Aborted,
}

/// What the driver of an upload tells the uploader.
#[derive(Clone, Copy, Debug, PartialEq, Eq, Structural)]
pub enum Event {
    /// Begin the upload.
    Start,
    /// The batch last handed out was written.
    Written,
    /// The write of the batch last handed out failed.
    Failed,
}

/// What the uploader asks its driver to do next.
#[derive(Debug)]
pub enum Action {
    /// Write this batch to the store, then report `Written` or `Failed`.
    Write(Vec<Record>),
    /// All records were written: the upload succeeded.
    Finish,
    /// The upload stops here: report the failure.
    Abort,
}

/// The decisions of one upload: which batch to write next, and when to stop.
/// Records are taken from the end of the input; the driver performs each write.
pub struct Uploader {
    pending: Vec<Record>,
    open: Vec<Record>,
    room: usize,
    over: bool,
    limits: Limits,
    phase: Phase,
    in_flight: usize,
    written: usize,
    total: usize,
    input: Ghost<Seq<Record>>,
    done: Ghost<Seq<Seq<Record>>>,
}

impl Uploader {
    /// The records handed to `new`.
    pub closed spec fn input(&self) -> Seq<Record> {
        self.input@
    }

    /// The limits handed to `new`.
    pub closed spec fn limits(&self) -> Limits {
        self.limits
    }

    /// Where the upload stands.
    pub closed spec fn phase_of(&self) -> Phase {
        self.phase
    }

    /// How many batches have been handed out.
    pub closed spec fn sent(&self) -> nat {
        self.done@.len()
    }

    /// How many records were in batches whose write succeeded.
    pub closed spec fn written_of(&self) -> nat {
        self.written as nat
    }

    /// The planning part of the invariant: what is pending, the open batch
    /// and the batches handed out agree with the greedy packing of the input.
    closed spec fn planning_ok(&self) -> bool {
        let n = self.input@.len();
        let k = self.pending@.len();
        let b = batches(self.input@, self.limits);
        &&& k <= n
        &&& self.total == n
        &&& self.pending@ == self.input@.subrange(0, k as int)
        &&& self.over == (bytes_of(self.open@) > self.limits.max_bytes)
        &&& !self.over ==> self.room == self.limits.max_bytes - bytes_of(self.open@)
        &&& (k > 0 || self.open@.len() > 0) ==> pack(self.input@.subrange(k as int, n as int), self.limits)
            == (self.done@, self.open@)
        &&& (k == 0 && self.open@.len() == 0) ==> self.done@ == b
        &&& prefix_of(self.done@, b)
    }

    /// The state's invariant.
    pub closed spec fn wf(&self) -> bool {
        let n = self.input@.len();
        let k = self.pending@.len();
        let b = batches(self.input@, self.limits);
        &&& self.planning_ok()
        &&& self.phase == Phase::Idle ==> k == n && self.open@.len() == 0 && self.done@.len() == 0
            && self.written == 0
        &&& self.phase == Phase::Waiting ==> self.done@.len() >= 1 && self.in_flight
            == self.done@.last().len() && self.written + self.in_flight + self.open@.len() + k == n
        &&& self.phase == Phase::Finished ==> self.written == n && self.done@ == b
    }

    /// An upload of `records` under `limits`.
    pub fn new(records: Vec<Record>, limits: Limits) -> (u: Uploader)
        ensures
            u.wf(),
            u.input() == records@,
            u.limits() == limits,
            u.phase_of() == Phase::Idle,
            u.sent() == 0,
            u.written_of() == 0,
    {
        let total = records.len();
        let ghost input = records@;
        let u = Uploader {
            pending: records,
            open: Vec::new(),
            room: limits.max_bytes,
            over: false,
            limits,
            phase: Phase::Idle,
            in_flight: 0,
            written: 0,
            total,
            input: Ghost(input),
            done: Ghost(Seq::empty()),
        };
        proof {
            assert(u.pending@ == input.subrange(0, total as int));
            assert(bytes_of(u.open@) == 0);
            if total == 0 {
                assert(input =~= Seq::<Record>::empty());
            }
        }
        u
    }

    /// Where the upload stands.
    pub fn phase(&self) -> (p: Phase)
        ensures
            p == self.phase_of(),
    {
        self.phase
    }

    /// How many records were in batches whose write succeeded.
    pub fn written(&self) -> (w: usize)
        ensures
            w == self.written_of(),
    {
        self.written
    }

    /// How many records the upload holds in all.
    pub fn total(&self) -> (t: usize)
        requires
            self.wf(),
        ensures
            t == self.input().len(),
    {
        self.total
    }

    /// Whether the upload is large enough to show its progress: it holds more
    /// records than one batch may.
    pub fn needs_progress(&self) -> (b: bool)
        requires
            self.wf(),
        ensures
            b == (self.input().len() > self.limits().max_count),
    {
        self.total > self.limits.max_count
    }

    fn must_close(&self, r: &Record) -> (c: bool)
        requires
            self.over == (bytes_of(self.open@) > self.limits.max_bytes),
            !self.over ==> self.room == self.limits.max_bytes - bytes_of(self.open@),
        ensures
            c == closes(self.open@, *r, self.limits),
    {
        if self.open.len() == 0 {
            false
        } else if self.open.len() >= self.limits.max_count {
            true
        } else if self.over {
            true
        } else {
            let k = r.key.len();
            let v = r.value.len();
            k > self.room || v > self.room - k
        }
    }

    fn push_open(&mut self, r: Record)
        requires
            old(self).over == (bytes_of(old(self).open@) > old(self).limits.max_bytes),
            !old(self).over ==> old(self).room == old(self).limits.max_bytes - bytes_of(
                old(self).open@,
            ),
        ensures
            final(self).open@ == old(self).open@.push(r),
            final(self).over == (bytes_of(final(self).open@) > final(self).limits.max_bytes),
            !final(self).over ==> final(self).room == final(self).limits.max_bytes - bytes_of(
                final(self).open@,
            ),
            final(self).pending == old(self).pending,
            final(self).limits == old(self).limits,
            final(self).phase == old(self).phase,
            final(self).in_flight == old(self).in_flight,
            final(self).written == old(self).written,
            final(self).total == old(self).total,
            final(self).input@ == old(self).input@,
            final(self).done == old(self).done,
    {
        proof {
            lemma_bytes_of_push(self.open@, r);
        }
        let k = r.key.len();
        let v = r.value.len();
        if !self.over && k <= self.room && v <= self.room - k {
            self.room = self.room - k - v;
        } else {
            self.over = true;
            self.room = 0;
        }
        self.open.push(r);
    }

    /// Takes records until a batch is complete, and hands it out.
    fn next_batch(&mut self) -> (b: Option<Vec<Record>>)
        requires
            old(self).planning_ok(),
        ensures
            final(self).input@ == old(self).input@,
            final(self).limits == old(self).limits,
            final(self).phase == old(self).phase,
            final(self).in_flight == old(self).in_flight,
            final(self).written == old(self).written,
            final(self).total == old(self).total,
            final(self).pending@.len() + final(self).open@.len() + (match b {
                Some(v) => v@.len(),
                None => 0,
            }) == old(self).pending@.len() + old(self).open@.len(),
            ({
                let bs = batches(old(self).input@, old(self).limits);
                let s = old(self).done@.len();
                match b {
                    Some(v) => s < bs.len() && v@ == bs[s as int] && final(self).done@ == old(
                        self,
                    ).done@.push(v@),
                    None => s == bs.len() && final(self).done@ == old(self).done@,
                }
            }),
            b is None ==> final(self).pending@.len() == 0 && final(self).open@.len() == 0,
            final(self).planning_ok(),
    {
        let ghost input = self.input@;
        let ghost lim = self.limits;
        let ghost n = input.len();
        let ghost bs = batches(input, lim);
        while self.pending.len() > 0
            invariant
                old(self).input@ == input,
                old(self).limits == lim,
                self.input@ == input,
                self.limits == lim,
                n == input.len(),
                bs == batches(input, lim),
                self.phase == old(self).phase,
                self.in_flight == old(self).in_flight,
                self.written == old(self).written,
                self.total == old(self).total,
                self.total == n,
                self.done@ == old(self).done@,
                self.pending@.len() <= n,
                self.pending@ == input.subrange(0, self.pending@.len() as int),
                self.pending@.len() + self.open@.len() == old(self).pending@.len() + old(
                    self,
                ).open@.len(),
                self.over == (bytes_of(self.open@) > lim.max_bytes),
                !self.over ==> self.room == lim.max_bytes - bytes_of(self.open@),
                (self.pending@.len() > 0 || self.open@.len() > 0) ==> pack(
                    input.subrange(self.pending@.len() as int, n as int),
                    lim,
                ) == (self.done@, self.open@),
                (self.pending@.len() == 0 && self.open@.len() == 0) ==> self.done@ == bs,
                prefix_of(self.done@, bs),
            decreases self.pending@.len(),
        {
            let ghost k = self.pending@.len();
            let r = self.pending.pop().unwrap();
            proof {
                let t = input.subrange(k - 1, n as int);
                assert(t.drop_first() =~= input.subrange(k as int, n as int));
                assert(t.first() == r);
                assert(self.pending@ =~= input.subrange(0, k - 1));
                lemma_pack_prefix(input, k - 1, lim);
            }
            if self.must_close(&r) {
                let mut batch: Vec<Record> = Vec::new();
                core::mem::swap(&mut batch, &mut self.open);
                self.room = self.limits.max_bytes;
                self.over = false;
                proof {
                    assert(bytes_of(self.open@) == 0);
                    let s = self.done@.len() as int;
                    self.done@ = self.done@.push(batch@);
                    assert(pack(input.subrange(k - 1, n as int), lim).0 == self.done@);
                    assert(self.done@[s] == bs[s]);
                }
                self.push_open(r);
                proof {
                    assert(self.open@ =~= seq![r]);
                }
                return Some(batch);
            }
            self.push_open(r);
        }
        if self.open.len() > 0 {
            let mut batch: Vec<Record> = Vec::new();
                core::mem::swap(&mut batch, &mut self.open);
            self.room = self.limits.max_bytes;
            self.over = false;
            proof {
                assert(input.subrange(0, n as int) =~= input);
                assert(bytes_of(self.open@) == 0);
                self.done@ = self.done@.push(batch@);
            }
            Some(batch)
        } else {
            None
        }
    }
    /// Decides what to do on `event`. `Start` begins an idle upload; `Written`
    /// after a batch was handed out hands out the next one; when no batch is
    /// left the upload finishes. `Failed` aborts, and so does an event that does
    /// not fit the phase. A finished or aborted upload stays as it is.
    pub fn step(&mut self, event: Event) -> (a: Action)
        requires
            old(self).wf(),
        ensures
            final(self).wf(),
            final(self).input() == old(self).input(),
            final(self).limits() == old(self).limits(),
            ({
                let bs = batches(old(self).input(), old(self).limits());
                let s = old(self).sent();
                let go = (old(self).phase_of() == Phase::Idle && event == Event::Start) || (old(
                    self,
                ).phase_of() == Phase::Waiting && event == Event::Written);
                let bad = (old(self).phase_of() == Phase::Idle && event != Event::Start) || (old(
                    self,
                ).phase_of() == Phase::Waiting && event == Event::Start);
                &&& s <= bs.len()
                &&& go && s < bs.len() ==> a is Write && a->Write_0@ == bs[s as int]
                    && final(self).phase_of() == Phase::Waiting && final(self).sent() == s + 1
                &&& go && s == bs.len() ==> a is Finish && final(self).phase_of() == Phase::Finished
                    && final(self).sent() == s
                &&& go && old(self).phase_of() == Phase::Waiting ==> final(self).written_of()
                    == old(self).written_of() + bs[s - 1].len()
                &&& go && old(self).phase_of() == Phase::Idle ==> final(self).written_of() == 0
                &&& old(self).phase_of() == Phase::Waiting && event == Event::Failed ==> a is Abort
                    && final(self).phase_of() == Phase::Aborted && final(self).sent() == s
                    && final(self).written_of() == old(self).written_of()
                &&& bad ==> a is Abort && final(self).phase_of() == Phase::Aborted
                    && final(self).sent() == s && final(self).written_of() == old(
                    self,
                ).written_of()
                &&& old(self).phase_of() == Phase::Finished ==> a is Finish && *final(self) == *old(self)
                &&& old(self).phase_of() == Phase::Aborted ==> a is Abort && *final(self) == *old(self)
            }),
    {
        match self.phase {
            Phase::Finished => Action::Finish,
            Phase::Aborted => Action::Abort,
            Phase::Idle => {
                if event == Event::Start {
                    self.emit()
                } else {
                    self.phase = Phase::Aborted;
                    Action::Abort
                }
            },
            Phase::Waiting => {
                match event {
                    Event::Written => {
                        self.written = self.written + self.in_flight;
                        self.in_flight = 0;
                        self.emit()
                    },
                    _ => {
                        self.phase = Phase::Aborted;
                        Action::Abort
                    },
                }
            },
        }
    }

    fn emit(&mut self) -> (a: Action)
        requires
            old(self).phase == Phase::Idle || old(self).phase == Phase::Waiting,
            old(self).written + old(self).open@.len() + old(self).pending@.len() == old(self).total,
            old(self).planning_ok(),
        ensures
            final(self).wf(),
            final(self).input() == old(self).input(),
            final(self).limits() == old(self).limits(),
            final(self).written == old(self).written,
            ({
                let bs = batches(old(self).input@, old(self).limits);
                let s = old(self).done@.len();
                &&& s < bs.len() ==> a is Write && a->Write_0@ == bs[s as int]
                    && final(self).phase == Phase::Waiting && final(self).sent() == s + 1
                &&& s >= bs.len() ==> a is Finish && final(self).phase == Phase::Finished
                    && final(self).sent() == s
            }),
    {
        match self.next_batch() {
            Some(batch) => {
                self.in_flight = batch.len();
                self.phase = Phase::Waiting;
                Action::Write(batch)
            },
            None => {
                self.phase = Phase::Finished;
                Action::Finish
            },
        }
    }
}


impl Action {
    /// Whether the action is a write.
    pub fn is_write(&self) -> (b: bool)
        ensures
            b == self is Write,
    {
        match self {
            Action::Write(_) => true,
            _ => false,
        }
    }
}

/// The batches that an upload of `records` under `limits` writes, in order,
/// when every write succeeds.
pub fn plan_batches(records: Vec<Record>, limits: Limits) -> (r: Vec<Vec<Record>>)
    ensures
        r@.len() == batches(records@, limits).len(),
        forall|i: int| 0 <= i < r@.len() ==> (#[trigger] r@[i])@ == batches(records@, limits)[i],
{
    let ghost bs = batches(records@, limits);
    let ghost input = records@;
    let mut u = Uploader::new(records, limits);
    let mut out: Vec<Vec<Record>> = Vec::new();
    let mut a = u.step(Event::Start);
    while a.is_write()
        invariant
            u.wf(),
            u.input() == input,
            u.limits() == limits,
            bs == batches(input, limits),
            a is Write ==> u.phase_of() == Phase::Waiting && u.sent() == out@.len() + 1
                && a->Write_0@ == bs[out@.len() as int],
            !(a is Write) ==> a is Finish && out@.len() == bs.len(),
            u.sent() <= bs.len(),
            forall|i: int| 0 <= i < out@.len() ==> (#[trigger] out@[i])@ == bs[i],
        decreases bs.len() - out@.len(),
    {
        if let Action::Write(b) = a {
            out.push(b);
        }
        a = u.step(Event::Written);
    }
    out
}

} // verus!
