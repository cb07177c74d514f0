use vstd::prelude::*;

use crate::chunks::{assemble, captured, read_offsets, read_offsets_from};

verus! {

/// An operation that the session asks its driver to perform on the tracee.
#[derive(Debug, Clone, Copy, PartialEq, Eq)]
pub enum TraceOp {
    /// Begin tracing the target process.
    Attach,
    /// Block until the target reports that it has stopped.
    WaitStop,
    /// Read one machine word at this absolute address.
    ReadWord(u64),
    /// End tracing and let the target run on.
    Detach,
    /// Let the stopped target continue after a failure.
    Resume,
}

/// The operation that failed.
#[derive(Debug, Clone, Copy, PartialEq, Eq)]
pub enum TraceStage {
    Attach,
    Wait,
    Read,
    Detach,
    Resume,
}

/// A failed tracing operation and the OS error code it reported.
#[derive(Debug, Clone, Copy, PartialEq, Eq)]
pub struct TraceError {
    pub stage: TraceStage,
    pub code: i32,
}

/// Where a session stands.
#[derive(Debug, Clone, Copy, PartialEq, Eq)]
pub enum Phase {
    Idle,
    Attaching,
    Waiting,
    Reading,
    Detaching,
    Resuming(TraceError),
    Finished,
}

/// What the session wants next: an operation, or the end with its result.
#[derive(Debug)]
pub enum Step {
    Issue(TraceOp),
    Finished(Result<Vec<u8>, TraceError>),
}

/// Absolute address of the read at `offset` bytes past `address`.
pub open spec fn word_address(address: u64, offset: nat) -> u64 {
    ((address + offset) % 0x1_0000_0000_0000_0000) as u64
}

/// The decisions of one capture of `size` bytes at `address`, read in words
/// of `word` bytes: attach, wait for the stop, read word by word, detach;
/// after any failure that follows a successful attach, resume the target
/// before the failure is reported.
pub struct TraceSession {
    address: u64,
    size: usize,
    word: usize,
    phase: Phase,
    pos: usize,
    buf: Vec<u8>,
    offsets: Ghost<Seq<nat>>,
    words: Ghost<Seq<Seq<u8>>>,
    log: Ghost<Seq<TraceOp>>,
    attached: Ghost<bool>,
}

impl TraceSession {
    pub closed spec fn address(&self) -> u64 {
        self.address
    }

    pub closed spec fn size(&self) -> nat {
        self.size as nat
    }

    pub closed spec fn word(&self) -> nat {
        self.word as nat
    }

    pub closed spec fn phase(&self) -> Phase {
        self.phase
    }

    /// The words read so far, in order.
    pub closed spec fn words(&self) -> Seq<Seq<u8>> {
        self.words@
    }

    /// Every operation issued so far, in order.
    pub closed spec fn log(&self) -> Seq<TraceOp> {
        self.log@
    }

    /// Whether an attach has succeeded in this session.
    pub closed spec fn attached(&self) -> bool {
        self.attached@
    }

    /// The plan of word offsets for this capture.
    pub open spec fn plan(&self) -> Seq<nat> {
        read_offsets(self.size(), self.word())
    }

    /// The target is not left stopped: it was never attached, or the last
    /// operation issued let it run again.
    pub open spec fn tracee_released(&self) -> bool {
        !self.attached() || self.log().last() == TraceOp::Detach || self.log().last()
            == TraceOp::Resume
    }

    /// The captured data agrees with the plan; says nothing of the phase.
    closed spec fn wf_data(&self) -> bool {
        &&& self.size > 0
        &&& self.word > 0
        &&& self.words@.len() == self.offsets@.len()
        &&& self.offsets@.len() <= self.plan().len()
        &&& self.offsets@ == self.plan().take(self.offsets@.len() as int)
        &&& forall|k: int| 0 <= k < self.words@.len() ==> (#[trigger] self.words@[k]).len() == self.word
        &&& self.phase != Phase::Finished ==> self.buf@ == assemble(self.offsets@, self.words@)
        &&& self.size >= self.word ==> {
            &&& self.pos <= self.size
            &&& self.pos == if self.offsets@.len() == 0 {
                0
            } else {
                self.offsets@.last() + self.word
            }
            &&& self.phase != Phase::Finished ==> self.buf@.len() == self.pos
            &&& self.plan() == self.offsets@ + read_offsets_from(
                self.pos as nat,
                self.size as nat,
                self.word as nat,
            )
        }
        &&& self.size < self.word && self.phase != Phase::Finished ==> self.buf@.len()
            == self.offsets@.len() * self.word
    }

    pub closed spec fn wf(&self) -> bool {
        &&& self.wf_data()
        &&& match self.phase {
            Phase::Idle => self.log@.len() == 0 && !self.attached@ && self.offsets@.len() == 0,
            Phase::Attaching => self.log@.len() > 0 && self.log@.last() == TraceOp::Attach
                && !self.attached@ && self.offsets@.len() == 0,
            Phase::Waiting => self.log@.len() > 0 && self.log@.last() == TraceOp::WaitStop
                && self.attached@ && self.offsets@.len() == 0,
            Phase::Reading => self.log@.len() > 0 && self.offsets@.len() < self.plan().len()
                && self.log@.last() == TraceOp::ReadWord(
                word_address(self.address, self.plan()[self.offsets@.len() as int]),
            ) && self.attached@,
            Phase::Detaching => self.log@.len() > 0 && self.log@.last() == TraceOp::Detach
                && self.attached@ && self.offsets@.len() == self.plan().len(),
            Phase::Resuming(_) => self.log@.len() > 0 && self.log@.last() == TraceOp::Resume
                && self.attached@,
            Phase::Finished => self.log@.len() > 0 && self.tracee_released(),
        }
    }

    /// A session that will capture `size` bytes at `address` in reads of
    /// `word` bytes.
    pub fn new(address: u64, size: usize, word: usize) -> (r: TraceSession)
        requires
            size > 0,
            word > 0,
        ensures
            r.wf(),
            r.phase() == Phase::Idle,
            r.address() == address,
            r.size() == size,
            r.word() == word,
            r.log().len() == 0,
            r.words().len() == 0,
            !r.attached(),
    {
        let r = TraceSession {
            address,
            size,
            word,
            phase: Phase::Idle,
            pos: 0,
            buf: Vec::new(),
            offsets: Ghost(Seq::empty()),
            words: Ghost(Seq::empty()),
            log: Ghost(Seq::empty()),
            attached: Ghost(false),
        };
        proof {
            if size >= word {
                assert(r.plan() =~= r.offsets@ + read_offsets_from(0, size as nat, word as nat));
            }
            assert(r.offsets@ =~= r.plan().take(0));
        }
        r
    }

    /// Whether the session waits for the result of a word read.
    pub fn awaits_word(&self) -> (r: bool)
        ensures
            r == (self.phase() == Phase::Reading),
    {
        matches!(self.phase, Phase::Reading)
    }

    /// Whether the session has not started yet.
    pub fn is_idle(&self) -> (r: bool)
        ensures
            r == (self.phase() == Phase::Idle),
    {
        matches!(self.phase, Phase::Idle)
    }

    /// Whether the session has ended.
    pub fn is_finished(&self) -> (r: bool)
        ensures
            r == (self.phase() == Phase::Finished),
    {
        matches!(self.phase, Phase::Finished)
    }

    /// Starts the session: the first operation is always the attach.
    pub fn start(&mut self) -> (op: TraceOp)
        requires
            old(self).wf(),
            old(self).phase() == Phase::Idle,
        ensures
            final(self).wf(),
            op == TraceOp::Attach,
            final(self).phase() == Phase::Attaching,
            final(self).log() == old(self).log().push(op),
            final(self).words() == old(self).words(),
            final(self).address() == old(self).address(),
            final(self).size() == old(self).size(),
            final(self).word() == old(self).word(),
            final(self).attached() == old(self).attached(),
    {
        self.phase = Phase::Attaching;
        self.log = Ghost(self.log@.push(TraceOp::Attach));
        TraceOp::Attach
    }

    /// Offset of the next word read: the running position, moved back so
    /// that the read still ends inside the object.
    fn next_offset(&self) -> (off: usize)
        requires
            self.wf_data(),
            self.phase != Phase::Finished,
            self.offsets@.len() < self.plan().len(),
        ensures
            off == self.plan()[self.offsets@.len() as int],
            off <= self.buf@.len(),
    {
        if self.size < self.word {
            0
        } else {
            proof {
                let k = self.offsets@.len() as int;
                assert(self.plan()[k] == read_offsets_from(
                    self.pos as nat,
                    self.size as nat,
                    self.word as nat,
                )[0]);
            }
            if self.pos > self.size - self.word {
                self.size - self.word
            } else {
                self.pos
            }
        }
    }

    /// Issues the read of the next planned word.
    fn issue_next_read(&mut self) -> (step: Step)
        requires
            old(self).wf_data(),
            old(self).attached@,
            old(self).log@.len() > 0,
            old(self).offsets@.len() < old(self).plan().len(),
            old(self).phase == Phase::Waiting || old(self).phase == Phase::Reading,
        ensures
            final(self).wf(),
            final(self).phase == Phase::Reading,
            step == Step::Issue(
                TraceOp::ReadWord(
                    word_address(old(self).address, old(self).plan()[old(self).offsets@.len() as int]),
                ),
            ),
            final(self).log@ == old(self).log@.push(
                TraceOp::ReadWord(
                    word_address(old(self).address, old(self).plan()[old(self).offsets@.len() as int]),
                ),
            ),
            final(self).words@ == old(self).words@,
            final(self).offsets@ == old(self).offsets@,
            final(self).address == old(self).address,
            final(self).size == old(self).size,
            final(self).word == old(self).word,
            final(self).attached@ == old(self).attached@,
    {
        let off = self.next_offset();
        let at = self.address.wrapping_add(off as u64);
        let op = TraceOp::ReadWord(at);
        self.phase = Phase::Reading;
        self.log = Ghost(self.log@.push(op));
        Step::Issue(op)
    }
    /// Takes the result of the attach, the wait, the detach or the resume
    /// that the session issued last.
    pub fn on_status(&mut self, res: Result<(), i32>) -> (step: Step)
        requires
            old(self).wf(),
            old(self).phase() != Phase::Idle,
            old(self).phase() != Phase::Reading,
            old(self).phase() != Phase::Finished,
        ensures
            final(self).wf(),
            final(self).address() == old(self).address(),
            final(self).size() == old(self).size(),
            final(self).word() == old(self).word(),
            final(self).words() == old(self).words(),
            step is Finished <==> final(self).phase() == Phase::Finished,
            step is Finished ==> final(self).tracee_released(),
            step matches Step::Issue(op) ==> final(self).log() == old(self).log().push(op),
            step is Finished ==> final(self).log() == old(self).log(),
            match old(self).phase() {
                Phase::Attaching => match res {
                    Ok(_) => step == Step::Issue(TraceOp::WaitStop) && final(self).phase()
                        == Phase::Waiting && final(self).attached(),
                    Err(code) => step == Step::Finished(
                        Err(TraceError { stage: TraceStage::Attach, code }),
                    ) && !final(self).attached(),
                },
                Phase::Waiting => match res {
                    Ok(_) => step == Step::Issue(
                        TraceOp::ReadWord(word_address(old(self).address(), old(self).plan()[0])),
                    ) && final(self).phase() == Phase::Reading,
                    Err(code) => step == Step::Issue(TraceOp::Resume) && final(self).phase()
                        == Phase::Resuming(TraceError { stage: TraceStage::Wait, code }),
                },
                Phase::Detaching => match res {
                    Ok(_) => step matches Step::Finished(Ok(bytes)) && bytes@ == captured(
                        old(self).size(),
                        old(self).word(),
                        old(self).words(),
                    ) && old(self).words().len() == old(self).plan().len(),
                    Err(code) => step == Step::Finished(
                        Err(TraceError { stage: TraceStage::Detach, code }),
                    ),
                },
                Phase::Resuming(err) => match res {
                    Ok(_) => step == Step::Finished(Err(err)),
                    Err(code) => step == Step::Finished(
                        Err(TraceError { stage: TraceStage::Resume, code }),
                    ),
                },
                _ => false,
            },
    {
        proof {
            crate::chunks::lemma_read_plan(self.size as nat, self.word as nat);
        }
        match self.phase {
            Phase::Attaching => match res {
                Ok(_) => {
                    self.phase = Phase::Waiting;
                    self.attached = Ghost(true);
                    self.log = Ghost(self.log@.push(TraceOp::WaitStop));
                    Step::Issue(TraceOp::WaitStop)
                },
                Err(code) => {
                    self.phase = Phase::Finished;
                    Step::Finished(Err(TraceError { stage: TraceStage::Attach, code }))
                },
            },
            Phase::Waiting => match res {
                Ok(_) => self.issue_next_read(),
                Err(code) => self.resume_after(TraceError { stage: TraceStage::Wait, code }),
            },
            Phase::Detaching => match res {
                Ok(_) => {
                    self.buf.truncate(self.size);
                    let mut out: Vec<u8> = Vec::new();
                    std::mem::swap(&mut out, &mut self.buf);
                    self.phase = Phase::Finished;
                    Step::Finished(Ok(out))
                },
                Err(code) => {
                    self.phase = Phase::Finished;
                    Step::Finished(Err(TraceError { stage: TraceStage::Detach, code }))
                },
            },
            Phase::Resuming(err) => {
                self.phase = Phase::Finished;
                match res {
                    Ok(_) => Step::Finished(Err(err)),
                    Err(code) => Step::Finished(Err(TraceError { stage: TraceStage::Resume, code })),
                }
            },
            _ => Step::Finished(Err(TraceError { stage: TraceStage::Attach, code: 0 })),
        }
    }

    /// Takes the result of the word read that the session issued last.
    pub fn on_word(&mut self, res: Result<Vec<u8>, i32>) -> (step: Step)
        requires
            old(self).wf(),
            old(self).phase() == Phase::Reading,
            res matches Ok(bytes) ==> bytes@.len() == old(self).word(),
        ensures
            final(self).wf(),
            final(self).address() == old(self).address(),
            final(self).size() == old(self).size(),
            final(self).word() == old(self).word(),
            step matches Step::Issue(op) && final(self).log() == old(self).log().push(op),
            match res {
                Ok(bytes) => {
                    &&& final(self).words() == old(self).words().push(bytes@)
                    &&& if final(self).words().len() < old(self).plan().len() {
                        &&& final(self).phase() == Phase::Reading
                        &&& step == Step::Issue(
                            TraceOp::ReadWord(
                                word_address(
                                    old(self).address(),
                                    old(self).plan()[final(self).words().len() as int],
                                ),
                            ),
                        )
                    } else {
                        final(self).phase() == Phase::Detaching && step == Step::Issue(
                            TraceOp::Detach,
                        )
                    }
                },
                Err(code) => {
                    &&& final(self).words() == old(self).words()
                    &&& step == Step::Issue(TraceOp::Resume)
                    &&& final(self).phase() == Phase::Resuming(
                        TraceError { stage: TraceStage::Read, code },
                    )
                },
            },
    {
        match res {
            Err(code) => self.resume_after(TraceError { stage: TraceStage::Read, code }),
            Ok(bytes) => {
                let off = self.next_offset();
                let ghost old_buf = self.buf@;
                let ghost old_offsets = self.offsets@;
                let ghost old_words = self.words@;
                let ghost old_pos = self.pos;
                self.buf.truncate(off);
                append_bytes(&mut self.buf, &bytes);
                let next_pos = off + self.word;
                proof {
                    let offs2 = old_offsets.push(off as nat);
                    let words2 = old_words.push(bytes@);
                    assert(offs2.drop_last() =~= old_offsets);
                    assert(words2.drop_last() =~= old_words);
                    assert(self.buf@ =~= assemble(offs2, words2));
                    let k = old_offsets.len() as int;
                    assert(offs2 =~= self.plan().take(k + 1));
                    if self.size >= self.word {
                        let f = read_offsets_from(old_pos as nat, self.size as nat, self.word as nat);
                        let g = read_offsets_from(next_pos as nat, self.size as nat, self.word as nat);
                        assert(f =~= seq![off as nat] + g);
                        assert(self.plan() =~= offs2 + g);
                    }
                }
                self.offsets = Ghost(self.offsets@.push(off as nat));
                self.words = Ghost(self.words@.push(bytes@));
                if self.size >= self.word {
                    self.pos = next_pos;
                }
                let more = if self.size < self.word {
                    false
                } else {
                    self.pos < self.size
                };
                proof {
                    crate::chunks::lemma_read_plan(self.size as nat, self.word as nat);
                    if self.size >= self.word {
                        let g = read_offsets_from(self.pos as nat, self.size as nat, self.word as nat);
                        assert(self.plan() == self.offsets@ + g);
                        assert(more == (g.len() > 0));
                    }
                }
                if more {
                    self.issue_next_read()
                } else {
                    proof {
                        if self.size < self.word {
                            assert(self.offsets@.len() == 1);
                        }
                    }
                    self.phase = Phase::Detaching;
                    self.log = Ghost(self.log@.push(TraceOp::Detach));
                    Step::Issue(TraceOp::Detach)
                }
            },
        }
    }

    /// Enters the resume-then-report edge for `err`.
    fn resume_after(&mut self, err: TraceError) -> (step: Step)
        requires
            old(self).wf_data(),
            old(self).attached@,
            old(self).phase == Phase::Waiting || old(self).phase == Phase::Reading,
        ensures
            final(self).wf(),
            step == Step::Issue(TraceOp::Resume),
            final(self).phase == Phase::Resuming(err),
            final(self).log@ == old(self).log@.push(TraceOp::Resume),
            final(self).words@ == old(self).words@,
            final(self).address == old(self).address,
            final(self).size == old(self).size,
            final(self).word == old(self).word,
    {
        self.phase = Phase::Resuming(err);
        self.log = Ghost(self.log@.push(TraceOp::Resume));
        Step::Issue(TraceOp::Resume)
    }
}

/// Appends `bytes` to `buf`.
fn append_bytes(buf: &mut Vec<u8>, bytes: &Vec<u8>)
    ensures
        final(buf)@ == old(buf)@ + bytes@,
{
    let ghost start = buf@;
    let mut i: usize = 0;
    while i < bytes.len()
        invariant
            i <= bytes@.len(),
            buf@ == start + bytes@.take(i as int),
        decreases bytes@.len() - i,
    {
        buf.push(bytes[i]);
        i = i + 1;
        proof {
            assert(bytes@.take(i as int) =~= bytes@.take(i - 1) + seq![bytes@[i - 1]]);
        }
    }
    proof {
        assert(bytes@.take(i as int) =~= bytes@);
    }
}

/// A session that has finished never leaves its target stopped: either the
/// attach failed, or the last operation it issued was a detach or a resume,
/// whichever way each operation turned out.
pub proof fn lemma_finished_session_releases_tracee(s: &TraceSession)
    requires
        s.wf(),
        s.phase() == Phase::Finished,
    ensures
        s.tracee_released(),
{
}

} // verus!
