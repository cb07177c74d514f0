use rcheat::session::{Step, TraceError, TraceOp, TraceSession, TraceStage};

/// A simulated tracee: its memory, whether it is traced and stopped, and
/// the failure to inject.
struct Tracee {
    base: u64,
    mem: Vec<u8>,
    attached: bool,
    stopped: bool,
    fail_attach: bool,
    fail_wait: bool,
    fail_read_at: Option<usize>,
    reads: Vec<u64>,
}

impl Tracee {
    fn new(base: u64, mem: Vec<u8>) -> Tracee {
        Tracee {
            base,
            mem,
            attached: false,
            stopped: false,
            fail_attach: false,
            fail_wait: false,
            fail_read_at: None,
            reads: Vec::new(),
        }
    }
}

/// Drives `session` against `t` until it finishes.
fn run(session: &mut TraceSession, t: &mut Tracee, word: usize) -> Result<Vec<u8>, TraceError> {
    let mut op = session.start();
    loop {
        let step = match op {
            TraceOp::Attach => {
                if t.fail_attach {
                    session.on_status(Err(1))
                } else {
                    t.attached = true;
                    t.stopped = true;
                    session.on_status(Ok(()))
                }
            }
            TraceOp::WaitStop => {
                if t.fail_wait {
                    session.on_status(Err(4))
                } else {
                    session.on_status(Ok(()))
                }
            }
            TraceOp::ReadWord(addr) => {
                assert!(session.awaits_word());
                let k = t.reads.len();
                t.reads.push(addr);
                if t.fail_read_at == Some(k) {
                    session.on_word(Err(14))
                } else {
                    let off = (addr - t.base) as usize;
                    session.on_word(Ok(t.mem[off..off + word].to_vec()))
                }
            }
            TraceOp::Detach => {
                t.attached = false;
                t.stopped = false;
                session.on_status(Ok(()))
            }
            TraceOp::Resume => {
                t.stopped = false;
                session.on_status(Ok(()))
            }
        };
        match step {
            Step::Issue(next) => op = next,
            Step::Finished(r) => {
                assert!(session.is_finished());
                return r;
            }
        }
    }
}

fn memory(n: usize) -> Vec<u8> {
    (0..n).map(|i| (i * 7 + 3) as u8).collect()
}

#[test]
fn capture_reads_ceil_words_and_returns_exact_bytes() {
    for word in [4usize, 8] {
        for size in 1..=40usize {
            let base = 0x1000u64;
            let mut t = Tracee::new(base, memory(64));
            let mut s = TraceSession::new(base, size, word);
            let r = run(&mut s, &mut t, word).unwrap();
            assert_eq!(r, t.mem[..size].to_vec());
            assert_eq!(t.reads.len(), (size + word - 1) / word);
            for w in t.reads.windows(2) {
                assert!(w[0] < w[1]);
            }
            if size >= word {
                assert!(t.reads.iter().all(|a| a - base + word as u64 <= size as u64));
            }
            assert!(!t.stopped && !t.attached);
        }
    }
}

#[test]
fn capture_shifts_last_window_back() {
    let base = 0x2000u64;
    let mut t = Tracee::new(base, memory(32));
    let mut s = TraceSession::new(base, 13, 8);
    let r = run(&mut s, &mut t, 8).unwrap();
    assert_eq!(t.reads, vec![0x2000, 0x2005]);
    assert_eq!(r.len(), 13);
}

#[test]
fn small_object_reads_one_word_and_truncates() {
    let base = 0x3000u64;
    let mut t = Tracee::new(base, memory(16));
    let mut s = TraceSession::new(base, 3, 8);
    let r = run(&mut s, &mut t, 8).unwrap();
    assert_eq!(t.reads, vec![0x3000]);
    assert_eq!(r, t.mem[..3].to_vec());
}

#[test]
fn capture_of_an_int_gives_its_native_bytes() {
    let base = 0x4010u64;
    let mut mem = 42i32.to_ne_bytes().to_vec();
    mem.extend_from_slice(&[0xaa; 12]);
    let mut t = Tracee::new(base, mem);
    let mut s = TraceSession::new(base, 4, 8);
    let r = run(&mut s, &mut t, 8).unwrap();
    assert_eq!(r, 42i32.to_ne_bytes().to_vec());
}

#[test]
fn attach_failure_never_attaches() {
    let mut t = Tracee::new(0, memory(16));
    t.fail_attach = true;
    let mut s = TraceSession::new(0, 8, 8);
    let r = run(&mut s, &mut t, 8);
    assert_eq!(r, Err(TraceError { stage: TraceStage::Attach, code: 1 }));
    assert!(!t.attached && !t.stopped);
    assert!(t.reads.is_empty());
}

#[test]
fn wait_failure_resumes_before_reporting() {
    let mut t = Tracee::new(0, memory(16));
    t.fail_wait = true;
    let mut s = TraceSession::new(0, 8, 8);
    let r = run(&mut s, &mut t, 8);
    assert_eq!(r, Err(TraceError { stage: TraceStage::Wait, code: 4 }));
    assert!(!t.stopped);
    assert!(t.reads.is_empty());
}

#[test]
fn read_failure_at_every_chunk_resumes() {
    for k in 0..4usize {
        let mut t = Tracee::new(0x100, memory(64));
        t.fail_read_at = Some(k);
        let mut s = TraceSession::new(0x100, 30, 8);
        let r = run(&mut s, &mut t, 8);
        assert_eq!(r, Err(TraceError { stage: TraceStage::Read, code: 14 }));
        assert!(!t.stopped);
        assert_eq!(t.reads.len(), k + 1);
    }
}

#[test]
fn detach_failure_is_reported() {
    let mut s = TraceSession::new(0x10, 4, 4);
    assert_eq!(s.start(), TraceOp::Attach);
    assert!(matches!(s.on_status(Ok(())), Step::Issue(TraceOp::WaitStop)));
    assert!(matches!(s.on_status(Ok(())), Step::Issue(TraceOp::ReadWord(0x10))));
    assert!(matches!(s.on_word(Ok(vec![1, 2, 3, 4])), Step::Issue(TraceOp::Detach)));
    match s.on_status(Err(3)) {
        Step::Finished(r) => assert_eq!(r, Err(TraceError { stage: TraceStage::Detach, code: 3 })),
        Step::Issue(_) => panic!("session should have finished"),
    }
}

#[test]
fn resume_failure_is_reported() {
    let mut s = TraceSession::new(0x10, 4, 4);
    s.start();
    s.on_status(Ok(()));
    assert!(matches!(s.on_status(Err(9)), Step::Issue(TraceOp::Resume)));
    match s.on_status(Err(5)) {
        Step::Finished(r) => assert_eq!(r, Err(TraceError { stage: TraceStage::Resume, code: 5 })),
        Step::Issue(_) => panic!("session should have finished"),
    }
}
