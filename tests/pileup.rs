use htslib_pileup::column::{Alignment, Indel, Pileup};
use htslib_pileup::pileups::{EngineCall, EngineReply, Phase, PileupError, Pileups};

/// A scripted engine: hands out the replies in order and logs each call made on it.
struct FakeEngine {
    replies: Vec<EngineReply<u64>>,
    next: usize,
    log: Vec<String>,
}

impl FakeEngine {
    fn new(replies: Vec<EngineReply<u64>>) -> Self {
        FakeEngine { replies, next: 0, log: Vec::new() }
    }

    fn next_column(&mut self) -> EngineReply<u64> {
        self.log.push("next".to_string());
        let i = self.next;
        self.next += 1;
        if i < self.replies.len() {
            std::mem::replace(
                &mut self.replies[i],
                EngineReply { column: None, tid: 0, pos: 0, depth: 0 },
            )
        } else {
            EngineReply { column: None, tid: 0, pos: 0, depth: 0 }
        }
    }

    fn perform(&mut self, call: EngineCall) {
        match call {
            EngineCall::SetMaxDepth(k) => self.log.push(format!("maxcnt {}", k)),
            EngineCall::ResetBuffer => self.log.push("reset".to_string()),
            EngineCall::Destroy => self.log.push("destroy".to_string()),
        }
    }
}

fn pull(walk: &mut Pileups, engine: &mut FakeEngine) -> Option<Result<Pileup<u64>, PileupError>> {
    if !walk.needs_engine() {
        return None;
    }
    let reply = engine.next_column();
    walk.advance(reply)
}

fn release(walk: &mut Pileups, engine: &mut FakeEngine) {
    for call in walk.teardown() {
        engine.perform(call);
    }
}

fn column(tid: i32, pos: i32, depth: i32) -> EngineReply<u64> {
    let mut alignments = Vec::new();
    for i in 0..depth {
        alignments.push(Alignment::new(i as usize, 0, (tid as u64) * 1000 + i as u64));
    }
    EngineReply { column: Some(alignments), tid, pos, depth }
}

fn end() -> EngineReply<u64> {
    EngineReply { column: None, tid: 0, pos: 0, depth: 0 }
}

fn failure() -> EngineReply<u64> {
    EngineReply { column: None, tid: 0, pos: 0, depth: -1 }
}

fn count(log: &[String], what: &str) -> usize {
    log.iter().filter(|s| s.as_str() == what).count()
}

#[test]
fn columns_then_end_of_data() {
    let mut engine = FakeEngine::new(vec![column(0, 5, 2), column(0, 6, 1), column(1, 0, 3), end()]);
    let mut walk = Pileups::new();
    let mut seen = Vec::new();
    for _ in 0..3 {
        match pull(&mut walk, &mut engine) {
            Some(Ok(c)) => seen.push((c.tid(), c.pos(), c.depth())),
            _ => panic!("expected a column"),
        }
    }
    assert_eq!(seen, vec![(0, 5, 2), (0, 6, 1), (1, 0, 3)]);
    assert!(pull(&mut walk, &mut engine).is_none());
    assert_eq!(walk.phase, Phase::Exhausted);
    assert!(seen.windows(2).all(|w| (w[0].0, w[0].1) <= (w[1].0, w[1].1)));
    assert_eq!(count(&engine.log, "next"), 4);
}

#[test]
fn empty_engine_ends_at_once() {
    let mut engine = FakeEngine::new(vec![end()]);
    let mut walk = Pileups::new();
    assert!(pull(&mut walk, &mut engine).is_none());
    assert!(pull(&mut walk, &mut engine).is_none());
    assert_eq!(count(&engine.log, "next"), 1);
}

#[test]
fn null_with_other_depth_is_end_not_error() {
    let mut engine = FakeEngine::new(vec![EngineReply { column: None, tid: 3, pos: 9, depth: -2 }]);
    let mut walk = Pileups::new();
    assert!(pull(&mut walk, &mut engine).is_none());
    assert_eq!(walk.phase, Phase::Exhausted);
}

#[test]
fn error_is_terminal() {
    let mut engine = FakeEngine::new(vec![column(0, 1, 1), column(0, 2, 1), failure(), column(0, 3, 1)]);
    let mut walk = Pileups::new();
    assert!(matches!(pull(&mut walk, &mut engine), Some(Ok(_))));
    assert!(matches!(pull(&mut walk, &mut engine), Some(Ok(_))));
    match pull(&mut walk, &mut engine) {
        Some(Err(e)) => {
            assert_eq!(e, PileupError::Generation);
            assert_eq!(e.description(), "error generating pileup");
        }
        _ => panic!("expected the error"),
    }
    assert_eq!(walk.phase, Phase::Failed);
    for _ in 0..3 {
        assert!(pull(&mut walk, &mut engine).is_none());
    }
    assert_eq!(count(&engine.log, "next"), 3);
}

#[test]
fn error_on_first_pull() {
    let mut engine = FakeEngine::new(vec![failure()]);
    let mut walk = Pileups::new();
    assert!(matches!(pull(&mut walk, &mut engine), Some(Err(PileupError::Generation))));
    assert!(pull(&mut walk, &mut engine).is_none());
}

#[test]
fn depth_matches_alignments() {
    let mut engine = FakeEngine::new(vec![column(2, 40, 3), column(2, 41, 0)]);
    let mut walk = Pileups::new();
    let c = pull(&mut walk, &mut engine).unwrap().unwrap();
    assert_eq!(c.depth(), 3);
    assert_eq!(c.alignments().len(), 3);
    let qpos: Vec<usize> = c.alignments().iter().map(|a| a.qpos()).collect();
    assert_eq!(qpos, vec![0, 1, 2]);
    assert_eq!(*c.alignments()[2].record(), 2002);
    let c = pull(&mut walk, &mut engine).unwrap().unwrap();
    assert_eq!(c.depth(), 0);
    assert!(c.alignments().is_empty());
}

#[test]
fn negative_slots_read_as_unsigned() {
    let mut engine = FakeEngine::new(vec![EngineReply { column: Some(Vec::new()), tid: -1, pos: -2, depth: 0 }]);
    let mut walk = Pileups::new();
    let c = pull(&mut walk, &mut engine).unwrap().unwrap();
    assert_eq!(c.tid(), u32::MAX);
    assert_eq!(c.pos(), u32::MAX - 1);
}

#[test]
fn indel_decoding() {
    let cases: [(i32, Indel); 8] = [
        (-5, Indel::Del(5)),
        (7, Indel::Ins(7)),
        (0, Indel::NoIndel),
        (-1, Indel::Del(1)),
        (1, Indel::Ins(1)),
        (i32::MAX, Indel::Ins(2147483647)),
        (i32::MIN, Indel::Del(2147483648)),
        (-2147483647, Indel::Del(2147483647)),
    ];
    for (raw, want) in cases {
        assert_eq!(Alignment::new(0, raw, 0u64).indel(), want);
    }
}

#[test]
fn alignment_accessors() {
    let a = Alignment::new(17, -3, "read".to_string());
    assert_eq!(a.qpos(), 17);
    assert_eq!(a.indel(), Indel::Del(3));
    assert_eq!(a.record(), "read");
}

#[test]
fn column_accessors() {
    let c = Pileup::new(4, 1234, 1, vec![Alignment::new(8, 2, 9u64)]);
    assert_eq!((c.tid(), c.pos(), c.depth()), (4, 1234, 1));
    assert_eq!(c.alignments()[0].indel(), Indel::Ins(2));
}

#[test]
fn teardown_after_exhaustion() {
    let mut engine = FakeEngine::new(vec![column(0, 0, 1), end()]);
    let mut walk = Pileups::new();
    while let Some(r) = pull(&mut walk, &mut engine) {
        assert!(r.is_ok());
    }
    release(&mut walk, &mut engine);
    release(&mut walk, &mut engine);
    assert_eq!(engine.log, vec!["next", "next", "reset", "destroy"]);
}

#[test]
fn teardown_after_error() {
    let mut engine = FakeEngine::new(vec![failure()]);
    let mut walk = Pileups::new();
    assert!(matches!(pull(&mut walk, &mut engine), Some(Err(_))));
    release(&mut walk, &mut engine);
    release(&mut walk, &mut engine);
    assert_eq!(engine.log, vec!["next", "reset", "destroy"]);
}

#[test]
fn teardown_after_abandoning() {
    let mut engine = FakeEngine::new(vec![column(0, 0, 1), column(0, 1, 1), end()]);
    let mut walk = Pileups::new();
    assert!(matches!(pull(&mut walk, &mut engine), Some(Ok(_))));
    release(&mut walk, &mut engine);
    assert_eq!(walk.phase, Phase::Active);
    assert!(pull(&mut walk, &mut engine).is_none());
    release(&mut walk, &mut engine);
    assert_eq!(engine.log, vec!["next", "reset", "destroy"]);
    assert!(walk.teardown().is_empty());
}

#[test]
fn teardown_before_any_pull() {
    let mut walk = Pileups::new();
    assert_eq!(walk.teardown(), vec![EngineCall::ResetBuffer, EngineCall::Destroy]);
    assert!(walk.teardown().is_empty());
}

#[test]
fn max_depth_forwarded_unchanged() {
    let mut engine = FakeEngine::new(vec![column(0, 0, 1), column(0, 1, 1), end()]);
    let mut walk = Pileups::new();
    for k in [8000u32, 0, 1, u32::MAX] {
        let call = walk.set_max_depth(k);
        assert_eq!(call, Some(EngineCall::SetMaxDepth(k)));
        engine.perform(call.unwrap());
    }
    assert!(matches!(pull(&mut walk, &mut engine), Some(Ok(_))));
    let call = walk.set_max_depth(250).unwrap();
    engine.perform(call);
    assert!(matches!(pull(&mut walk, &mut engine), Some(Ok(_))));
    assert!(pull(&mut walk, &mut engine).is_none());
    assert_eq!(walk.set_max_depth(3), Some(EngineCall::SetMaxDepth(3)));
    release(&mut walk, &mut engine);
    assert_eq!(walk.set_max_depth(3), None);
    assert_eq!(count(&engine.log, "maxcnt 250"), 1);
    assert_eq!(count(&engine.log, &format!("maxcnt {}", u32::MAX)), 1);
}

