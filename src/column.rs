use vstd::prelude::*;

verus! {

/// An insertion or a deletion, with its length, or neither.
#[derive(PartialEq, Eq, Structural, Debug, Clone, Copy)]
pub enum Indel {
    Ins(u32),
    Del(u32),
    NoIndel,
}

/// How the engine's signed length reads: negative is a deletion, positive an
/// insertion, zero no indel; the length is the magnitude.
pub open spec fn indel_of(raw: i32) -> Indel {
    if raw < 0 {
        Indel::Del((-raw) as u32)
    } else if raw > 0 {
        Indel::Ins(raw as u32)
    } else {
        Indel::NoIndel
    }
}

/// One aligned read of a pileup column: its position within the read, the
/// engine's raw indel length there, and a handle to the read's record.
pub struct Alignment<R> {
    qpos: usize,
    indel: i32,
    record: R,
}

impl<R> Alignment<R> {
    pub closed spec fn qpos_spec(&self) -> usize {
        self.qpos
    }

    pub closed spec fn raw_indel_spec(&self) -> i32 {
        self.indel
    }

    pub closed spec fn record_spec(&self) -> R {
        self.record
    }

    pub fn new(qpos: usize, indel: i32, record: R) -> (r: Self)
        ensures
            r.qpos_spec() == qpos,
            r.raw_indel_spec() == indel,
            r.record_spec() == record,
    {
        Alignment { qpos, indel, record }
    }

    /// Position within the read.
    pub fn qpos(&self) -> (r: usize)
        ensures
            r == self.qpos_spec(),
    {
        self.qpos
    }

    /// Insertion, deletion (with length) or `Indel::NoIndel` if no indel.
    pub fn indel(&self) -> (r: Indel)
        ensures
            r == indel_of(self.raw_indel_spec()),
    {
        let len = self.indel;
        if len < 0 {
            let magnitude: i64 = 0i64 - (len as i64);
            Indel::Del(magnitude as u32)
        } else if len > 0 {
            Indel::Ins(len as u32)
        } else {
            Indel::NoIndel
        }
    }

    /// The handle to the corresponding record.
    pub fn record(&self) -> (r: &R)
        ensures
            *r == self.record_spec(),
    {
        &self.record
    }
}

/// A pileup over one genomic position: the reference id, the 0-based
/// position, the depth, and exactly `depth` alignments.
pub struct Pileup<R> {
    inner: Vec<Alignment<R>>,
    depth: u32,
    tid: u32,
    pos: u32,
}

impl<R> Pileup<R> {
    #[verifier::type_invariant]
    spec fn inv(&self) -> bool {
        self.inner@.len() == self.depth
    }

    pub closed spec fn tid_spec(&self) -> u32 {
        self.tid
    }

    pub closed spec fn pos_spec(&self) -> u32 {
        self.pos
    }

    pub closed spec fn depth_spec(&self) -> u32 {
        self.depth
    }

    pub closed spec fn alignments_spec(&self) -> Seq<Alignment<R>> {
        self.inner@
    }

    /// Builds a column from the values the engine handed out for it.
    pub fn new(tid: u32, pos: u32, depth: u32, inner: Vec<Alignment<R>>) -> (r: Self)
        requires
            inner@.len() == depth,
        ensures
            r.tid_spec() == tid,
            r.pos_spec() == pos,
            r.depth_spec() == depth,
            r.alignments_spec() == inner@,
    {
        Pileup { inner, depth, tid, pos }
    }

    pub fn tid(&self) -> (r: u32)
        ensures
            r == self.tid_spec(),
    {
        self.tid
    }

    pub fn pos(&self) -> (r: u32)
        ensures
            r == self.pos_spec(),
    {
        self.pos
    }

    pub fn depth(&self) -> (r: u32)
        ensures
            r == self.depth_spec(),
    {
        self.depth
    }

    /// The column's alignments: exactly `depth` of them, as handed in.
    pub fn alignments(&self) -> (r: &[Alignment<R>])
        ensures
            r@ == self.alignments_spec(),
            r@.len() == self.depth_spec(),
    {
        proof {
            use_type_invariant(self);
        }
        self.inner.as_slice()
    }
}

} // verus!
