//! The decision core of the streaming writer: given the number of bytes of
//! the unit just read, decide whether to stop, whether to echo the unit, and
//! whether a rotation is due before the unit is written.
use vstd::prelude::*;

verus! {

/// Whether reading a unit of `n` bytes triggers a rotation, with `sz` bytes
/// counted since the last rotation and a limit of `lim` bytes: the counter
/// reaches or exceeds the limit, and the read was not the empty end-of-stream
/// read.
pub open spec fn rotation_due(lim: int, sz: int, n: int) -> bool {
    n > 0 && sz + n >= lim
}

/// The byte counter after a read of `n` bytes: reset to zero when a rotation
/// is due (the unit itself is then written to the fresh file and not
/// counted), the running total otherwise.
pub open spec fn next_sz(lim: int, sz: int, n: int) -> int {
    if rotation_due(lim, sz, n) {
        0
    } else {
        sz + n
    }
}

/// Whether a unit of `n` bytes is echoed to the output stream: every
/// non-empty unit is, exactly when the tee option is on.
pub open spec fn echoes(tee: bool, n: int) -> bool {
    tee && n > 0
}

/// What the writer does with the unit just read.
#[derive(PartialEq, Eq, Structural, Debug)]
pub enum Decision {
    /// The read returned no bytes: end of stream, stop cleanly.
    Stop,
    /// Write the unit to the primary file; echo it first if `echo`, and
    /// rotate the files (sync, rename, reopen) before writing if `rotate`.
    Write { echo: bool, rotate: bool },
}

/// The state of the streaming writer between reads.
pub struct Writer {
    /// The size limit in bytes: reaching or exceeding it triggers rotation.
    pub file_sz_lim: u64,
    /// Whether input is echoed to the output stream as well.
    pub tee: bool,
    /// Bytes read since the file was created or last rotated.
    pub file_sz: u64,
}

impl Writer {
    /// A fresh writer: nothing counted yet.
    pub fn new(file_sz_lim: u64, tee: bool) -> (w: Writer)
        ensures
            w.file_sz_lim == file_sz_lim,
            w.tee == tee,
            w.file_sz == 0,
    {
        Writer { file_sz_lim, tee, file_sz: 0 }
    }

    /// Account a read of `n` bytes and decide what to do with it: stop on the
    /// empty end-of-stream read, otherwise write the unit, echoing it exactly
    /// when tee is on and rotating first exactly when the counter has reached
    /// the limit. The counter is reset on rotation, before the unit is
    /// written.
    pub fn on_read(&mut self, n: u64) -> (d: Decision)
        requires
            old(self).file_sz + n <= u64::MAX,
        ensures
            final(self).file_sz_lim == old(self).file_sz_lim,
            final(self).tee == old(self).tee,
            final(self).file_sz == next_sz(
                old(self).file_sz_lim as int,
                old(self).file_sz as int,
                n as int,
            ),
            n == 0 ==> d == Decision::Stop,
            n > 0 ==> d == (Decision::Write {
                echo: echoes(old(self).tee, n as int),
                rotate: rotation_due(old(self).file_sz_lim as int, old(self).file_sz as int, n as int),
            }),
    {
        self.file_sz = self.file_sz + n;
        if n == 0 {
            return Decision::Stop;
        }
        let rotate = self.file_sz >= self.file_sz_lim;
        if rotate {
            self.file_sz = 0;
        }
        Decision::Write { echo: self.tee, rotate }
    }
}

/// The units echoed to the output stream when the given units are read in
/// order: each unit for which `echoes` holds, in reading order.
pub open spec fn echoed_lines(tee: bool, lines: Seq<Seq<u8>>) -> Seq<Seq<u8>>
    decreases lines.len(),
{
    if lines.len() == 0 {
        Seq::empty()
    } else if echoes(tee, lines[0].len() as int) {
        seq![lines[0]] + echoed_lines(tee, lines.drop_first())
    } else {
        echoed_lines(tee, lines.drop_first())
    }
}

/// With tee on, every non-empty input unit appears on the output stream
/// exactly once, in its original order, whatever rotations happen in between
/// (the echo decision never depends on the byte counter).
pub proof fn lemma_tee_echoes_stream(lines: Seq<Seq<u8>>)
    requires
        forall|i: int| 0 <= i < lines.len() ==> (#[trigger] lines[i]).len() > 0,
    ensures
        echoed_lines(true, lines) == lines,
        echoed_lines(false, lines) == Seq::<Seq<u8>>::empty(),
    decreases lines.len(),
{
    if lines.len() == 0 {
        assert(echoed_lines(true, lines) =~= lines);
        assert(echoed_lines(false, lines) =~= Seq::<Seq<u8>>::empty());
    } else {
        lemma_tee_echoes_stream(lines.drop_first());
        assert(echoed_lines(true, lines) =~= lines);
        assert(echoed_lines(false, lines) =~= Seq::<Seq<u8>>::empty());
    }
}

} // verus!
