//! The decisions of the panic path. The caller feeds in what happens (the
//! panic, the captured registers, each frame from the unwinder, the end of
//! the frames) and performs what comes back: lines to print and, last of all,
//! the halt.

use vstd::prelude::*;
use crate::render::{frame_line, frame_line_spec, panic_line, panic_line_spec};
use crate::symbols::Symbolizer;

verus! {

/// Status handed to the shutdown primitive: non-zero, as the end is abnormal.
pub const SHUTDOWN_CODE: usize = 255;

/// One level of the call stack.
#[derive(Clone, Copy, Debug, PartialEq, Eq, Structural)]
pub struct CallFrame {
    pub pc: usize,
    pub sp: usize,
    pub fp: usize,
}

/// Where the panic path stands: reporting the message, unwinding the
/// frames, or halted for good.
#[derive(Clone, Copy, Debug, PartialEq, Eq, Structural)]
pub enum Phase {
    Reporting,
    Unwinding,
    Halted,
}

/// What happens on the panic path.
pub enum Event {
    /// The panic itself: where it happened (file and line), if known, and
    /// its message.
    Panic { location: Option<(Vec<u8>, u32)>, message: Vec<u8> },
    /// The registers captured at the panic site, as the first frame.
    Captured(CallFrame),
    /// A frame recovered by the unwinder.
    Frame(CallFrame),
    /// The unwinder can recover no further frame.
    Finished,
}

/// What the caller has to do: print `lines` in order, then, when `shutdown`
/// is set, shut down with `SHUTDOWN_CODE`.
pub struct Output {
    pub lines: Vec<Vec<u8>>,
    pub shutdown: bool,
}

/// The lines `lines` hold, in order, the texts `expected`.
pub open spec fn lines_match(lines: Seq<Vec<u8>>, expected: Seq<Seq<u8>>) -> bool {
    &&& lines.len() == expected.len()
    &&& forall|i: int| 0 <= i < lines.len() ==> #[trigger] lines[i]@ == expected[i]
}

pub open spec fn location_view(location: Option<(Vec<u8>, u32)>) -> Option<(Seq<u8>, nat)> {
    match location {
        Some((file, line)) => Some((file@, line as nat)),
        None => None,
    }
}

/// The state of the panic path.
pub struct Reporter {
    symbolizer: Symbolizer,
    phase: Phase,
    first: Option<CallFrame>,
    any_frame: bool,
    /// Addresses of the frame lines handed out so far, in order.
    frames: Ghost<Seq<usize>>,
    /// Number of times a shutdown was handed out.
    halts: Ghost<nat>,
}

impl Reporter {
    pub closed spec fn spec_symbolizer(&self) -> Symbolizer {
        self.symbolizer
    }

    pub closed spec fn spec_phase(&self) -> Phase {
        self.phase
    }

    /// The first frame, once the registers at the panic site are captured.
    pub closed spec fn spec_first(&self) -> Option<CallFrame> {
        self.first
    }

    pub closed spec fn spec_frames(&self) -> Seq<usize> {
        self.frames@
    }

    pub closed spec fn spec_halts(&self) -> nat {
        self.halts@
    }

    /// The phases follow one another in order, the halt is handed out only on
    /// entering `Halted`, and frame lines begin with the captured frame.
    pub closed spec fn wf(&self) -> bool {
        &&& self.symbolizer.wf()
        &&& self.any_frame == (self.frames@.len() > 0)
        &&& self.frames@.len() > 0 ==> self.first is Some && self.frames@[0]
            == self.first->0.pc
        &&& self.phase == Phase::Reporting ==> self.first is None && self.halts@ == 0
        &&& self.phase == Phase::Unwinding ==> self.halts@ == 0
        &&& self.phase == Phase::Halted ==> self.halts@ == 1 && (self.first is Some
            ==> self.frames@.len() > 0)
    }

    /// The line for a frame at `pc`, resolved through this reporter's tables.
    pub open spec fn frame_text(&self, pc: usize) -> Seq<u8> {
        frame_line_spec(
            pc as nat,
            match self.spec_symbolizer().resolve_spec(pc as int) {
                Some((name, inner)) => Some((name, inner as nat)),
                None => None,
            },
        )
    }

    /// A panic path that has not yet reported anything, resolving addresses
    /// through `symbolizer`.
    pub fn new(symbolizer: Symbolizer) -> (r: Reporter)
        requires
            symbolizer.wf(),
        ensures
            r.wf(),
            r.spec_symbolizer() == symbolizer,
            r.spec_phase() == Phase::Reporting,
            r.spec_first() is None,
            r.spec_frames().len() == 0,
            r.spec_halts() == 0,
    {
        Reporter {
            symbolizer,
            phase: Phase::Reporting,
            first: None,
            any_frame: false,
            frames: Ghost(Seq::empty()),
            halts: Ghost(0),
        }
    }

    /// The line of the frame `f`.
    fn line_for(&self, f: CallFrame) -> (r: Vec<u8>)
        requires
            self.symbolizer.wf(),
        ensures
            r@ == self.frame_text(f.pc),
    {
        match self.symbolizer.resolve(f.pc) {
            Some((name, inner)) => frame_line(f.pc, Some((name.as_slice(), inner))),
            None => frame_line(f.pc, None),
        }
    }

    /// Shuts the panic path down, first reporting the captured frame if no
    /// frame line has been handed out yet.
    fn halt(&mut self) -> (out: Output)
        requires
            old(self).wf(),
            old(self).phase == Phase::Unwinding,
        ensures
            final(self).wf(),
            final(self).symbolizer == old(self).symbolizer,
            final(self).phase == Phase::Halted,
            final(self).first == old(self).first,
            final(self).halts@ == old(self).halts@ + 1,
            out.shutdown,
            match old(self).first {
                Some(c) => if old(self).frames@.len() == 0 {
                    lines_match(out.lines@, seq![old(self).frame_text(c.pc)])
                        && final(self).frames@ == seq![c.pc]
                } else {
                    out.lines@.len() == 0 && final(self).frames@ == old(self).frames@
                },
                None => out.lines@.len() == 0 && final(self).frames@ == old(self).frames@,
            },
    {
        let mut lines: Vec<Vec<u8>> = Vec::new();
        match self.first {
            Some(c) => if !self.any_frame {
                lines.push(self.line_for(c));
                self.any_frame = true;
                self.frames = Ghost(Seq::empty().push(c.pc));
                assert(lines_match(lines@, seq![old(self).frame_text(c.pc)]));
            },
            None => {},
        }
        self.phase = Phase::Halted;
        self.halts = Ghost(self.halts@ + 1);
        Output { lines, shutdown: true }
    }

    /// Decides what follows `ev`.
    pub fn step(&mut self, ev: Event) -> (out: Output)
        requires
            old(self).wf(),
        ensures
            final(self).wf(),
            final(self).spec_symbolizer() == old(self).spec_symbolizer(),
            old(self).spec_frames().is_prefix_of(final(self).spec_frames()),
            out.shutdown <==> final(self).spec_halts() == old(self).spec_halts() + 1,
            !out.shutdown ==> final(self).spec_halts() == old(self).spec_halts(),
            out.shutdown ==> final(self).spec_phase() == Phase::Halted,
            old(self).spec_phase() == Phase::Halted ==> out.lines@.len() == 0 && !out.shutdown
                && final(self).spec_phase() == Phase::Halted && final(self).spec_frames()
                == old(self).spec_frames(),
            match (old(self).spec_phase(), ev) {
                (Phase::Reporting, Event::Panic { location, message }) => {
                    &&& lines_match(out.lines@, seq![
                        panic_line_spec(location_view(location), message@),
                    ])
                    &&& !out.shutdown
                    &&& final(self).spec_phase() == Phase::Unwinding
                    &&& final(self).spec_first() is None
                    &&& final(self).spec_frames() == old(self).spec_frames()
                },
                (Phase::Unwinding, Event::Captured(f)) => {
                    &&& out.lines@.len() == 0
                    &&& !out.shutdown
                    &&& final(self).spec_phase() == Phase::Unwinding
                    &&& final(self).spec_frames() == old(self).spec_frames()
                    &&& final(self).spec_first() == if old(self).spec_first() is None {
                        Some(f)
                    } else {
                        old(self).spec_first()
                    }
                },
                (Phase::Unwinding, Event::Frame(f)) => match old(self).spec_first() {
                    Some(c) => {
                        &&& !out.shutdown
                        &&& final(self).spec_phase() == Phase::Unwinding
                        &&& final(self).spec_first() == old(self).spec_first()
                        &&& if old(self).spec_frames().len() == 0 && f != c {
                            &&& lines_match(out.lines@, seq![
                                old(self).frame_text(c.pc),
                                old(self).frame_text(f.pc),
                            ])
                            &&& final(self).spec_frames() == seq![c.pc, f.pc]
                        } else {
                            &&& lines_match(out.lines@, seq![old(self).frame_text(f.pc)])
                            &&& final(self).spec_frames() == old(self).spec_frames().push(f.pc)
                        }
                    },
                    None => {
                        &&& out.lines@.len() == 0
                        &&& !out.shutdown
                        &&& final(self).spec_phase() == Phase::Unwinding
                        &&& final(self).spec_first() is None
                        &&& final(self).spec_frames() == old(self).spec_frames()
                    },
                },
                (Phase::Unwinding, Event::Finished) | (Phase::Unwinding, Event::Panic { .. }) => {
                    &&& out.shutdown
                    &&& final(self).spec_first() == old(self).spec_first()
                    &&& match old(self).spec_first() {
                        Some(c) => if old(self).spec_frames().len() == 0 {
                            &&& lines_match(out.lines@, seq![old(self).frame_text(c.pc)])
                            &&& final(self).spec_frames() == seq![c.pc]
                        } else {
                            &&& out.lines@.len() == 0
                            &&& final(self).spec_frames() == old(self).spec_frames()
                        },
                        None => {
                            &&& out.lines@.len() == 0
                            &&& final(self).spec_frames() == old(self).spec_frames()
                        },
                    }
                },
                (Phase::Halted, _) => true,
                _ => {
                    &&& out.lines@.len() == 0
                    &&& !out.shutdown
                    &&& final(self).spec_phase() == old(self).spec_phase()
                    &&& final(self).spec_first() == old(self).spec_first()
                    &&& final(self).spec_frames() == old(self).spec_frames()
                },
            },
    {
        let ghost frames0 = self.frames@;
        let mut lines: Vec<Vec<u8>> = Vec::new();
        match self.phase {
            Phase::Reporting => match ev {
                Event::Panic { location, message } => {
                    let line = match &location {
                        Some((file, line)) => panic_line(
                            Some((file.as_slice(), *line)),
                            message.as_slice(),
                        ),
                        None => panic_line(None, message.as_slice()),
                    };
                    lines.push(line);
                    self.phase = Phase::Unwinding;
                    assert(lines_match(lines@, seq![
                        panic_line_spec(location_view(location), message@),
                    ]));
                },
                _ => {},
            },
            Phase::Unwinding => match ev {
                Event::Captured(f) => {
                    if self.first.is_none() {
                        self.first = Some(f);
                    }
                },
                Event::Frame(f) => match self.first {
                    Some(c) => {
                        if !self.any_frame && f != c {
                            lines.push(self.line_for(c));
                            lines.push(self.line_for(f));
                            self.frames = Ghost(Seq::empty().push(c.pc).push(f.pc));
                            assert(lines_match(lines@, seq![
                                old(self).frame_text(c.pc),
                                old(self).frame_text(f.pc),
                            ]));
                        } else {
                            lines.push(self.line_for(f));
                            self.frames = Ghost(self.frames@.push(f.pc));
                            assert(lines_match(lines@, seq![old(self).frame_text(f.pc)]));
                        }
                        self.any_frame = true;
                    },
                    None => {},
                },
                _ => {
                    return self.halt();
                },
            },
            Phase::Halted => {},
        }
        assert(frames0.is_prefix_of(self.frames@));
        Output { lines, shutdown: false }
    }
}

/// Once the panic path has halted, it handed out the shutdown exactly once,
/// and, if the registers at the panic site were captured, at least one frame
/// line, the first of which is the captured frame's.
pub proof fn lemma_halted(r: Reporter)
    requires
        r.wf(),
        r.spec_phase() == Phase::Halted,
    ensures
        r.spec_halts() == 1,
        r.spec_first() is Some ==> r.spec_frames().len() > 0 && r.spec_frames()[0]
            == r.spec_first()->0.pc,
{
}

/// Frame lines, once handed out, always begin with the captured first frame.
pub proof fn lemma_frames_begin_with_first(r: Reporter)
    requires
        r.wf(),
        r.spec_frames().len() > 0,
    ensures
        r.spec_first() is Some,
        r.spec_frames()[0] == r.spec_first()->0.pc,
{
}

} // verus!
