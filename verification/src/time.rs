//! The frame loop's bookkeeping: the timestamps of the last frames drawn,
//! from which the frame rate is measured, and what to do on each frame.
use vstd::prelude::*;

verus! {

/// How many timestamps the frame rate is measured over.
pub const FRAMERATE_WINDOW: usize = 32;

/// A ring of the last `FRAMERATE_WINDOW` timestamps recorded; before that
/// many were recorded, the ring holds the value it was made with.
pub struct Framerate<T> {
    buf: Vec<T>,
    index: usize,
}

impl<T: Copy> Framerate<T> {
    pub closed spec fn wf(&self) -> bool {
        &&& self.buf.len() == FRAMERATE_WINDOW
        &&& self.index < FRAMERATE_WINDOW
    }

    /// The timestamps held, oldest first.
    pub closed spec fn window(&self) -> Seq<T> {
        Seq::new(
            FRAMERATE_WINDOW as nat,
            |i: int| self.buf[(self.index + i) % (FRAMERATE_WINDOW as int)],
        )
    }

    /// A ring that holds `start` in every place.
    pub fn new(start: T) -> (f: Self)
        ensures
            f.wf(),
            f.window() == Seq::new(FRAMERATE_WINDOW as nat, |i: int| start),
    {
        let mut buf: Vec<T> = Vec::new();
        while buf.len() < FRAMERATE_WINDOW
            invariant
                buf.len() <= FRAMERATE_WINDOW,
                forall|i: int| 0 <= i < buf.len() ==> buf[i] == start,
            decreases FRAMERATE_WINDOW - buf.len(),
        {
            buf.push(start);
        }
        let f = Framerate { buf, index: 0 };
        assert(f.window() =~= Seq::new(FRAMERATE_WINDOW as nat, |i: int| start));
        f
    }

    /// Records `t`; the oldest timestamp leaves the window.
    pub fn record_timestamp(&mut self, t: T)
        requires
            old(self).wf(),
        ensures
            final(self).wf(),
            final(self).window() == old(self).window().drop_first().push(t),
    {
        self.buf.set(self.index, t);
        self.index = (self.index + 1) % FRAMERATE_WINDOW;
        proof {
            let n: int = FRAMERATE_WINDOW as int;
            let o: int = old(self).index as int;
            assert forall|i: int| 0 <= i < n implies #[trigger] self.window()[i] == old(self).window().drop_first().push(t)[i] by {
                if i < n - 1 {
                    assert((self.index + i) % n == (o + 1 + i) % n);
                    assert((o + 1 + i) % n != o);
                } else {
                    assert((self.index + i) % n == o);
                }
            }
            assert(self.window() =~= old(self).window().drop_first().push(t));
        }
    }

    /// The oldest timestamp held.
    pub fn first(&self) -> (t: T)
        requires
            self.wf(),
        ensures
            t == self.window()[0],
    {
        self.buf[self.index]
    }

    /// The newest timestamp held.
    pub fn last(&self) -> (t: T)
        requires
            self.wf(),
        ensures
            t == self.window()[FRAMERATE_WINDOW - 1],
    {
        self.buf[(self.index + (FRAMERATE_WINDOW - 1)) % FRAMERATE_WINDOW]
    }
}

/// Something the frame loop runs until it says it is done.
pub trait LoopHandler {
    /// Whether the loop should stop. A handler that does not say otherwise
    /// never stops the loop.
    fn done(&self) -> (r: bool)
        default_ensures
            !r,
    {
        false
    }
}

/// What the loop does after a frame's first step.
#[derive(Copy, Clone, PartialEq, Eq, Structural, Debug)]
pub enum FrameAction {
    /// The handler is done: report the frame rate and stop.
    Stop,
    /// Draw the frame.
    Draw,
}

/// The frame loop: it stops once the handler is done, and measures the frame
/// rate over the frames drawn without error.
pub struct FrameLoop<T> {
    framerate: Framerate<T>,
    stopped: bool,
}

impl<T: Copy> FrameLoop<T> {
    pub closed spec fn wf(&self) -> bool {
        self.framerate.wf()
    }

    /// The timestamps of the last frames drawn without error, oldest first.
    pub closed spec fn window(&self) -> Seq<T> {
        self.framerate.window()
    }

    /// Whether the loop has stopped.
    pub closed spec fn is_stopped(&self) -> bool {
        self.stopped
    }

    /// A running loop whose window holds `start`.
    pub fn new(start: T) -> (l: Self)
        ensures
            l.wf(),
            !l.is_stopped(),
            l.window() == Seq::new(FRAMERATE_WINDOW as nat, |i: int| start),
    {
        FrameLoop { framerate: Framerate::new(start), stopped: false }
    }

    /// A frame begins; `handler_done` is what the handler says.
    pub fn on_frame(&mut self, handler_done: bool) -> (a: FrameAction)
        requires
            old(self).wf(),
        ensures
            final(self).wf(),
            final(self).window() == old(self).window(),
            handler_done ==> a == FrameAction::Stop && final(self).is_stopped(),
            !handler_done ==> a == FrameAction::Draw && final(self).is_stopped() == old(self).is_stopped(),
    {
        if handler_done {
            self.stopped = true;
            FrameAction::Stop
        } else {
            FrameAction::Draw
        }
    }

    /// The frame stamped `t` was drawn; `ok` says whether without error. Only
    /// frames drawn without error count for the frame rate.
    pub fn on_drawn(&mut self, t: T, ok: bool)
        requires
            old(self).wf(),
        ensures
            final(self).wf(),
            final(self).is_stopped() == old(self).is_stopped(),
            ok ==> final(self).window() == old(self).window().drop_first().push(t),
            !ok ==> final(self).window() == old(self).window(),
    {
        if ok {
            self.framerate.record_timestamp(t);
        }
    }

    /// The oldest and the newest timestamp of the window.
    pub fn span(&self) -> (r: (T, T))
        requires
            self.wf(),
        ensures
            r.0 == self.window()[0],
            r.1 == self.window()[FRAMERATE_WINDOW - 1],
    {
        (self.framerate.first(), self.framerate.last())
    }
}

/// The window after recording `ts`, one after the other, into window `w`.
pub open spec fn after_records<T>(w: Seq<T>, ts: Seq<T>) -> Seq<T>
    decreases ts.len(),
{
    if ts.len() == 0 {
        w
    } else {
        after_records(w.drop_first().push(ts[0]), ts.drop_first())
    }
}

/// Recording keeps the window's length, and the window ends with the last
/// timestamps recorded: once at least a window's worth was recorded, it holds
/// exactly the last `FRAMERATE_WINDOW` of them, oldest first.
pub proof fn law_window_holds_last_records<T>(w: Seq<T>, ts: Seq<T>)
    requires
        w.len() == FRAMERATE_WINDOW,
    ensures
        after_records(w, ts).len() == FRAMERATE_WINDOW,
        ts.len() <= FRAMERATE_WINDOW ==> after_records(w, ts) == w.skip(ts.len() as int) + ts,
        ts.len() >= FRAMERATE_WINDOW ==> after_records(w, ts) == ts.skip(ts.len() - FRAMERATE_WINDOW),
    decreases ts.len(),
{
    if ts.len() > 0 {
        let w1 = w.drop_first().push(ts[0]);
        law_window_holds_last_records(w1, ts.drop_first());
        if ts.len() <= FRAMERATE_WINDOW {
            assert(w1.skip(ts.len() - 1) + ts.drop_first() =~= w.skip(ts.len() as int) + ts);
        } else {
            assert(ts.drop_first().skip(ts.len() - 1 - FRAMERATE_WINDOW) =~= ts.skip(ts.len() - FRAMERATE_WINDOW));
        }
    } else {
        assert(w.skip(0) + ts =~= w);
    }
}

} // verus!
