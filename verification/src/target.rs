//! Display targets: what a frame is painted onto.
//!
//! Painting goes through [`Logged`], which keeps the log of the operations performed on a
//! target and their outcomes. Painting a frame is specified as the operations it performs, in
//! order, each one run only if all before it succeeded.
use vstd::prelude::*;

use crate::element::Font;
use crate::geometry::{Point, Rectangle, Size};
use crate::style::Color;

verus! {

/// One operation on a display target.
pub enum TargetOp {
    /// Fill the complete display with a color.
    Clear { color: Color },
    /// Start buffering the region `bounds`, pre-filled with `background`.
    Begin { bounds: Rectangle, background: Color },
    /// Write the buffered region out to the display and return to direct drawing.
    Flush,
    /// Fill a rectangle with a color.
    Fill { area: Rectangle, color: Color },
    /// Draw a line of text in `font` and `color`, its top-left corner at `origin`.
    Text { content: Seq<char>, origin: Point, font: Font, color: Color },
}

/// An operation performed on a target, with its outcome: for [`TargetOp::Begin`], whether the
/// target accepted to buffer the region; for every other operation, whether it succeeded.
pub struct Event {
    pub op: TargetOp,
    pub ok: bool,
}

/// A display that a frame can be painted onto, optionally through a framebuffer.
pub trait DisplayTarget {
    /// The error the display reports.
    type Error;

    /// Returns the size of the display.
    fn size(&self) -> Size;

    /// Begins a new framebuffer mode with the given bounds and background color. A corresponding
    /// call to [`flush`](Self::flush) is required to update the display. Returns whether the
    /// target buffers the region.
    fn try_begin(&mut self, bounds: Rectangle, background: Color) -> bool;

    /// Flushes the buffer to the display and resets the mode to direct drawing.
    fn flush(&mut self) -> Result<(), Self::Error>;

    /// Fills the complete display with `color`.
    fn clear(&mut self, color: Color) -> Result<(), Self::Error>;

    /// Fills `area` with `color`.
    fn fill_solid(&mut self, area: Rectangle, color: Color) -> Result<(), Self::Error>;

    /// Draws `content` in `font` and `color` with its top-left corner at `origin`.
    fn draw_text(&mut self, content: &str, origin: Point, font: Font, color: Color) -> Result<
        (),
        Self::Error,
    >;
}

/// A display target together with the log of the operations performed on it through this
/// wrapper, the error its last failing operation returned, and the display size read when it
/// was wrapped.
pub struct Logged<T: DisplayTarget> {
    target: T,
    size: Size,
    events: Ghost<Seq<Event>>,
    failure: Ghost<Option<T::Error>>,
}

impl<T: DisplayTarget> Logged<T> {
    /// The operations performed so far, oldest first, with their outcomes.
    pub closed spec fn events(self) -> Seq<Event> {
        self.events@
    }

    /// The error the last failing operation returned, if any operation failed.
    pub closed spec fn last_error(self) -> Option<T::Error> {
        self.failure@
    }

    /// The size of the display.
    pub closed spec fn spec_size(self) -> Size {
        self.size
    }

    /// The wrapped target.
    pub closed spec fn spec_target(self) -> T {
        self.target
    }

    /// Wraps `target`, reading its size; the log starts empty.
    pub fn new(target: T) -> (r: Logged<T>)
        ensures
            r.events() == Seq::<Event>::empty(),
            r.last_error() is None,
            r.spec_target() == target,
    {
        let size = target.size();
        Logged { target, size, events: Ghost(Seq::empty()), failure: Ghost(None) }
    }

    /// Returns the wrapped target.
    pub fn into_inner(self) -> (r: T)
        ensures
            r == self.spec_target(),
    {
        self.target
    }

    /// Returns a reference to the wrapped target.
    pub fn target(&self) -> (r: &T)
        ensures
            *r == self.spec_target(),
    {
        &self.target
    }

    /// Returns the size of the display, as read when it was wrapped.
    pub fn size(&self) -> (r: Size)
        ensures
            r == self.spec_size(),
    {
        self.size
    }

    /// Asks the target to buffer `bounds`, pre-filled with `background`.
    pub fn try_begin(&mut self, bounds: Rectangle, background: Color) -> (r: bool)
        ensures
            final(self).spec_size() == old(self).spec_size(),
            final(self).events() == old(self).events().push(
                Event { op: TargetOp::Begin { bounds, background }, ok: r },
            ),
            final(self).last_error() == old(self).last_error(),
    {
        let r = self.target.try_begin(bounds, background);
        self.events = Ghost(self.events@.push(Event { op: TargetOp::Begin { bounds, background }, ok: r }));
        r
    }

    /// Has the target write its buffer out.
    pub fn flush(&mut self) -> (r: Result<(), T::Error>)
        ensures
            final(self).spec_size() == old(self).spec_size(),
            final(self).events() == old(self).events().push(Event { op: TargetOp::Flush, ok: r is Ok }),
            final(self).last_error() == (if r is Err { Some(r->Err_0) } else { old(self).last_error() }),
    {
        let r = self.target.flush();
        self.failure = Ghost(if r is Err { Some(r->Err_0) } else { self.failure@ });
        self.events = Ghost(self.events@.push(Event { op: TargetOp::Flush, ok: r is Ok }));
        r
    }

    /// Has the target fill the display with `color`.
    pub fn clear(&mut self, color: Color) -> (r: Result<(), T::Error>)
        ensures
            final(self).spec_size() == old(self).spec_size(),
            final(self).events() == old(self).events().push(
                Event { op: TargetOp::Clear { color }, ok: r is Ok },
            ),
            final(self).last_error() == (if r is Err { Some(r->Err_0) } else { old(self).last_error() }),
    {
        let r = self.target.clear(color);
        self.failure = Ghost(if r is Err { Some(r->Err_0) } else { self.failure@ });
        self.events = Ghost(self.events@.push(Event { op: TargetOp::Clear { color }, ok: r is Ok }));
        r
    }

    /// Has the target fill `area` with `color`.
    pub fn fill_solid(&mut self, area: Rectangle, color: Color) -> (r: Result<(), T::Error>)
        ensures
            final(self).spec_size() == old(self).spec_size(),
            final(self).events() == old(self).events().push(
                Event { op: TargetOp::Fill { area, color }, ok: r is Ok },
            ),
            final(self).last_error() == (if r is Err { Some(r->Err_0) } else { old(self).last_error() }),
    {
        let r = self.target.fill_solid(area, color);
        self.failure = Ghost(if r is Err { Some(r->Err_0) } else { self.failure@ });
        self.events = Ghost(
            self.events@.push(Event { op: TargetOp::Fill { area, color }, ok: r is Ok }),
        );
        r
    }

    /// Has the target draw `content` in `font` and `color` at `origin`.
    pub fn draw_text(&mut self, content: &str, origin: Point, font: Font, color: Color) -> (r: Result<
        (),
        T::Error,
    >)
        ensures
            final(self).spec_size() == old(self).spec_size(),
            final(self).events() == old(self).events().push(
                Event {
                    op: TargetOp::Text { content: content@, origin, font, color },
                    ok: r is Ok,
                },
            ),
            final(self).last_error() == (if r is Err { Some(r->Err_0) } else { old(self).last_error() }),
    {
        let r = self.target.draw_text(content, origin, font, color);
        self.failure = Ghost(if r is Err { Some(r->Err_0) } else { self.failure@ });
        self.events = Ghost(
            self.events@.push(
                Event { op: TargetOp::Text { content: content@, origin, font, color }, ok: r is Ok },
            ),
        );
        r
    }
}

/// Whether `log2` starts with `log`.
pub open spec fn extends(log2: Seq<Event>, log: Seq<Event>) -> bool {
    &&& log.len() <= log2.len()
    &&& forall|j: int| 0 <= j < log.len() ==> #[trigger] log2[j] == log[j]
}

/// A log that starts with one that starts with `a` starts with `a`.
pub proof fn lemma_extends_trans(a: Seq<Event>, b: Seq<Event>, c: Seq<Event>)
    requires
        extends(b, a),
        extends(c, b),
    ensures
        extends(c, a),
{
    assert forall|j: int| 0 <= j < a.len() implies #[trigger] c[j] == a[j] by {
        assert(c[j] == b[j]);
    }
}

/// Reads the operations `ops[i..]` from `log` at `pos`, as performed one by one while they
/// succeed: `Some((end, true))` if all of them were performed and succeeded, `end` being the
/// position after the last one; `Some((end, false))` if one of them failed, `end` being the
/// position after it; `None` if the log does not hold these operations.
pub open spec fn run(ops: Seq<TargetOp>, i: int, log: Seq<Event>, pos: int) -> Option<(int, bool)>
    decreases ops.len() - i,
{
    if !(0 <= i < ops.len()) {
        Some((pos, true))
    } else if 0 <= pos < log.len() && log[pos].op == ops[i] {
        if log[pos].ok {
            run(ops, i + 1, log, pos + 1)
        } else {
            Some((pos + 1, false))
        }
    } else {
        None
    }
}

/// Reading a single operation from a log.
pub proof fn lemma_run_single(op: TargetOp, log: Seq<Event>, pos: int)
    ensures
        run(seq![op], 0, log, pos) == (if 0 <= pos < log.len() && log[pos].op == op {
            Some((pos + 1, log[pos].ok))
        } else {
            None
        }),
{
    if 0 <= pos < log.len() && log[pos].op == op && log[pos].ok {
        assert(run(seq![op], 1, log, pos + 1) == Some((pos + 1, true)));
    }
}

/// Reading operations from a log gives the same outcome from any longer log.
pub proof fn lemma_run_extend(ops: Seq<TargetOp>, i: int, log: Seq<Event>, log2: Seq<Event>, pos: int)
    requires
        run(ops, i, log, pos) is Some,
        extends(log2, log),
    ensures
        run(ops, i, log2, pos) == run(ops, i, log, pos),
    decreases ops.len() - i,
{
    if 0 <= i < ops.len() {
        assert(log2[pos] == log[pos]);
        if log[pos].ok {
            lemma_run_extend(ops, i + 1, log, log2, pos + 1);
        }
    }
}

} // verus!
