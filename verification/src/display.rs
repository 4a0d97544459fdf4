//! What the display is fed from: the smoothed spectrum, the waterfall of the
//! latest averaged spectra, and the signal that asks for a repaint.

use vstd::prelude::*;
use crossbeam::channel::Sender;
use crate::daq::try_send;

verus! {

/// Moves the smoothed spectrum towards `averaged`: each component becomes
/// what `blend` gives for it and the component of `averaged` at its place.
pub fn smooth<T: Copy, B: Fn(T, T) -> T>(filtered: &mut Vec<T>, averaged: &[T], blend: &B)
    requires
        old(filtered)@.len() == averaged@.len(),
        forall|f: T, a: T| blend.requires((f, a)),
    ensures
        final(filtered)@.len() == old(filtered)@.len(),
        forall|i: int|
            0 <= i < averaged@.len() ==> blend.ensures(
                (old(filtered)@[i], averaged@[i]),
                #[trigger] final(filtered)@[i],
            ),
{
    let n: usize = filtered.len();
    let mut i: usize = 0;
    while i < n
        invariant
            i <= n,
            n == averaged@.len(),
            filtered@.len() == n,
            forall|f: T, a: T| blend.requires((f, a)),
            forall|k: int| i <= k < n ==> filtered@[k] == old(filtered)@[k],
            forall|k: int|
                0 <= k < i ==> blend.ensures(
                    (old(filtered)@[k], averaged@[k]),
                    #[trigger] filtered@[k],
                ),
        decreases n - i,
    {
        let v: T = blend(filtered[i], averaged[i]);
        filtered.set(i, v);
        i += 1;
    }
}

/// The window after `row` has come in: the oldest row has left, the others
/// have moved up by one, and `row` is the last.
pub open spec fn slid<T>(window: Seq<Seq<T>>, row: Seq<T>) -> Seq<Seq<T>> {
    window.skip(1).push(row)
}

/// The window after `rows` have come in, one after the other.
pub open spec fn slid_all<T>(window: Seq<Seq<T>>, rows: Seq<Seq<T>>) -> Seq<Seq<T>>
    decreases rows.len(),
{
    if rows.len() == 0 {
        window
    } else {
        slid(slid_all(window, rows.drop_last()), rows.last())
    }
}

/// A window keeps its depth. Once as many rows have come in as it is deep, it
/// holds the latest of them and nothing else, the oldest first; before that,
/// it holds what is left of its first rows, and behind them the rows that
/// have come in.
pub proof fn lemma_window<T>(window: Seq<Seq<T>>, rows: Seq<Seq<T>>)
    requires
        window.len() >= 1,
    ensures
        slid_all(window, rows).len() == window.len(),
        rows.len() >= window.len() ==> slid_all(window, rows) == rows.skip(
            rows.len() - window.len(),
        ),
        rows.len() < window.len() ==> slid_all(window, rows) == window.skip(rows.len() as int)
            + rows,
    decreases rows.len(),
{
    if rows.len() > 0 {
        lemma_window(window, rows.drop_last());
    }
}

/// The latest averaged spectra, as many as the display shows, the oldest
/// first.
#[derive(Debug)]
pub struct Waterfall<T> {
    /// The rows, the oldest first.
    pub rows: Vec<Vec<T>>,
    /// The number of channels of each row.
    pub nch: usize,
}

impl<T> View for Waterfall<T> {
    type V = Seq<Seq<T>>;

    open spec fn view(&self) -> Seq<Seq<T>> {
        Seq::new(self.rows@.len(), |i: int| self.rows@[i]@)
    }
}

/// A copy of `row`.
fn copy_row<T: Copy>(row: &[T]) -> (out: Vec<T>)
    ensures
        out@ == row@,
{
    let mut out: Vec<T> = Vec::new();
    let mut i: usize = 0;
    while i < row.len()
        invariant
            i <= row@.len(),
            out@ == row@.take(i as int),
        decreases row@.len() - i,
    {
        out.push(row[i]);
        i += 1;
    }
    out
}

impl<T: Copy> Waterfall<T> {
    /// There is at least one row, and each row has `nch` channels.
    pub open spec fn wf(&self) -> bool {
        &&& self.rows@.len() >= 1
        &&& forall|i: int| 0 <= i < self.rows@.len() ==> (#[trigger] self.rows@[i])@.len() == self.nch
    }

    /// The number of rows.
    pub open spec fn ntime(&self) -> nat {
        self.rows@.len()
    }

    /// The waterfall of `ntime` rows of `nch` channels, each of them `fill`.
    pub fn new(ntime: usize, nch: usize, fill: T) -> (w: Waterfall<T>)
        requires
            ntime >= 1,
        ensures
            w.wf(),
            w.nch == nch,
            w@ == Seq::new(ntime as nat, |i: int| Seq::new(nch as nat, |j: int| fill)),
    {
        let mut first: Vec<T> = Vec::new();
        let mut j: usize = 0;
        while j < nch
            invariant
                j <= nch,
                first@ == Seq::new(j as nat, |k: int| fill),
            decreases nch - j,
        {
            first.push(fill);
            j += 1;
        }
        let mut rows: Vec<Vec<T>> = Vec::new();
        let mut i: usize = 0;
        while i < ntime
            invariant
                i <= ntime,
                rows@.len() == i,
                first@ == Seq::new(nch as nat, |k: int| fill),
                forall|k: int| 0 <= k < i ==> (#[trigger] rows@[k])@ == first@,
            decreases ntime - i,
        {
            rows.push(copy_row(first.as_slice()));
            i += 1;
        }
        let w = Waterfall { rows, nch };
        w
    }

    /// Lets `row` in as the latest row: the oldest row leaves, and the others
    /// keep their order.
    pub fn push(&mut self, row: &[T])
        requires
            old(self).wf(),
            row@.len() == old(self).nch,
        ensures
            final(self).wf(),
            final(self).nch == old(self).nch,
            final(self)@ == slid(old(self)@, row@),
    {
        let _oldest = self.rows.remove(0);
        self.rows.push(copy_row(row));
    }

    /// A copy of the row at `i`, where 0 is the oldest row.
    pub fn row(&self, i: usize) -> (out: Vec<T>)
        requires
            i < self.ntime(),
        ensures
            out@ == self@[i as int],
    {
        copy_row(self.rows[i].as_slice())
    }
}

/// What the smoothing stage keeps between two averaged spectra, and shows to
/// the display: the smoothed spectrum and the waterfall.
#[derive(Debug)]
pub struct DisplayState<T> {
    /// The smoothed spectrum.
    pub filtered: Vec<T>,
    /// The latest averaged spectra.
    pub history: Waterfall<T>,
}

impl<T: Copy> DisplayState<T> {
    /// The waterfall is well formed, and the smoothed spectrum has as many
    /// channels as a row of it.
    pub open spec fn wf(&self) -> bool {
        &&& self.history.wf()
        &&& self.filtered@.len() == self.history.nch
    }

    /// The state before any spectrum has come in: `zero` in every channel of
    /// the smoothed spectrum and of each of the `ntime` rows of the waterfall.
    pub fn new(ntime: usize, nch: usize, zero: T) -> (s: DisplayState<T>)
        requires
            ntime >= 1,
        ensures
            s.wf(),
            s.history.nch == nch,
            s.filtered@ == Seq::new(nch as nat, |j: int| zero),
            s.history@ == Seq::new(ntime as nat, |i: int| Seq::new(nch as nat, |j: int| zero)),
    {
        let history = Waterfall::new(ntime, nch, zero);
        let filtered = history.row(0);
        DisplayState { filtered, history }
    }

    /// Takes an averaged spectrum in: the smoothed spectrum moves towards it
    /// by `blend`, component by component, and it becomes the latest row of
    /// the waterfall, whose oldest row leaves.
    pub fn absorb<B: Fn(T, T) -> T>(&mut self, averaged: &[T], blend: &B)
        requires
            old(self).wf(),
            averaged@.len() == old(self).history.nch,
            forall|f: T, a: T| blend.requires((f, a)),
        ensures
            final(self).wf(),
            final(self).history.nch == old(self).history.nch,
            final(self).history@ == slid(old(self).history@, averaged@),
            forall|i: int|
                0 <= i < averaged@.len() ==> blend.ensures(
                    (old(self).filtered@[i], averaged@[i]),
                    #[trigger] final(self).filtered@[i],
                ),
    {
        smooth(&mut self.filtered, averaged, blend);
        self.history.push(averaged);
    }

    /// Starts the smoothing afresh, as after a retune: every channel of the
    /// smoothed spectrum becomes `zero`. The waterfall is left as it is.
    pub fn reset(&mut self, zero: T)
        requires
            old(self).wf(),
        ensures
            final(self).wf(),
            final(self).history == old(self).history,
            final(self).filtered@ == Seq::new(old(self).filtered@.len(), |j: int| zero),
    {
        let n: usize = self.filtered.len();
        let mut i: usize = 0;
        while i < n
            invariant
                i <= n,
                self.filtered@.len() == n,
                self.history == old(self).history,
                forall|k: int| 0 <= k < i ==> self.filtered@[k] == zero,
            decreases n - i,
        {
            self.filtered.set(i, zero);
            i += 1;
        }
    }
}

/// Asks for a repaint unless one is asked for already: the token goes into
/// `slot` only if the slot has room for it, and nothing waits. The answer
/// tells whether this call put a token in.
pub fn request_repaint(slot: &Sender<()>) -> (asked: bool) {
    try_send(slot, ()).is_delivered()
}

} // verus!
