//! The stages between the sample source and the display: centring a
//! channelised spectrum, averaging a run of spectra, the guard on what is
//! averaged, and the hand-off between stages that never waits.
//!
//! A stage is generic in the type of a sample. Whoever calls it brings the
//! arithmetic on samples as functions; the contracts say to which samples
//! each of them is applied and where its result goes.

use vstd::prelude::*;
use crossbeam::channel::{Receiver, Sender, TrySendError};

verus! {

/// A spectrum with the upper half of its channels first and the lower half
/// behind it, so that the tuned frequency lies in the middle.
pub open spec fn centered<T>(raw: Seq<T>) -> Seq<T> {
    raw.subrange(raw.len() as int / 2, raw.len() as int) + raw.subrange(0, raw.len() as int / 2)
}

/// The channels of `raw` in centred order: see [`centered`].
pub fn center<T: Copy>(raw: &[T]) -> (out: Vec<T>)
    ensures
        out@ == centered(raw@),
{
    let n: usize = raw.len();
    let half: usize = n / 2;
    let mut out: Vec<T> = Vec::new();
    let mut i: usize = half;
    while i < n
        invariant
            half <= i <= n,
            n == raw@.len(),
            out@ == raw@.subrange(half as int, i as int),
        decreases n - i,
    {
        out.push(raw[i]);
        i += 1;
    }
    let mut j: usize = 0;
    while j < half
        invariant
            j <= half <= n,
            n == raw@.len(),
            out@ == raw@.subrange(half as int, n as int) + raw@.subrange(0, j as int),
        decreases half - j,
    {
        out.push(raw[j]);
        j += 1;
    }
    out
}

/// Centring keeps the number of channels, and puts at each place the channel
/// that lies half a spectrum further on, counted round the end.
pub proof fn lemma_centered_index<T>(raw: Seq<T>, i: int)
    requires
        0 <= i < raw.len(),
    ensures
        centered(raw).len() == raw.len(),
        raw.len() % 2 == 0 ==> centered(raw)[i] == raw[(i + raw.len() / 2) % (raw.len() as int)],
{
    let n = raw.len() as int;
    let half = n / 2;
    if n % 2 == 0 {
        if i < half {
            assert((i + half) % n == i + half) by (nonlinear_arith)
                requires
                    0 <= i < half,
                    n == 2 * half,
            ;
        } else {
            assert((i + half) % n == i - half) by (nonlinear_arith)
                requires
                    half <= i < n,
                    n == 2 * half,
            ;
        }
    }
}

/// Centring a spectrum of an even number of channels twice gives it back.
pub proof fn lemma_centered_twice<T>(raw: Seq<T>)
    requires
        raw.len() % 2 == 0,
    ensures
        centered(centered(raw)) == raw,
{
}

/// The total `total` is what adding up `values` from `zero` gives: each value
/// in its turn is added to what was added up before it, by `plus`.
pub open spec fn adds_up_to<T, A: Fn(T, T) -> T>(plus: A, zero: T, values: Seq<T>, total: T) -> bool
    decreases values.len(),
{
    if values.len() == 0 {
        total == zero
    } else {
        exists|before: T|
            adds_up_to(plus, zero, values.drop_last(), before) && #[trigger] plus.ensures(
                (before, values.last()),
                total,
            )
    }
}

/// The sample `result` is the mean of `values`: `mean` gave it for what
/// adding up `values` from `zero` gives and for the number of the values.
pub open spec fn is_mean_of<T, A: Fn(T, T) -> T, M: Fn(T, usize) -> T>(
    plus: A,
    mean: M,
    zero: T,
    values: Seq<T>,
    result: T,
) -> bool {
    exists|total: T|
        adds_up_to(plus, zero, values, total) && #[trigger] mean.ensures(
            (total, values.len() as usize),
            result,
        )
}

/// The samples of channel `i`, one from each spectrum, in the order of the
/// spectra.
pub open spec fn channel<T>(spectra: Seq<Vec<T>>, i: int) -> Seq<T> {
    Seq::new(spectra.len(), |j: int| spectra[j]@[i])
}

/// The average of a run of spectra of `nch` channels each.
///
/// Each channel is added up over the spectra in their order, from `zero`, by
/// `plus`; `mean` then gets that total with the number of spectra, and what
/// it returns is the channel of the result. Of no spectra, each channel is
/// what `mean` returns for `zero` and the number 0.
pub fn average<T: Copy, A: Fn(T, T) -> T, M: Fn(T, usize) -> T>(
    spectra: &[Vec<T>],
    nch: usize,
    zero: T,
    plus: &A,
    mean: &M,
) -> (out: Vec<T>)
    requires
        forall|j: int| 0 <= j < spectra@.len() ==> (#[trigger] spectra@[j])@.len() == nch,
        forall|a: T, b: T| plus.requires((a, b)),
        forall|t: T, n: usize| mean.requires((t, n)),
    ensures
        out@.len() == nch,
        forall|i: int|
            0 <= i < nch ==> is_mean_of(
                *plus,
                *mean,
                zero,
                channel(spectra@, i),
                #[trigger] out@[i],
            ),
{
    let mut sum: Vec<T> = Vec::new();
    let mut i: usize = 0;
    while i < nch
        invariant
            i <= nch,
            sum@.len() == i,
            forall|k: int| 0 <= k < i ==> sum@[k] == zero,
        decreases nch - i,
    {
        sum.push(zero);
        i += 1;
    }
    assert forall|k: int| 0 <= k < nch implies adds_up_to(
        *plus,
        zero,
        channel(spectra@.take(0), k),
        #[trigger] sum@[k],
    ) by {}
    let mut j: usize = 0;
    while j < spectra.len()
        invariant
            j <= spectra@.len(),
            sum@.len() == nch,
            forall|j: int| 0 <= j < spectra@.len() ==> (#[trigger] spectra@[j])@.len() == nch,
            forall|a: T, b: T| plus.requires((a, b)),
            forall|k: int|
                0 <= k < nch ==> adds_up_to(
                    *plus,
                    zero,
                    channel(spectra@.take(j as int), k),
                    #[trigger] sum@[k],
                ),
        decreases spectra@.len() - j,
    {
        let spectrum = &spectra[j];
        let ghost before = sum@;
        let mut i: usize = 0;
        while i < nch
            invariant
                i <= nch,
                j < spectra@.len(),
                sum@.len() == nch,
                before.len() == nch,
                spectrum@.len() == nch,
                *spectrum == spectra@[j as int],
                forall|a: T, b: T| plus.requires((a, b)),
                forall|k: int| i <= k < nch ==> sum@[k] == before[k],
                forall|k: int|
                    0 <= k < i ==> plus.ensures((before[k], spectrum@[k]), #[trigger] sum@[k]),
            decreases nch - i,
        {
            let t: T = plus(sum[i], spectrum[i]);
            sum.set(i, t);
            i += 1;
        }
        proof {
            assert forall|k: int| 0 <= k < nch implies adds_up_to(
                *plus,
                zero,
                channel(spectra@.take(j + 1), k),
                #[trigger] sum@[k],
            ) by {
                let more = channel(spectra@.take(j + 1), k);
                assert(more.drop_last() =~= channel(spectra@.take(j as int), k));
                assert(plus.ensures((before[k], more.last()), sum@[k]));
            }
        }
        j += 1;
    }
    assert(spectra@.take(j as int) =~= spectra@);
    let n: usize = spectra.len();
    let mut out: Vec<T> = Vec::new();
    let mut i: usize = 0;
    while i < nch
        invariant
            i <= nch,
            sum@.len() == nch,
            out@.len() == i,
            n == spectra@.len(),
            forall|t: T, n: usize| mean.requires((t, n)),
            forall|k: int| 0 <= k < i ==> mean.ensures((sum@[k], n), #[trigger] out@[k]),
        decreases nch - i,
    {
        let m: T = mean(sum[i], n);
        out.push(m);
        i += 1;
    }
    proof {
        assert forall|i: int| 0 <= i < nch implies is_mean_of(
            *plus,
            *mean,
            zero,
            channel(spectra@, i),
            #[trigger] out@[i],
        ) by {
            assert(mean.ensures((sum@[i], spectra@.len() as usize), out@[i]));
        }
    }
    out
}

/// Where `plus` returns for two samples nothing but `sum` of them, adding up
/// values from `zero` gives nothing but `sum` folded over them from the left.
pub proof fn lemma_adds_up_to_fold<T, A: Fn(T, T) -> T>(
    plus: A,
    sum: spec_fn(T, T) -> T,
    zero: T,
    values: Seq<T>,
    total: T,
)
    requires
        forall|a: T, b: T, c: T| #[trigger] plus.ensures((a, b), c) ==> c == sum(a, b),
        adds_up_to(plus, zero, values, total),
    ensures
        total == values.fold_left(zero, sum),
    decreases values.len(),
{
    if values.len() > 0 {
        let before = choose|before: T|
            adds_up_to(plus, zero, values.drop_last(), before) && #[trigger] plus.ensures(
                (before, values.last()),
                total,
            );
        lemma_adds_up_to_fold(plus, sum, zero, values.drop_last(), before);
    }
}

/// The sum of whole numbers.
pub open spec fn sum_of(values: Seq<u64>) -> int
    decreases values.len(),
{
    if values.len() == 0 {
        0
    } else {
        sum_of(values.drop_last()) + values.last()
    }
}

/// With exact arithmetic the mean is the arithmetic mean: where the samples
/// are whole numbers, `plus` returns nothing but the sum of two of them and
/// `mean` nothing but the quotient of a total by a count, the mean of values
/// is their sum divided by their number.
pub proof fn lemma_mean_exact<A: Fn(u64, u64) -> u64, M: Fn(u64, usize) -> u64>(
    plus: A,
    mean: M,
    values: Seq<u64>,
    result: u64,
)
    requires
        forall|a: u64, b: u64, c: u64| #[trigger] plus.ensures((a, b), c) ==> c == a + b,
        forall|t: u64, n: usize, m: u64|
            #[trigger] mean.ensures((t, n), m) ==> n > 0 ==> m == t / (n as u64),
        0 < values.len() <= usize::MAX,
        is_mean_of(plus, mean, 0, values, result),
    ensures
        result == sum_of(values) / (values.len() as int),
{
    let total = choose|total: u64|
        adds_up_to(plus, 0, values, total) && #[trigger] mean.ensures(
            (total, values.len() as usize),
            result,
        );
    lemma_adds_up_exact(plus, values, total);
}

/// With exact addition, adding up whole numbers from zero gives their sum.
proof fn lemma_adds_up_exact<A: Fn(u64, u64) -> u64>(plus: A, values: Seq<u64>, total: u64)
    requires
        forall|a: u64, b: u64, c: u64| #[trigger] plus.ensures((a, b), c) ==> c == a + b,
        adds_up_to(plus, 0, values, total),
    ensures
        total == sum_of(values),
    decreases values.len(),
{
    if values.len() > 0 {
        let before = choose|before: u64|
            adds_up_to(plus, 0, values.drop_last(), before) && #[trigger] plus.ensures(
                (before, values.last()),
                total,
            );
        lemma_adds_up_exact(plus, values.drop_last(), before);
    }
}

/// Every value passes `test`.
pub open spec fn all_pass<T, P: Fn(T) -> bool>(test: P, values: Seq<T>) -> bool {
    forall|i: int| 0 <= i < values.len() ==> test.ensures((#[trigger] values[i],), true)
}

/// Some value fails `test`.
pub open spec fn one_fails<T, P: Fn(T) -> bool>(test: P, values: Seq<T>) -> bool {
    exists|i: int| 0 <= i < values.len() && test.ensures((#[trigger] values[i],), false)
}

/// Whether every component of `values` is positive, as `positive` tells it.
pub fn all_positive<T: Copy, P: Fn(T) -> bool>(values: &[T], positive: &P) -> (r: bool)
    requires
        forall|v: T| positive.requires((v,)),
    ensures
        r ==> all_pass(*positive, values@),
        !r ==> one_fails(*positive, values@),
{
    let mut i: usize = 0;
    while i < values.len()
        invariant
            i <= values@.len(),
            forall|v: T| positive.requires((v,)),
            forall|k: int| 0 <= k < i ==> positive.ensures((#[trigger] values@[k],), true),
        decreases values@.len() - i,
    {
        if !positive(values[i]) {
            return false;
        }
        i += 1;
    }
    true
}

/// `crossbeam::channel::Sender`: the sending side of a channel. Nothing is
/// said of what a channel holds, which its readers change at any time.
#[verifier::external_type_specification]
#[verifier::external_body]
#[verifier::reject_recursive_types(T)]
pub struct ExSender<T>(Sender<T>);

/// What became of an item that was offered to the inbox of the next stage.
#[derive(Debug)]
pub enum Handoff<T> {
    /// The inbox took the item.
    Delivered,
    /// The inbox was full: the item comes back and is lost to the pipeline.
    Full(T),
    /// Nobody reads the inbox any more: the item comes back.
    Closed(T),
}

impl<T> Handoff<T> {
    /// Whether the inbox took the item.
    pub fn is_delivered(&self) -> (b: bool)
        ensures
            b == (self is Delivered),
    {
        match self {
            Handoff::Delivered => true,
            Handoff::Full(_) => false,
            Handoff::Closed(_) => false,
        }
    }
}

/// `crossbeam::channel::Sender::try_send`: puts the item into the channel if
/// there is room, and never waits. Where the channel is full or its receivers
/// are gone, the item that comes back is the item that was given. Whether
/// there is room depends on the readers, so nothing is said of it.
#[verifier::external_body]
pub(crate) fn try_send<T>(inbox: &Sender<T>, item: T) -> (r: Handoff<T>)
    ensures
        r matches Handoff::Full(back) ==> back == item,
        r matches Handoff::Closed(back) ==> back == item,
{
    match inbox.try_send(item) {
        Ok(()) => Handoff::Delivered,
        Err(TrySendError::Full(back)) => Handoff::Full(back),
        Err(TrySendError::Disconnected(back)) => Handoff::Closed(back),
    }
}

/// Offers `item` to the inbox of the next stage without waiting for room:
/// an item that does not fit comes back at once.
pub fn offer<T>(inbox: &Sender<T>, item: T) -> (r: Handoff<T>)
    ensures
        r matches Handoff::Full(back) ==> back == item,
        r matches Handoff::Closed(back) ==> back == item,
{
    try_send(inbox, item)
}

/// What became of an averaged spectrum.
#[derive(Debug)]
pub enum Forwarded<T> {
    /// Every component was positive, and the inbox took the spectrum.
    Sent,
    /// A component was not positive: the spectrum was not offered.
    NotPositive(Vec<T>),
    /// Every component was positive, but the inbox was full.
    Full(Vec<T>),
    /// Every component was positive, but nobody reads the inbox any more.
    Closed(Vec<T>),
}

/// Forwards an averaged spectrum to the next stage if every component of it
/// is positive, as `positive` tells it, and the inbox has room.
///
/// A spectrum with a component that is not positive is never offered to the
/// inbox: it comes back as [`Forwarded::NotPositive`].
pub fn forward_averaged<T: Copy, P: Fn(T) -> bool>(
    inbox: &Sender<Vec<T>>,
    averaged: Vec<T>,
    positive: &P,
) -> (r: Forwarded<T>)
    requires
        forall|v: T| positive.requires((v,)),
    ensures
        r is NotPositive ==> one_fails(*positive, averaged@),
        !(r is NotPositive) ==> all_pass(*positive, averaged@),
        r matches Forwarded::NotPositive(back) ==> back == averaged,
        r matches Forwarded::Full(back) ==> back == averaged,
        r matches Forwarded::Closed(back) ==> back == averaged,
{
    if !all_positive(averaged.as_slice(), positive) {
        return Forwarded::NotPositive(averaged);
    }
    match try_send(inbox, averaged) {
        Handoff::Delivered => Forwarded::Sent,
        Handoff::Full(back) => Forwarded::Full(back),
        Handoff::Closed(back) => Forwarded::Closed(back),
    }
}

/// `crossbeam::channel::Receiver`: the receiving side of a channel. Nothing
/// is said of what a channel holds, which its writers change at any time.
#[verifier::external_type_specification]
#[verifier::external_body]
#[verifier::reject_recursive_types(T)]
pub struct ExReceiver<T>(Receiver<T>);

/// `crossbeam::channel::Receiver::recv`: waits until the channel has an item
/// and takes it, or gives `None` once the channel is empty and its senders
/// are gone. Which item comes depends on the senders, so nothing is said of
/// it.
#[verifier::external_body]
pub(crate) fn recv<T>(inbox: &Receiver<T>) -> (r: Option<T>) {
    inbox.recv().ok()
}

/// Why no batch of spectra could be pulled.
#[derive(Clone, Copy, Debug, PartialEq, Eq, Structural)]
pub enum PullError {
    /// The inbox is empty and nobody writes to it any more.
    Closed,
    /// A spectrum did not have the agreed number of channels.
    WrongLength,
}

/// Takes into `batch` what the inbox gave: a spectrum of `nch` channels
/// becomes the last of the batch; any other spectrum, or none because the
/// inbox is closed, is refused and leaves the batch as it was.
pub fn accept_spectrum<T>(
    batch: &mut Vec<Vec<T>>,
    pulled: Option<Vec<T>>,
    nch: usize,
) -> (r: Result<(), PullError>)
    ensures
        match pulled {
            None => {
                &&& r == Err::<(), PullError>(PullError::Closed)
                &&& final(batch)@ == old(batch)@
            },
            Some(spectrum) => if spectrum@.len() == nch {
                &&& r is Ok
                &&& final(batch)@ == old(batch)@.push(spectrum)
            } else {
                &&& r == Err::<(), PullError>(PullError::WrongLength)
                &&& final(batch)@ == old(batch)@
            },
        },
{
    match pulled {
        None => Err(PullError::Closed),
        Some(spectrum) => {
            if spectrum.len() != nch {
                return Err(PullError::WrongLength);
            }
            batch.push(spectrum);
            Ok(())
        },
    }
}

/// Pulls `n_average` spectra of `nch` channels from the inbox, one after the
/// other, waiting for each, and takes each into the batch as
/// [`accept_spectrum`] does; the first that is refused ends the pulling.
///
/// A batch of no spectra is there without a pull. Of any other, the inbox
/// decides.
pub fn pull_batch<T>(inbox: &Receiver<Vec<T>>, n_average: usize, nch: usize) -> (r: Result<
    Vec<Vec<T>>,
    PullError,
>)
    ensures
        n_average == 0 ==> r is Ok,
        r matches Ok(batch) ==> batch@.len() == n_average && forall|j: int|
            0 <= j < batch@.len() ==> (#[trigger] batch@[j])@.len() == nch,
{
    let mut batch: Vec<Vec<T>> = Vec::new();
    let mut j: usize = 0;
    while j < n_average
        invariant
            j <= n_average,
            batch@.len() == j,
            forall|k: int| 0 <= k < batch@.len() ==> (#[trigger] batch@[k])@.len() == nch,
        decreases n_average - j,
    {
        match accept_spectrum(&mut batch, recv(inbox), nch) {
            Err(e) => {
                return Err(e);
            },
            Ok(()) => {},
        }
        j += 1;
    }
    Ok(batch)
}

/// How one cycle of the averaging stage ended.
#[derive(Debug)]
pub enum Cycle<T> {
    /// A batch was pulled and averaged: what became of the average.
    Averaged(Forwarded<T>),
    /// No batch could be pulled.
    Starved(PullError),
}

/// The spectrum `averaged` is the average of the spectra of `batch`: each
/// channel of it is the mean of that channel over the batch.
pub open spec fn is_average_of<T, A: Fn(T, T) -> T, M: Fn(T, usize) -> T>(
    plus: A,
    mean: M,
    zero: T,
    batch: Seq<Vec<T>>,
    averaged: Seq<T>,
) -> bool {
    forall|i: int|
        0 <= i < averaged.len() ==> is_mean_of(
            plus,
            mean,
            zero,
            channel(batch, i),
            #[trigger] averaged[i],
        )
}

/// What `outcome` tells of the spectrum `averaged` that was to be forwarded:
/// whether every component of it passed `positive`, and that it is the
/// spectrum that came back, where one did.
pub open spec fn tells_of<T, P: Fn(T) -> bool>(
    positive: P,
    averaged: Seq<T>,
    outcome: Forwarded<T>,
) -> bool {
    match outcome {
        Forwarded::Sent => all_pass(positive, averaged),
        Forwarded::NotPositive(back) => back@ == averaged && one_fails(positive, averaged),
        Forwarded::Full(back) => back@ == averaged && all_pass(positive, averaged),
        Forwarded::Closed(back) => back@ == averaged && all_pass(positive, averaged),
    }
}

/// The outcome is that of forwarding the average of `batch`: there is a
/// spectrum of `nch` channels that is the average of the batch, and the
/// outcome tells of it what [`tells_of`] says.
pub open spec fn forwards_average_of<
    T,
    A: Fn(T, T) -> T,
    M: Fn(T, usize) -> T,
    P: Fn(T) -> bool,
>(
    plus: A,
    mean: M,
    positive: P,
    zero: T,
    batch: Seq<Vec<T>>,
    nch: usize,
    outcome: Forwarded<T>,
) -> bool {
    exists|averaged: Seq<T>|
        averaged.len() == nch && #[trigger] is_average_of(plus, mean, zero, batch, averaged)
            && tells_of(positive, averaged, outcome)
}

/// The spectra of `batch` are `n_average` spectra of `nch` channels each.
pub open spec fn is_batch<T>(batch: Seq<Vec<T>>, n_average: usize, nch: usize) -> bool {
    &&& batch.len() == n_average
    &&& forall|j: int| 0 <= j < batch.len() ==> (#[trigger] batch[j])@.len() == nch
}

/// Averages a batch of spectra of `nch` channels as [`average`] does, and
/// forwards the average to `outbox` as [`forward_averaged`] does.
pub fn average_and_forward<
    T: Copy,
    A: Fn(T, T) -> T,
    M: Fn(T, usize) -> T,
    P: Fn(T) -> bool,
>(
    batch: &[Vec<T>],
    outbox: &Sender<Vec<T>>,
    nch: usize,
    zero: T,
    plus: &A,
    mean: &M,
    positive: &P,
) -> (r: Forwarded<T>)
    requires
        forall|j: int| 0 <= j < batch@.len() ==> (#[trigger] batch@[j])@.len() == nch,
        forall|a: T, b: T| plus.requires((a, b)),
        forall|t: T, n: usize| mean.requires((t, n)),
        forall|v: T| positive.requires((v,)),
    ensures
        forwards_average_of(*plus, *mean, *positive, zero, batch@, nch, r),
{
    let averaged = average(batch, nch, zero, plus, mean);
    let ghost witness = averaged@;
    let r = forward_averaged(outbox, averaged, positive);
    assert(is_average_of(*plus, *mean, zero, batch@, witness));
    assert(tells_of(*positive, witness, r));
    r
}

/// One cycle of the averaging stage: pulls `n_average` spectra of `nch`
/// channels from `inbox` as [`pull_batch`] does, averages them and forwards
/// the average to `outbox` as [`average_and_forward`] does.
///
/// Whether a batch comes, the inbox decides, unless the batch is to hold no
/// spectra: that one is there without a pull. Where one came, the outcome is
/// that of forwarding its average: an average with a component that is not
/// positive is never offered to `outbox` and comes back as
/// [`Forwarded::NotPositive`]; any other is offered, and comes back only if
/// `outbox` did not take it.
pub fn averaging_cycle<T: Copy, A: Fn(T, T) -> T, M: Fn(T, usize) -> T, P: Fn(T) -> bool>(
    inbox: &Receiver<Vec<T>>,
    outbox: &Sender<Vec<T>>,
    nch: usize,
    n_average: usize,
    zero: T,
    plus: &A,
    mean: &M,
    positive: &P,
) -> (r: Cycle<T>)
    requires
        forall|a: T, b: T| plus.requires((a, b)),
        forall|t: T, n: usize| mean.requires((t, n)),
        forall|v: T| positive.requires((v,)),
    ensures
        n_average == 0 ==> r is Averaged,
        r matches Cycle::Averaged(outcome) ==> exists|batch: Seq<Vec<T>>|
            is_batch(batch, n_average, nch) && #[trigger] forwards_average_of(
                *plus,
                *mean,
                *positive,
                zero,
                batch,
                nch,
                outcome,
            ),
        r matches Cycle::Averaged(Forwarded::NotPositive(back)) ==> back@.len() == nch
            && one_fails(*positive, back@),
        r matches Cycle::Averaged(Forwarded::Full(back)) ==> back@.len() == nch && all_pass(
            *positive,
            back@,
        ),
        r matches Cycle::Averaged(Forwarded::Closed(back)) ==> back@.len() == nch && all_pass(
            *positive,
            back@,
        ),
{
    match pull_batch(inbox, n_average, nch) {
        Err(e) => Cycle::Starved(e),
        Ok(batch) => {
            let outcome = average_and_forward(
                batch.as_slice(),
                outbox,
                nch,
                zero,
                plus,
                mean,
                positive,
            );
            assert(is_batch(batch@, n_average, nch));
            Cycle::Averaged(outcome)
        },
    }
}

/// After how many blocks the source reports its throughput.
pub const REPORT_EVERY: u64 = 100;

/// What the acquisition stage has read since it started.
#[derive(Clone, Copy, Debug, PartialEq, Eq, Structural)]
pub struct Meter {
    /// The number of blocks.
    pub blocks: u64,
    /// The number of samples in those blocks.
    pub samples: u64,
}

impl Meter {
    /// The meter of a stage that has read nothing yet.
    pub fn new() -> (m: Meter)
        ensures
            m.blocks == 0,
            m.samples == 0,
    {
        Meter { blocks: 0, samples: 0 }
    }

    /// Counts a block of `len` samples, and tells whether a report is due:
    /// one is due after every [`REPORT_EVERY`] blocks.
    pub fn record(&mut self, len: usize) -> (due: bool)
        requires
            old(self).blocks < u64::MAX,
            old(self).samples + len <= u64::MAX,
        ensures
            final(self).blocks == old(self).blocks + 1,
            final(self).samples == old(self).samples + len,
            due == (final(self).blocks % REPORT_EVERY == 0),
    {
        self.blocks = self.blocks + 1;
        self.samples = self.samples + len as u64;
        self.blocks % REPORT_EVERY == 0
    }
}

} // verus!
