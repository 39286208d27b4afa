//! How the signal is split into bands: which cutoff each crossover uses, and
//! in which order the crossovers split the sample.
use vstd::prelude::*;

use crate::NUM_BANDS;

verus! {

/// The cutoff of crossover `crossover` (counted from zero) comes from the
/// user exactly when the band above it is active: crossover `i` separates
/// band `i` from band `i + 1`. The last crossover never does.
pub open spec fn crossover_in_use(active_bands: int, crossover: int) -> bool {
    0 <= crossover < NUM_BANDS - 1 && active_bands >= crossover + 2
}

/// The cutoffs of the crossovers, given the user's crossover cutoffs and the
/// cutoff that an unused crossover gets.
pub open spec fn cutoffs_spec<T>(active_bands: int, user_cutoffs: Seq<T>, fallback: T) -> Seq<T> {
    Seq::new(
        NUM_BANDS as nat,
        |i: int|
            if crossover_in_use(active_bands, i) {
                user_cutoffs[i]
            } else {
                fallback
            },
    )
}

/// Picks the cutoff of every crossover: the user's cutoff for a crossover
/// that lies below an active band, `fallback` for the others.
pub fn band_cutoffs<T: Copy>(active_bands: i32, user_cutoffs: [T; 4], fallback: T) -> (r: Vec<T>)
    ensures
        r@ == cutoffs_spec(active_bands as int, user_cutoffs@, fallback),
        r@.len() == NUM_BANDS,
        forall|i: int|
            0 <= i < NUM_BANDS ==> #[trigger] r@[i] == if i < 4 && active_bands >= i + 2 {
                user_cutoffs@[i]
            } else {
                fallback
            },
{
    let mut r: Vec<T> = Vec::new();
    let mut i: usize = 0;
    while i < NUM_BANDS
        invariant
            i <= NUM_BANDS,
            r@ == cutoffs_spec(active_bands as int, user_cutoffs@, fallback).take(i as int),
        decreases NUM_BANDS - i,
    {
        let in_use = i < NUM_BANDS - 1 && (active_bands as i64) >= (i as i64) + 2;
        if in_use {
            r.push(user_cutoffs[i]);
        } else {
            r.push(fallback);
        }
        i = i + 1;
        assert(r@ =~= cutoffs_spec(active_bands as int, user_cutoffs@, fallback).take(i as int));
    }
    assert(r@ =~= cutoffs_spec(active_bands as int, user_cutoffs@, fallback));
    proof {
        lemma_cutoffs_from_own_slider(active_bands as int, user_cutoffs@, fallback);
    }
    r
}

/// Every crossover between two active bands takes the cutoff of its own
/// slider (crossover `i` takes `user_cutoffs[i]`, whatever the number of
/// active bands), and every other crossover takes the fallback.
pub proof fn lemma_cutoffs_from_own_slider<T>(active_bands: int, user_cutoffs: Seq<T>, fallback: T)
    requires
        user_cutoffs.len() == 4,
    ensures
        cutoffs_spec(active_bands, user_cutoffs, fallback).len() == NUM_BANDS,
        forall|i: int|
            0 <= i < NUM_BANDS ==> #[trigger] cutoffs_spec(active_bands, user_cutoffs, fallback)[i]
                == if i < 4 && active_bands >= i + 2 {
                user_cutoffs[i]
            } else {
                fallback
            },
{
}

/// Adding active bands never changes the cutoff of a crossover that was
/// already in use: it keeps the cutoff of its own slider.
pub proof fn lemma_cutoffs_stable_when_bands_added<T>(
    fewer: int,
    more: int,
    user_cutoffs: Seq<T>,
    fallback: T,
    i: int,
)
    requires
        user_cutoffs.len() == 4,
        fewer <= more,
        0 <= i < 4,
        fewer >= i + 2,
    ensures
        cutoffs_spec(more, user_cutoffs, fallback)[i] == cutoffs_spec(fewer, user_cutoffs, fallback)[i],
        cutoffs_spec(more, user_cutoffs, fallback)[i] == user_cutoffs[i],
{
    lemma_cutoffs_from_own_slider(fewer, user_cutoffs, fallback);
    lemma_cutoffs_from_own_slider(more, user_cutoffs, fallback);
}

/// The bands after the crossovers `0 .. lows.len()` have split them in
/// turn: crossover `k` replaces band `k` by its low part `lows[k]` and
/// band `k + 1` by its high part `highs[k]`. Before any split every band
/// holds the input sample.
pub open spec fn split_spec<T>(sample: T, lows: Seq<T>, highs: Seq<T>) -> Seq<T>
    decreases lows.len(),
{
    if lows.len() == 0 {
        Seq::new((NUM_BANDS + 1) as nat, |j: int| sample)
    } else {
        let k = lows.len() - 1;
        split_spec(sample, lows.drop_last(), highs.drop_last()).update(k, lows.last()).update(
            k + 1,
            highs.last(),
        )
    }
}

/// The split always has one more band than there are crossovers.
proof fn lemma_split_len<T>(sample: T, lows: Seq<T>, highs: Seq<T>)
    requires
        lows.len() == highs.len(),
        lows.len() <= NUM_BANDS,
    ensures
        split_spec(sample, lows, highs).len() == NUM_BANDS + 1,
    decreases lows.len(),
{
    if lows.len() > 0 {
        lemma_split_len(sample, lows.drop_last(), highs.drop_last());
    }
}

/// After `k` crossovers have run, bands `0 .. k` hold the low parts of their
/// crossovers, band `k` holds the high part of the last crossover (the
/// sample itself when none has run), and every band above it still holds
/// the sample.
pub proof fn lemma_split_closed_form<T>(sample: T, lows: Seq<T>, highs: Seq<T>)
    requires
        lows.len() == highs.len(),
        lows.len() <= NUM_BANDS,
    ensures
        split_spec(sample, lows, highs).len() == NUM_BANDS + 1,
        forall|j: int|
            0 <= j < NUM_BANDS + 1 ==> #[trigger] split_spec(sample, lows, highs)[j] == if j
                < lows.len() {
                lows[j]
            } else if j == lows.len() && lows.len() > 0 {
                highs[j - 1]
            } else {
                sample
            },
    decreases lows.len(),
{
    lemma_split_len(sample, lows, highs);
    if lows.len() > 0 {
        lemma_split_closed_form(sample, lows.drop_last(), highs.drop_last());
    }
}

/// Each crossover after the first splits the high part of the crossover
/// below it; the first one splits the sample.
pub proof fn lemma_crossover_splits_previous_high<T>(sample: T, lows: Seq<T>, highs: Seq<T>)
    requires
        lows.len() == highs.len(),
        lows.len() < NUM_BANDS,
    ensures
        split_spec(sample, lows, highs)[lows.len() as int] == if lows.len() == 0 {
            sample
        } else {
            highs.last()
        },
{
    lemma_split_closed_form(sample, lows, highs);
}

/// Splitting one sample into bands, one crossover after the other. The
/// filtering itself is done by the caller: `next_input` says which crossover
/// runs next and on what value, `feed` takes its low and high outputs.
pub struct BandSplit<T> {
    bands: Vec<T>,
    next: usize,
    active: usize,
    sample: Ghost<T>,
    lows: Ghost<Seq<T>>,
    highs: Ghost<Seq<T>>,
}

impl<T: Copy> BandSplit<T> {
    /// The value of each band so far.
    pub closed spec fn bands_view(&self) -> Seq<T> {
        self.bands@
    }

    /// The crossover that runs next.
    pub closed spec fn next_crossover(&self) -> int {
        self.next as int
    }

    /// How many crossovers run for this sample: one per active band.
    pub closed spec fn crossovers(&self) -> int {
        self.active as int
    }

    /// The sample being split.
    pub closed spec fn sample(&self) -> T {
        self.sample@
    }

    /// The low outputs fed so far, one per crossover that has run.
    pub closed spec fn lows(&self) -> Seq<T> {
        self.lows@
    }

    /// The high outputs fed so far, one per crossover that has run.
    pub closed spec fn highs(&self) -> Seq<T> {
        self.highs@
    }

    /// The split so far is the one that the outputs fed so far give.
    pub open spec fn valid(&self) -> bool {
        &&& 0 <= self.next_crossover() <= self.crossovers() <= NUM_BANDS
        &&& self.lows().len() == self.next_crossover()
        &&& self.highs().len() == self.next_crossover()
        &&& self.bands_view() == split_spec(self.sample(), self.lows(), self.highs())
        &&& self.bands_view().len() == NUM_BANDS + 1
    }

    /// Starts splitting `sample` over `active_bands` crossovers; every band
    /// holds the sample.
    pub fn new(sample: T, active_bands: i32) -> (s: Self)
        requires
            0 <= active_bands <= NUM_BANDS,
        ensures
            s.valid(),
            s.sample() == sample,
            s.crossovers() == active_bands,
            s.next_crossover() == 0,
            s.lows() == Seq::<T>::empty(),
            s.highs() == Seq::<T>::empty(),
            s.bands_view() == Seq::new((NUM_BANDS + 1) as nat, |j: int| sample),
    {
        let mut bands: Vec<T> = Vec::new();
        let mut j: usize = 0;
        while j < NUM_BANDS + 1
            invariant
                j <= NUM_BANDS + 1,
                bands@ == Seq::new(j as nat, |k: int| sample),
            decreases NUM_BANDS + 1 - j,
        {
            bands.push(sample);
            j = j + 1;
            assert(bands@ =~= Seq::new(j as nat, |k: int| sample));
        }
        let s = BandSplit {
            bands,
            next: 0,
            active: active_bands as usize,
            sample: Ghost(sample),
            lows: Ghost(Seq::empty()),
            highs: Ghost(Seq::empty()),
        };
        assert(s.bands_view() =~= split_spec(sample, Seq::<T>::empty(), Seq::<T>::empty()));
        s
    }

    /// The crossover that runs next and the value it filters (the band it
    /// splits), or `None` once every crossover has run.
    pub fn next_input(&self) -> (r: Option<(usize, T)>)
        requires
            self.valid(),
        ensures
            self.next_crossover() < self.crossovers() ==> r == Some(
                (self.next_crossover() as usize, self.bands_view()[self.next_crossover()]),
            ),
            self.next_crossover() >= self.crossovers() ==> r is None,
    {
        if self.next < self.active {
            Some((self.next, self.bands[self.next]))
        } else {
            None
        }
    }

    /// Takes the outputs of the crossover that ran: its band becomes `low`,
    /// the band above it becomes `high`.
    pub fn feed(&mut self, low: T, high: T)
        requires
            old(self).valid(),
            old(self).next_crossover() < old(self).crossovers(),
        ensures
            final(self).valid(),
            final(self).bands_view() == old(self).bands_view().update(
                old(self).next_crossover(),
                low,
            ).update(old(self).next_crossover() + 1, high),
            final(self).next_crossover() == old(self).next_crossover() + 1,
            final(self).crossovers() == old(self).crossovers(),
            final(self).sample() == old(self).sample(),
            final(self).lows() == old(self).lows().push(low),
            final(self).highs() == old(self).highs().push(high),
    {
        let k = self.next;
        proof {
            lemma_split_len(self.sample@, self.lows@.push(low), self.highs@.push(high));
        }
        self.bands.set(k, low);
        self.bands.set(k + 1, high);
        self.next = k + 1;
        let ghost new_lows = self.lows@.push(low);
        let ghost new_highs = self.highs@.push(high);
        self.lows = Ghost(new_lows);
        self.highs = Ghost(new_highs);
        assert(new_lows.drop_last() =~= old(self).lows());
        assert(new_highs.drop_last() =~= old(self).highs());
    }

    /// The bands as split so far.
    pub fn into_bands(self) -> (r: Vec<T>)
        requires
            self.valid(),
        ensures
            r@ == self.bands_view(),
            r@ == split_spec(self.sample(), self.lows(), self.highs()),
    {
        self.bands
    }

    /// Once every crossover has run: the bands that go on to be processed,
    /// one per active band. They are the low parts of the crossovers; the
    /// high part of the last crossover, above every active band, is left out.
    pub fn into_active_bands(self) -> (r: Vec<T>)
        requires
            self.valid(),
            self.next_crossover() == self.crossovers(),
        ensures
            r@ == self.bands_view().take(self.crossovers()),
            r@ == self.lows(),
    {
        proof {
            lemma_split_closed_form(self.sample@, self.lows@, self.highs@);
        }
        let mut r: Vec<T> = Vec::new();
        let mut j: usize = 0;
        while j < self.active
            invariant
                self.valid(),
                self.next_crossover() == self.crossovers(),
                j <= self.active,
                r@ == self.bands_view().take(j as int),
            decreases self.active - j,
        {
            r.push(self.bands[j]);
            j = j + 1;
            assert(r@ =~= self.bands_view().take(j as int));
        }
        assert(r@ =~= self.lows());
        r
    }
}

} // verus!
