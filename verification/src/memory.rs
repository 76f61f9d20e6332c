//! Memory sampler state: memory and swap usage with their histories.
//!
//! The memory percentage counts what is not available, `total - available`,
//! rather than what is reported as used, so that reclaimable caches and
//! buffers do not count as usage.

use crate::fixed::{
    gib_tenths, lemma_ratio_bounded, ratio, ratio_of, rounded_div, to_gib_tenths,
};
use crate::history::{enumerated, pushed, RingHistory, HISTORY_CAPACITY};
use crate::percent::{all_within_full, share, share_of, FULL};
use crate::text::{one_decimal, one_decimal_text};
use vstd::prelude::*;
use vstd::string::*;

verus! {

/// One reading of the memory counters, in bytes.
#[derive(Clone, Copy, Debug, PartialEq, Eq, Structural)]
pub struct MemoryReading {
    pub total_memory: u64,
    pub used_memory: u64,
    pub available_memory: u64,
    pub total_swap: u64,
    pub used_swap: u64,
}

impl MemoryReading {
    /// The bytes that are not available: `total - available`, and 0 should
    /// more be reported as available than there is in total.
    pub open spec fn unavailable(self) -> u64 {
        if self.available_memory >= self.total_memory {
            0
        } else {
            (self.total_memory - self.available_memory) as u64
        }
    }

    /// The share of memory that is not available, in hundredths of a
    /// percent; 0% if there is no memory. It never exceeds 100%.
    pub open spec fn memory_percent(self) -> u32 {
        share(self.unavailable() as nat, self.total_memory as nat) as u32
    }

    /// The share of swap in use, in hundredths of a percent; 0% if no swap
    /// is configured. It is not capped: should more swap be reported as used
    /// than there is in total, the share is above 100%.
    pub open spec fn swap_percent(self) -> u128 {
        share(self.used_swap as nat, self.total_swap as nat) as u128
    }

    /// The memory usage in words: the percentage, then the gibibytes not
    /// available out of the total, each with one decimal place.
    pub open spec fn memory_text(self) -> Seq<char> {
        "Memory: "@ + one_decimal(
            ratio(self.unavailable() as nat, self.total_memory as nat, 1000),
        ) + "% ("@ + one_decimal(gib_tenths(self.unavailable())) + "GB / "@ + one_decimal(
            gib_tenths(self.total_memory),
        ) + "GB)"@
    }

    /// The swap usage in words, in the form of the memory usage, with a
    /// percentage that is not capped at 100%; without swap, the statement
    /// that none is available.
    pub open spec fn swap_text(self) -> Seq<char> {
        if self.total_swap > 0 {
            "Swap: "@ + one_decimal(ratio(self.used_swap as nat, self.total_swap as nat, 1000))
                + "% ("@ + one_decimal(gib_tenths(self.used_swap)) + "GB / "@ + one_decimal(
                gib_tenths(self.total_swap),
            ) + "GB)"@
        } else {
            "Swap: Not Available"@
        }
    }
}

/// The two percentages of a reading are the shares as they stand: the
/// memory percentage lies between 0% and 100%, and the swap percentage is
/// the exact rounded share, whatever its size.
pub proof fn lemma_percentages_exact(reading: MemoryReading)
    ensures
        reading.memory_percent() == share(
            reading.unavailable() as nat,
            reading.total_memory as nat,
        ),
        reading.memory_percent() <= FULL,
        reading.swap_percent() == share(reading.used_swap as nat, reading.total_swap as nat),
        reading.total_swap == 0 ==> reading.swap_percent() == 0,
        reading.total_swap > 0 ==> reading.swap_percent() == rounded_div(
            (reading.used_swap * FULL) as nat,
            reading.total_swap as nat,
        ),
{
    lemma_ratio_bounded(
        reading.unavailable() as nat,
        reading.total_memory as nat,
        FULL as nat,
    );
    if reading.total_swap > 0 {
        let product = (reading.used_swap * FULL) as nat;
        let whole = reading.total_swap as nat;
        assert(reading.used_swap as nat * FULL as nat == product);
        assert(product / whole <= product) by (nonlinear_arith)
            requires
                whole >= 1,
        {
        }
    }
}

/// Mathematical model of a [`MemoryInfo`]: the latest reading and the
/// histories of the two percentages.
pub struct MemoryInfoView {
    pub reading: MemoryReading,
    pub memory_history: Seq<u32>,
    pub swap_history: Seq<u128>,
}

impl MemoryInfoView {
    /// What holds of every sampler state: each history holds at most the
    /// history capacity of samples, and every memory sample lies between 0%
    /// and 100%. The swap samples have no such bound.
    pub open spec fn wf(self) -> bool {
        &&& self.memory_history.len() <= HISTORY_CAPACITY
        &&& self.swap_history.len() <= HISTORY_CAPACITY
        &&& all_within_full(self.memory_history)
    }

    /// The state made from a first reading: nothing is sampled yet.
    pub open spec fn initial(reading: MemoryReading) -> MemoryInfoView {
        MemoryInfoView { reading, memory_history: Seq::empty(), swap_history: Seq::empty() }
    }

    /// The state after a reading: the reading replaces the previous one, and
    /// its two percentages are the newest samples.
    pub open spec fn updated(self, reading: MemoryReading) -> MemoryInfoView {
        MemoryInfoView {
            reading,
            memory_history: pushed(
                self.memory_history,
                reading.memory_percent(),
                HISTORY_CAPACITY as nat,
            ),
            swap_history: pushed(
                self.swap_history,
                reading.swap_percent(),
                HISTORY_CAPACITY as nat,
            ),
        }
    }
}

/// Memory and swap counters with the histories of their percentages.
#[derive(Debug)]
pub struct MemoryInfo {
    reading: MemoryReading,
    memory_history: RingHistory<u32>,
    swap_history: RingHistory<u128>,
}

impl View for MemoryInfo {
    type V = MemoryInfoView;

    closed spec fn view(&self) -> MemoryInfoView {
        MemoryInfoView {
            reading: self.reading,
            memory_history: self.memory_history@,
            swap_history: self.swap_history@,
        }
    }
}

impl MemoryInfo {
    /// What is kept true of every sampler state.
    #[verifier::type_invariant]
    pub closed spec fn inv(self) -> bool {
        &&& self.memory_history.capacity() == HISTORY_CAPACITY
        &&& self.swap_history.capacity() == HISTORY_CAPACITY
        &&& self@.wf()
    }

    /// Every sampler state is well-formed.
    pub proof fn lemma_inv_wf(self)
        requires
            self.inv(),
        ensures
            self@.wf(),
    {
    }

    /// The sampler state made from a first reading.
    pub fn new(reading: MemoryReading) -> (r: MemoryInfo)
        ensures
            r@ == MemoryInfoView::initial(reading),
            r@.wf(),
    {
        MemoryInfo {
            reading,
            memory_history: RingHistory::new(),
            swap_history: RingHistory::new(),
        }
    }

    /// Takes one reading of the counters (see [`MemoryInfoView::updated`]).
    pub fn update(&mut self, reading: MemoryReading)
        ensures
            final(self)@ == old(self)@.updated(reading),
            final(self)@.wf(),
    {
        proof {
            use_type_invariant(&*self);
        }
        self.reading = reading;
        let memory_percent = self.current_memory_percent();
        let swap_percent = self.current_swap_percent();
        let mut memory_history = RingHistory::new();
        core::mem::swap(&mut self.memory_history, &mut memory_history);
        memory_history.push(memory_percent);
        core::mem::swap(&mut self.memory_history, &mut memory_history);
        let mut swap_history = RingHistory::new();
        core::mem::swap(&mut self.swap_history, &mut swap_history);
        swap_history.push(swap_percent);
        core::mem::swap(&mut self.swap_history, &mut swap_history);
    }

    /// The latest reading.
    pub fn reading(&self) -> (r: MemoryReading)
        ensures
            r == self@.reading,
    {
        self.reading
    }

    /// Total memory in bytes, as of the latest reading.
    pub fn total_memory(&self) -> (r: u64)
        ensures
            r == self@.reading.total_memory,
    {
        self.reading.total_memory
    }

    /// Memory reported as used in bytes, as of the latest reading.
    pub fn used_memory(&self) -> (r: u64)
        ensures
            r == self@.reading.used_memory,
    {
        self.reading.used_memory
    }

    /// Total swap in bytes, as of the latest reading.
    pub fn total_swap(&self) -> (r: u64)
        ensures
            r == self@.reading.total_swap,
    {
        self.reading.total_swap
    }

    /// Swap in use in bytes, as of the latest reading.
    pub fn used_swap(&self) -> (r: u64)
        ensures
            r == self@.reading.used_swap,
    {
        self.reading.used_swap
    }

    /// The retained samples of the memory percentage, oldest first.
    pub fn memory_history(&self) -> (r: &RingHistory<u32>)
        ensures
            r@ == self@.memory_history,
            r.capacity() == HISTORY_CAPACITY,
            self@.wf(),
    {
        proof {
            use_type_invariant(self);
        }
        &self.memory_history
    }

    /// The retained samples of the swap percentage, oldest first.
    pub fn swap_history(&self) -> (r: &RingHistory<u128>)
        ensures
            r@ == self@.swap_history,
            r.capacity() == HISTORY_CAPACITY,
            self@.wf(),
    {
        proof {
            use_type_invariant(self);
        }
        &self.swap_history
    }

    /// The memory history as (position, percentage) pairs, oldest first.
    pub fn _memory_graph_data(&self) -> (r: Vec<(usize, u32)>)
        ensures
            r@ == enumerated(self@.memory_history),
    {
        self.memory_history.as_sequence()
    }

    /// The swap history as (position, percentage) pairs, oldest first.
    pub fn _swap_graph_data(&self) -> (r: Vec<(usize, u128)>)
        ensures
            r@ == enumerated(self@.swap_history),
    {
        self.swap_history.as_sequence()
    }

    fn unavailable(&self) -> (r: u64)
        ensures
            r == self.reading.unavailable(),
    {
        if self.reading.available_memory >= self.reading.total_memory {
            0
        } else {
            self.reading.total_memory - self.reading.available_memory
        }
    }

    /// The share of memory that is not available, in hundredths of a
    /// percent; 0 if the machine reports no memory.
    pub fn current_memory_percent(&self) -> (r: u32)
        ensures
            r == self@.reading.memory_percent(),
            r == share(self@.reading.unavailable() as nat, self@.reading.total_memory as nat),
            r <= FULL,
            self@.reading.total_memory == 0 ==> r == 0,
    {
        proof {
            lemma_percentages_exact(self.reading);
        }
        share_of(self.unavailable(), self.reading.total_memory) as u32
    }

    /// The share of swap in use, in hundredths of a percent: 0 if no swap is
    /// configured, whatever is reported as used, and else `used / total`
    /// as it stands, above 100% where more is used than there is.
    pub fn current_swap_percent(&self) -> (r: u128)
        ensures
            r == self@.reading.swap_percent(),
            r == share(self@.reading.used_swap as nat, self@.reading.total_swap as nat),
            self@.reading.total_swap == 0 ==> r == 0,
            self@.reading.total_swap > 0 ==> r == rounded_div(
                (self@.reading.used_swap * FULL) as nat,
                self@.reading.total_swap as nat,
            ),
            self@.reading.used_swap <= self@.reading.total_swap ==> r <= FULL,
    {
        proof {
            lemma_percentages_exact(self.reading);
        }
        share_of(self.reading.used_swap, self.reading.total_swap)
    }

    /// The memory usage in words (see [`MemoryReading::memory_text`]).
    pub fn memory_usage_text(&self) -> (r: String)
        ensures
            r@ == self@.reading.memory_text(),
    {
        let used = self.unavailable();
        let total = self.reading.total_memory;
        let mut text = String::from_str("Memory: ");
        text.append(one_decimal_text(ratio_of(used, total, 1000)).as_str());
        text.append("% (");
        text.append(one_decimal_text(to_gib_tenths(used) as u128).as_str());
        text.append("GB / ");
        text.append(one_decimal_text(to_gib_tenths(total) as u128).as_str());
        text.append("GB)");
        text
    }

    /// The swap usage in words (see [`MemoryReading::swap_text`]).
    pub fn swap_usage_text(&self) -> (r: String)
        ensures
            r@ == self@.reading.swap_text(),
    {
        let used = self.reading.used_swap;
        let total = self.reading.total_swap;
        if total > 0 {
            let mut text = String::from_str("Swap: ");
            text.append(one_decimal_text(ratio_of(used, total, 1000)).as_str());
            text.append("% (");
            text.append(one_decimal_text(to_gib_tenths(used) as u128).as_str());
            text.append("GB / ");
            text.append(one_decimal_text(to_gib_tenths(total) as u128).as_str());
            text.append("GB)");
            text
        } else {
            String::from_str("Swap: Not Available")
        }
    }
}

} // verus!
