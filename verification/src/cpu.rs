//! CPU sampler state: global and per-core usage with their histories.
//!
//! The sampler holds no handle on the machine. Whoever reads the counters
//! hands each reading over as a [`CpuReading`]; the cores are identified by
//! their position, which never changes after construction.

use crate::history::{enumerated, pushed, RingHistory, HISTORY_CAPACITY};
use crate::percent::{all_within_full, clamp, clamped, FULL};
use crate::text::{decimal, decimal_text};
use vstd::prelude::*;
use vstd::string::*;

verus! {

/// One reading of the CPU counters: the global usage and the usage of each
/// core, in core order, in hundredths of a percent.
#[derive(Clone, Debug, PartialEq, Eq)]
pub struct CpuReading {
    pub global: u32,
    pub cores: Vec<u32>,
}

/// Mathematical model of a [`CpuCore`].
pub struct CpuCoreView {
    pub name: Seq<char>,
    pub usage: u32,
    pub history: Seq<u32>,
}

impl CpuCoreView {
    /// What holds of every core: the usage and every retained sample lie
    /// between 0% and 100%, and no more samples are retained than the history
    /// capacity.
    pub open spec fn wf(self) -> bool {
        &&& self.usage <= FULL
        &&& self.history.len() <= HISTORY_CAPACITY
        &&& all_within_full(self.history)
    }

    /// The core after a reading: the reading, clamped, is the current usage
    /// and the newest sample.
    pub open spec fn recorded(self, reading: u32) -> CpuCoreView {
        CpuCoreView {
            name: self.name,
            usage: clamped(reading),
            history: pushed(self.history, clamped(reading), HISTORY_CAPACITY as nat),
        }
    }
}

/// Recording keeps a core well-formed.
pub proof fn lemma_recorded_wf(core: CpuCoreView, reading: u32)
    requires
        core.wf(),
    ensures
        core.recorded(reading).wf(),
{
}

/// The name of the core at position `index`: the cores are numbered from 1.
pub open spec fn core_name(index: nat) -> Seq<char> {
    "Core "@ + decimal(index + 1)
}

/// Usage of one core and its history.
#[derive(Debug)]
pub struct CpuCore {
    name: String,
    usage: u32,
    history: RingHistory<u32>,
}

impl View for CpuCore {
    type V = CpuCoreView;

    closed spec fn view(&self) -> CpuCoreView {
        CpuCoreView { name: self.name@, usage: self.usage, history: self.history@ }
    }
}

impl CpuCore {
    #[verifier::type_invariant]
    spec fn inv(self) -> bool {
        &&& self.history.capacity() == HISTORY_CAPACITY
        &&& self@.wf()
    }

    /// A core that has not been sampled yet.
    pub fn new(name: String) -> (r: Self)
        ensures
            r@ == (CpuCoreView { name: name@, usage: 0, history: Seq::empty() }),
            r@.wf(),
    {
        CpuCore { name, usage: 0, history: RingHistory::new() }
    }

    /// The name of the core.
    pub fn name(&self) -> (r: &String)
        ensures
            r@ == self@.name,
    {
        &self.name
    }

    /// The latest usage, in hundredths of a percent.
    pub fn usage(&self) -> (r: u32)
        ensures
            r == self@.usage,
            r <= FULL,
    {
        proof {
            use_type_invariant(self);
        }
        self.usage
    }

    /// The retained usage samples, oldest first.
    pub fn history(&self) -> (r: &RingHistory<u32>)
        ensures
            r@ == self@.history,
            r.capacity() == HISTORY_CAPACITY,
            self@.wf(),
    {
        proof {
            use_type_invariant(self);
        }
        &self.history
    }

    /// Takes a usage reading: clamped to the range from 0% to 100%, it
    /// becomes the current usage and the newest sample.
    pub fn record(&mut self, reading: u32)
        ensures
            final(self)@ == old(self)@.recorded(reading),
            final(self)@.wf(),
    {
        proof {
            use_type_invariant(&*self);
        }
        let usage = clamp(reading);
        let mut history = RingHistory::new();
        core::mem::swap(&mut self.history, &mut history);
        history.push(usage);
        self.usage = usage;
        core::mem::swap(&mut self.history, &mut history);
    }
}

/// Mathematical model of a [`CpuInfo`].
pub struct CpuInfoView {
    pub global_usage: u32,
    pub cores: Seq<CpuCoreView>,
    pub history: Seq<u32>,
}

impl CpuInfoView {
    /// What holds of every sampler state: the global usage, every core and
    /// every retained sample lie between 0% and 100%, and no history holds
    /// more samples than the history capacity.
    pub open spec fn wf(self) -> bool {
        &&& self.global_usage <= FULL
        &&& self.history.len() <= HISTORY_CAPACITY
        &&& all_within_full(self.history)
        &&& forall|i: int| 0 <= i < self.cores.len() ==> (#[trigger] self.cores[i]).wf()
    }

    /// The state before the first reading: `core_count` cores, numbered from
    /// 1, with no usage and no samples.
    pub open spec fn initial(core_count: nat) -> CpuInfoView {
        CpuInfoView {
            global_usage: 0,
            cores: Seq::new(
                core_count,
                |i: int| CpuCoreView { name: core_name(i as nat), usage: 0, history: Seq::empty() },
            ),
            history: Seq::empty(),
        }
    }

    /// The state after a reading. The global usage is recorded; so is the
    /// usage of each core for which the reading holds a value. Cores beyond
    /// the reading stay as they are, and values beyond the known cores are
    /// ignored, so the cores keep their number, order and names.
    pub open spec fn updated(self, global: u32, cores: Seq<u32>) -> CpuInfoView {
        CpuInfoView {
            global_usage: clamped(global),
            cores: Seq::new(
                self.cores.len(),
                |i: int|
                    if i < cores.len() {
                        self.cores[i].recorded(cores[i])
                    } else {
                        self.cores[i]
                    },
            ),
            history: pushed(self.history, clamped(global), HISTORY_CAPACITY as nat),
        }
    }
}

/// A reading changes neither the number of cores nor the name of any core,
/// and leaves the state well-formed.
pub proof fn lemma_updated_keeps_cores(state: CpuInfoView, global: u32, cores: Seq<u32>)
    requires
        state.wf(),
    ensures
        state.updated(global, cores).wf(),
        state.updated(global, cores).cores.len() == state.cores.len(),
        forall|i: int|
            0 <= i < state.cores.len() ==> (#[trigger] state.updated(global, cores).cores[i]).name
                == state.cores[i].name,
{
    let next = state.updated(global, cores);
    assert forall|i: int| 0 <= i < next.cores.len() implies (#[trigger] next.cores[i]).wf() by {
        assert(state.cores[i].wf());
    }
}

/// Global CPU usage, its history, and the cores in their fixed order.
#[derive(Debug)]
pub struct CpuInfo {
    global_usage: u32,
    cores: Vec<CpuCore>,
    history: RingHistory<u32>,
}

impl View for CpuInfo {
    type V = CpuInfoView;

    closed spec fn view(&self) -> CpuInfoView {
        CpuInfoView {
            global_usage: self.global_usage,
            cores: Seq::new(self.cores@.len(), |i: int| self.cores@[i]@),
            history: self.history@,
        }
    }
}

impl CpuInfo {
    /// What is kept true of every sampler state.
    #[verifier::type_invariant]
    pub closed spec fn inv(self) -> bool {
        &&& self.history.capacity() == HISTORY_CAPACITY
        &&& self.history@.len() <= HISTORY_CAPACITY
        &&& self.global_usage <= FULL
        &&& all_within_full(self.history@)
        &&& forall|i: int| 0 <= i < self.cores@.len() ==> (#[trigger] self.cores@[i])@.wf()
    }

    /// Every sampler state is well-formed.
    pub proof fn lemma_inv_wf(self)
        requires
            self.inv(),
        ensures
            self@.wf(),
    {
    }

    /// The sampler state for a machine with `core_count` cores, before the
    /// first reading.
    pub fn new(core_count: usize) -> (r: Self)
        ensures
            r@ == CpuInfoView::initial(core_count as nat),
            r@.wf(),
    {
        let mut cores: Vec<CpuCore> = Vec::new();
        let mut i: usize = 0;
        while i < core_count
            invariant
                i <= core_count,
                cores@.len() == i,
                forall|j: int|
                    0 <= j < i ==> (#[trigger] cores@[j])@ == (CpuCoreView {
                        name: core_name(j as nat),
                        usage: 0,
                        history: Seq::empty(),
                    }),
            decreases core_count - i,
        {
            let mut name = String::from_str("Core ");
            let number = decimal_text((i + 1) as u128);
            name.append(number.as_str());
            cores.push(CpuCore::new(name));
            i += 1;
        }
        let info = CpuInfo { global_usage: 0, cores, history: RingHistory::new() };
        assert(info@.cores =~= CpuInfoView::initial(core_count as nat).cores);
        info
    }

    /// The latest global usage, in hundredths of a percent.
    pub fn global_usage(&self) -> (r: u32)
        ensures
            r == self@.global_usage,
            r <= FULL,
    {
        proof {
            use_type_invariant(self);
        }
        self.global_usage
    }

    /// The cores, in their fixed order.
    pub fn cores(&self) -> (r: &Vec<CpuCore>)
        ensures
            r@.len() == self@.cores.len(),
            forall|i: int| 0 <= i < r@.len() ==> (#[trigger] r@[i])@ == self@.cores[i],
            self@.wf(),
    {
        proof {
            use_type_invariant(self);
        }
        &self.cores
    }

    /// The retained samples of the global usage, oldest first.
    pub fn history(&self) -> (r: &RingHistory<u32>)
        ensures
            r@ == self@.history,
            r.capacity() == HISTORY_CAPACITY,
            self@.wf(),
    {
        proof {
            use_type_invariant(self);
        }
        &self.history
    }

    /// Takes one reading of the counters (see [`CpuInfoView::updated`]).
    pub fn update(&mut self, reading: &CpuReading)
        ensures
            final(self)@ == old(self)@.updated(reading.global, reading.cores@),
            final(self)@.wf(),
    {
        proof {
            use_type_invariant(&*self);
        }
        let ghost before = self@;
        let usage = clamp(reading.global);
        let mut history = RingHistory::new();
        core::mem::swap(&mut self.history, &mut history);
        history.push(usage);
        self.global_usage = usage;
        core::mem::swap(&mut self.history, &mut history);
        let mut cores: Vec<CpuCore> = Vec::new();
        core::mem::swap(&mut self.cores, &mut cores);
        let mut i: usize = 0;
        while i < cores.len() && i < reading.cores.len()
            invariant
                cores@.len() == before.cores.len(),
                i <= cores@.len(),
                i <= reading.cores@.len(),
                forall|j: int|
                    0 <= j < i ==> (#[trigger] cores@[j])@ == before.cores[j].recorded(
                        reading.cores@[j],
                    ),
                forall|j: int| i <= j < cores@.len() ==> (#[trigger] cores@[j])@ == before.cores[j],
                forall|j: int| 0 <= j < cores@.len() ==> (#[trigger] cores@[j])@.wf(),
            decreases cores@.len() - i,
        {
            cores[i].record(reading.cores[i]);
            i += 1;
        }
        core::mem::swap(&mut self.cores, &mut cores);
        assert(self@.cores =~= before.updated(reading.global, reading.cores@).cores);
    }

    /// The history of the core at `core_index` as (position, usage) pairs,
    /// oldest first; `None` if there is no such core.
    pub fn _core_graph_data(&self, core_index: usize) -> (r: Option<Vec<(usize, u32)>>)
        ensures
            core_index < self@.cores.len() ==> r is Some && r->0@ == enumerated(
                self@.cores[core_index as int].history,
            ),
            core_index >= self@.cores.len() ==> r is None,
    {
        if core_index < self.cores.len() {
            Some(self.cores[core_index].history().as_sequence())
        } else {
            None
        }
    }
}

} // verus!
