//! Multi-GPU bookkeeping: adapter descriptions, per-GPU usage counters and
//! round-robin GPU selection.
//!
//! Adapter discovery is done by the graphics API outside this module; the monitor
//! starts from the adapters it is given (none by default).

use std::collections::HashMap;
use crate::monitor::text::{contains_chars, str_contains};
use vstd::prelude::*;
use vstd::std_specs::hash::group_hash_axioms;

verus! {

broadcast use group_hash_axioms;

/// WGPU backend type
#[derive(Debug, Clone, Copy, PartialEq, Eq, Structural)]
pub enum WgpuBackendType {
    /// Vulkan (Linux, Windows, Android)
    Vulkan,
    /// Metal (macOS, iOS)
    Metal,
    /// DirectX 12 (Windows)
    Dx12,
    /// DirectX 11 (Windows, legacy)
    Dx11,
    /// OpenGL (fallback)
    Gl,
    /// WebGPU (browsers)
    BrowserWebGpu,
    /// Unknown/Empty
    Empty,
}

/// GPU device type
#[derive(Debug, Clone, Copy, PartialEq, Eq, Structural)]
pub enum GpuDeviceType {
    /// Discrete GPU (dedicated graphics card)
    DiscreteGpu,
    /// Integrated GPU (on CPU die)
    IntegratedGpu,
    /// Virtual GPU
    VirtualGpu,
    /// CPU/software rendering
    Cpu,
    /// Unknown type
    Other,
}

/// GPU adapter information
#[derive(Debug, Clone)]
pub struct GpuAdapterInfo {
    /// Adapter index
    pub index: usize,
    /// GPU name (e.g., "AMD Radeon Pro W5700X")
    pub name: String,
    /// Backend type (Metal, Vulkan, etc.)
    pub backend: WgpuBackendType,
    /// Device type (Discrete, Integrated, etc.)
    pub device_type: GpuDeviceType,
    /// Driver name
    pub driver: String,
    /// Driver info/version
    pub driver_info: String,
    /// Vendor ID
    pub vendor_id: u32,
    /// Device ID
    pub device_id: u32,
}

impl GpuAdapterInfo {
    /// True for a discrete GPU.
    pub fn is_discrete(&self) -> (b: bool)
        ensures
            b == (self.device_type == GpuDeviceType::DiscreteGpu),
    {
        match self.device_type {
            GpuDeviceType::DiscreteGpu => true,
            _ => false,
        }
    }

    /// True for an integrated GPU.
    pub fn is_integrated(&self) -> (b: bool)
        ensures
            b == (self.device_type == GpuDeviceType::IntegratedGpu),
    {
        match self.device_type {
            GpuDeviceType::IntegratedGpu => true,
            _ => false,
        }
    }
}

/// Adapter limits
#[derive(Debug, Clone)]
pub struct AdapterLimits {
    /// Maximum buffer size in bytes
    pub max_buffer_size: u64,
    /// Maximum texture dimension 1D
    pub max_texture_dimension_1d: u32,
    /// Maximum texture dimension 2D
    pub max_texture_dimension_2d: u32,
    /// Maximum compute workgroup size X
    pub max_compute_workgroup_size_x: u32,
    /// Maximum compute workgroups per dimension
    pub max_compute_workgroups_per_dimension: u32,
}

/// Per-GPU usage counters.
#[derive(Debug, Clone, Copy, PartialEq, Eq, Structural)]
pub struct GpuMetrics {
    /// Queue submission count
    pub submissions: u64,
    /// Compute dispatch count
    pub dispatches: u64,
    /// Buffer allocated bytes
    pub buffer_bytes: u64,
    /// Active buffer bytes
    pub active_buffer_bytes: u64,
}

/// Counters that start at zero.
pub open spec fn zero_metrics() -> GpuMetrics {
    GpuMetrics { submissions: 0, dispatches: 0, buffer_bytes: 0, active_buffer_bytes: 0 }
}

/// `a + b` modulo 2^64, as atomic counters add.
pub open spec fn wrap_add(a: u64, b: u64) -> u64 {
    ((a as int + b as int) % 0x1_0000_0000_0000_0000) as u64
}

/// Collected WGPU metrics
#[derive(Debug, Clone)]
pub struct WgpuMetrics {
    /// Number of adapters
    pub adapter_count: usize,
    /// Per-GPU submission counts
    pub submissions: Vec<u64>,
    /// Per-GPU dispatch counts
    pub dispatches: Vec<u64>,
    /// Per-GPU buffer bytes
    pub buffer_bytes: Vec<u64>,
}

/// The number of discrete GPUs among `adapters`.
pub open spec fn discrete_count(adapters: Seq<GpuAdapterInfo>) -> nat
    decreases adapters.len(),
{
    if adapters.len() == 0 {
        0
    } else {
        discrete_count(adapters.drop_last()) + if adapters.last().device_type
            == GpuDeviceType::DiscreteGpu {
            1nat
        } else {
            0nat
        }
    }
}

/// The number of discrete GPUs among `adapters` whose name contains "AMD".
pub open spec fn amd_discrete_count(adapters: Seq<GpuAdapterInfo>) -> nat
    decreases adapters.len(),
{
    if adapters.len() == 0 {
        0
    } else {
        amd_discrete_count(adapters.drop_last()) + if adapters.last().device_type
            == GpuDeviceType::DiscreteGpu && contains_chars(adapters.last().name@, "AMD"@) {
            1nat
        } else {
            0nat
        }
    }
}

proof fn lemma_discrete_count_bound(adapters: Seq<GpuAdapterInfo>)
    ensures
        discrete_count(adapters) <= adapters.len(),
        amd_discrete_count(adapters) <= adapters.len(),
    decreases adapters.len(),
{
    if adapters.len() > 0 {
        lemma_discrete_count_bound(adapters.drop_last());
    }
}

/// The number of GPUs round-robin selection cycles through: the discrete GPUs, at least one.
pub open spec fn round_robin_slots(adapters: Seq<GpuAdapterInfo>) -> int {
    if discrete_count(adapters) == 0 {
        1
    } else {
        discrete_count(adapters) as int
    }
}

/// Multi-GPU monitor: adapter descriptions, per-GPU counters and a round-robin cursor.
pub struct WgpuMonitor {
    adapter_info: Vec<GpuAdapterInfo>,
    gpu_metrics: Vec<GpuMetrics>,
    round_robin_counter: usize,
    invalidated: HashMap<usize, bool>,
}

impl WgpuMonitor {
    #[verifier::type_invariant]
    spec fn inv(self) -> bool {
        self.adapter_info@.len() == self.gpu_metrics@.len()
    }

    /// Every known adapter has exactly one set of counters, at the same index.
    pub open spec fn counters_match(self) -> bool {
        self.adapter_seq().len() == self.metric_seq().len()
    }

    /// The known adapters.
    pub closed spec fn adapter_seq(self) -> Seq<GpuAdapterInfo> {
        self.adapter_info@
    }

    /// The per-GPU counters.
    pub closed spec fn metric_seq(self) -> Seq<GpuMetrics> {
        self.gpu_metrics@
    }

    /// The round-robin cursor.
    pub closed spec fn cursor(self) -> usize {
        self.round_robin_counter
    }

    /// The adapters marked as invalidated.
    pub closed spec fn invalidated_map(self) -> Map<usize, bool> {
        self.invalidated@
    }

    /// A monitor with no adapters (no graphics API was queried).
    pub fn new() -> (m: Self)
        ensures
            m.counters_match(),
            m.adapter_seq().len() == 0,
            m.metric_seq().len() == 0,
            m.cursor() == 0,
            m.invalidated_map() == Map::<usize, bool>::empty(),
    {
        WgpuMonitor {
            adapter_info: Vec::new(),
            gpu_metrics: Vec::new(),
            round_robin_counter: 0,
            invalidated: HashMap::new(),
        }
    }

    /// A monitor for the given adapters, with all counters at zero.
    pub fn from_adapters(adapters: Vec<GpuAdapterInfo>) -> (m: Self)
        ensures
            m.counters_match(),
            m.adapter_seq() == adapters@,
            m.metric_seq().len() == adapters@.len(),
            forall|i: int| 0 <= i < adapters@.len() ==> #[trigger] m.metric_seq()[i] == zero_metrics(),
            m.cursor() == 0,
            m.invalidated_map() == Map::<usize, bool>::empty(),
    {
        let mut gpu_metrics: Vec<GpuMetrics> = Vec::new();
        let mut i: usize = 0;
        while i < adapters.len()
            invariant
                0 <= i <= adapters@.len(),
                gpu_metrics@.len() == i,
                forall|j: int| 0 <= j < i ==> #[trigger] gpu_metrics@[j] == zero_metrics(),
            decreases adapters@.len() - i,
        {
            gpu_metrics.push(
                GpuMetrics { submissions: 0, dispatches: 0, buffer_bytes: 0, active_buffer_bytes: 0 },
            );
            i = i + 1;
        }
        WgpuMonitor {
            adapter_info: adapters,
            gpu_metrics,
            round_robin_counter: 0,
            invalidated: HashMap::new(),
        }
    }

    /// All known adapters.
    pub fn adapters(&self) -> (r: &[GpuAdapterInfo])
        ensures
            r@ == self.adapter_seq(),
            self.counters_match(),
    {
        proof { use_type_invariant(self); }
        self.adapter_info.as_slice()
    }

    /// The primary (first) adapter.
    pub fn primary_adapter(&self) -> (r: Option<&GpuAdapterInfo>)
        ensures
            r == (if self.adapter_seq().len() == 0 {
                None
            } else {
                Some(&self.adapter_seq()[0])
            }),
    {
        if self.adapter_info.len() == 0 {
            None
        } else {
            Some(&self.adapter_info[0])
        }
    }

    /// The adapter at `index`, if any.
    pub fn adapter_info(&self, index: usize) -> (r: Option<&GpuAdapterInfo>)
        ensures
            r == (if index < self.adapter_seq().len() {
                Some(&self.adapter_seq()[index as int])
            } else {
                None
            }),
    {
        if index < self.adapter_info.len() {
            Some(&self.adapter_info[index])
        } else {
            None
        }
    }

    /// Adapter limits; without a device to query, every limit is reported as zero.
    pub fn adapter_limits(&self, _index: usize) -> (r: AdapterLimits)
        ensures
            r.max_buffer_size == 0,
            r.max_texture_dimension_1d == 0,
            r.max_texture_dimension_2d == 0,
            r.max_compute_workgroup_size_x == 0,
            r.max_compute_workgroups_per_dimension == 0,
    {
        AdapterLimits {
            max_buffer_size: 0,
            max_texture_dimension_1d: 0,
            max_texture_dimension_2d: 0,
            max_compute_workgroup_size_x: 0,
            max_compute_workgroups_per_dimension: 0,
        }
    }

    /// The number of discrete GPUs.
    pub fn discrete_gpu_count(&self) -> (n: usize)
        ensures
            n == discrete_count(self.adapter_seq()),
    {
        let mut n: usize = 0;
        let mut i: usize = 0;
        while i < self.adapter_info.len()
            invariant
                0 <= i <= self.adapter_info@.len(),
                n == discrete_count(self.adapter_info@.subrange(0, i as int)),
            decreases self.adapter_info@.len() - i,
        {
            proof {
                assert(self.adapter_info@.subrange(0, i + 1).drop_last()
                    =~= self.adapter_info@.subrange(0, i as int));
                lemma_discrete_count_bound(self.adapter_info@.subrange(0, i as int));
            }
            if self.adapter_info[i].is_discrete() {
                n = n + 1;
            }
            i = i + 1;
        }
        proof {
            assert(self.adapter_info@.subrange(0, i as int) =~= self.adapter_info@);
        }
        n
    }

    /// True when at least two discrete GPUs have "AMD" in their name.
    pub fn has_dual_amd(&self) -> (b: bool)
        ensures
            b == (amd_discrete_count(self.adapter_seq()) >= 2),
    {
        let mut n: usize = 0;
        let mut i: usize = 0;
        while i < self.adapter_info.len()
            invariant
                0 <= i <= self.adapter_info@.len(),
                n == amd_discrete_count(self.adapter_info@.subrange(0, i as int)),
            decreases self.adapter_info@.len() - i,
        {
            proof {
                assert(self.adapter_info@.subrange(0, i + 1).drop_last()
                    =~= self.adapter_info@.subrange(0, i as int));
                lemma_discrete_count_bound(self.adapter_info@.subrange(0, i as int));
            }
            if str_contains(self.adapter_info[i].name.as_str(), "AMD") && self.adapter_info[i].is_discrete() {
                n = n + 1;
            }
            i = i + 1;
        }
        proof {
            assert(self.adapter_info@.subrange(0, i as int) =~= self.adapter_info@);
        }
        n >= 2
    }

    /// Counts a queue submission on GPU `gpu_index` (ignored for an unknown GPU).
    pub fn record_submission(&mut self, gpu_index: usize)
        ensures
            final(self).counters_match(),
            final(self).adapter_seq() == old(self).adapter_seq(),
            final(self).cursor() == old(self).cursor(),
            final(self).invalidated_map() == old(self).invalidated_map(),
            final(self).metric_seq() == (if gpu_index < old(self).metric_seq().len() {
                let m = old(self).metric_seq()[gpu_index as int];
                old(self).metric_seq().update(
                    gpu_index as int,
                    GpuMetrics { submissions: wrap_add(m.submissions, 1), ..m },
                )
            } else {
                old(self).metric_seq()
            }),
    {
        proof { use_type_invariant(&*self); }
        if gpu_index < self.gpu_metrics.len() {
            let mut m = self.gpu_metrics[gpu_index];
            m.submissions = m.submissions.wrapping_add(1);
            self.gpu_metrics[gpu_index] = m;
        }
    }

    /// Counts a compute dispatch on GPU `gpu_index` (ignored for an unknown GPU).
    pub fn record_dispatch(&mut self, gpu_index: usize)
        ensures
            final(self).counters_match(),
            final(self).adapter_seq() == old(self).adapter_seq(),
            final(self).cursor() == old(self).cursor(),
            final(self).invalidated_map() == old(self).invalidated_map(),
            final(self).metric_seq() == (if gpu_index < old(self).metric_seq().len() {
                let m = old(self).metric_seq()[gpu_index as int];
                old(self).metric_seq().update(
                    gpu_index as int,
                    GpuMetrics { dispatches: wrap_add(m.dispatches, 1), ..m },
                )
            } else {
                old(self).metric_seq()
            }),
    {
        proof { use_type_invariant(&*self); }
        if gpu_index < self.gpu_metrics.len() {
            let mut m = self.gpu_metrics[gpu_index];
            m.dispatches = m.dispatches.wrapping_add(1);
            self.gpu_metrics[gpu_index] = m;
        }
    }

    /// Counts a buffer allocation of `bytes` on GPU `gpu_index` (ignored for an unknown GPU).
    pub fn record_buffer_allocation(&mut self, gpu_index: usize, bytes: u64)
        ensures
            final(self).counters_match(),
            final(self).adapter_seq() == old(self).adapter_seq(),
            final(self).cursor() == old(self).cursor(),
            final(self).invalidated_map() == old(self).invalidated_map(),
            final(self).metric_seq() == (if gpu_index < old(self).metric_seq().len() {
                let m = old(self).metric_seq()[gpu_index as int];
                old(self).metric_seq().update(
                    gpu_index as int,
                    GpuMetrics {
                        buffer_bytes: wrap_add(m.buffer_bytes, bytes),
                        active_buffer_bytes: wrap_add(m.active_buffer_bytes, bytes),
                        ..m
                    },
                )
            } else {
                old(self).metric_seq()
            }),
    {
        proof { use_type_invariant(&*self); }
        if gpu_index < self.gpu_metrics.len() {
            let mut m = self.gpu_metrics[gpu_index];
            m.buffer_bytes = m.buffer_bytes.wrapping_add(bytes);
            m.active_buffer_bytes = m.active_buffer_bytes.wrapping_add(bytes);
            self.gpu_metrics[gpu_index] = m;
        }
    }

    /// Queue submissions counted on GPU `gpu_index` (0 for an unknown GPU).
    pub fn queue_submissions(&self, gpu_index: usize) -> (r: u64)
        ensures
            r == (if gpu_index < self.metric_seq().len() {
                self.metric_seq()[gpu_index as int].submissions
            } else {
                0
            }),
    {
        if gpu_index < self.gpu_metrics.len() {
            self.gpu_metrics[gpu_index].submissions
        } else {
            0
        }
    }

    /// Compute dispatches counted on GPU `gpu_index` (0 for an unknown GPU).
    pub fn compute_dispatches(&self, gpu_index: usize) -> (r: u64)
        ensures
            r == (if gpu_index < self.metric_seq().len() {
                self.metric_seq()[gpu_index as int].dispatches
            } else {
                0
            }),
    {
        if gpu_index < self.gpu_metrics.len() {
            self.gpu_metrics[gpu_index].dispatches
        } else {
            0
        }
    }

    /// Buffer bytes allocated on GPU `gpu_index` (0 for an unknown GPU).
    pub fn buffer_allocated_bytes(&self, gpu_index: usize) -> (r: u64)
        ensures
            r == (if gpu_index < self.metric_seq().len() {
                self.metric_seq()[gpu_index as int].buffer_bytes
            } else {
                0
            }),
    {
        if gpu_index < self.gpu_metrics.len() {
            self.gpu_metrics[gpu_index].buffer_bytes
        } else {
            0
        }
    }

    /// The next GPU in round-robin order over the discrete GPUs (at least one slot).
    pub fn next_gpu_round_robin(&mut self) -> (r: usize)
        ensures
            final(self).counters_match(),
            r == old(self).cursor() as int % round_robin_slots(old(self).adapter_seq()),
            r < round_robin_slots(old(self).adapter_seq()),
            final(self).cursor() == (if old(self).cursor() == usize::MAX {
                0
            } else {
                old(self).cursor() + 1
            }),
            final(self).adapter_seq() == old(self).adapter_seq(),
            final(self).metric_seq() == old(self).metric_seq(),
            final(self).invalidated_map() == old(self).invalidated_map(),
    {
        proof { use_type_invariant(&*self); }
        let discrete = self.discrete_gpu_count();
        let count = if discrete > 1 { discrete } else { 1 };
        let r = self.round_robin_counter % count;
        self.round_robin_counter = self.round_robin_counter.wrapping_add(1);
        r
    }

    /// Marks adapter `index` as invalidated.
    pub fn invalidate_adapter(&mut self, index: usize)
        ensures
            final(self).counters_match(),
            final(self).invalidated_map() == old(self).invalidated_map().insert(index, true),
            final(self).adapter_seq() == old(self).adapter_seq(),
            final(self).metric_seq() == old(self).metric_seq(),
            final(self).cursor() == old(self).cursor(),
    {
        proof { use_type_invariant(&*self); }
        let mut marks: HashMap<usize, bool> = HashMap::new();
        std::mem::swap(&mut marks, &mut self.invalidated);
        marks.insert(index, true);
        std::mem::swap(&mut marks, &mut self.invalidated);
    }

    /// Forgets every invalidation; the adapter list is kept.
    pub fn refresh_adapters(&mut self)
        ensures
            final(self).counters_match(),
            final(self).invalidated_map() == Map::<usize, bool>::empty(),
            final(self).adapter_seq() == old(self).adapter_seq(),
            final(self).metric_seq() == old(self).metric_seq(),
            final(self).cursor() == old(self).cursor(),
    {
        proof { use_type_invariant(&*self); }
        let mut marks: HashMap<usize, bool> = HashMap::new();
        std::mem::swap(&mut marks, &mut self.invalidated);
        marks.clear();
        std::mem::swap(&mut marks, &mut self.invalidated);
    }

    /// A snapshot of the adapter count and of every GPU's counters.
    pub fn collect_metrics(&self) -> (r: WgpuMetrics)
        ensures
            r.adapter_count == self.adapter_seq().len(),
            r.adapter_count == r.submissions@.len(),
            self.counters_match(),
            r.submissions@.len() == self.metric_seq().len(),
            r.dispatches@.len() == self.metric_seq().len(),
            r.buffer_bytes@.len() == self.metric_seq().len(),
            forall|i: int| 0 <= i < self.metric_seq().len() ==> {
                &&& #[trigger] r.submissions@[i] == self.metric_seq()[i].submissions
                &&& r.dispatches@[i] == self.metric_seq()[i].dispatches
                &&& r.buffer_bytes@[i] == self.metric_seq()[i].buffer_bytes
            },
    {
        proof { use_type_invariant(self); }
        let mut submissions: Vec<u64> = Vec::new();
        let mut dispatches: Vec<u64> = Vec::new();
        let mut buffer_bytes: Vec<u64> = Vec::new();
        let mut i: usize = 0;
        while i < self.gpu_metrics.len()
            invariant
                0 <= i <= self.gpu_metrics@.len(),
                submissions@.len() == i,
                dispatches@.len() == i,
                buffer_bytes@.len() == i,
                forall|j: int| 0 <= j < i ==> {
                    &&& #[trigger] submissions@[j] == self.gpu_metrics@[j].submissions
                    &&& dispatches@[j] == self.gpu_metrics@[j].dispatches
                    &&& buffer_bytes@[j] == self.gpu_metrics@[j].buffer_bytes
                },
            decreases self.gpu_metrics@.len() - i,
        {
            submissions.push(self.gpu_metrics[i].submissions);
            dispatches.push(self.gpu_metrics[i].dispatches);
            buffer_bytes.push(self.gpu_metrics[i].buffer_bytes);
            i = i + 1;
        }
        WgpuMetrics { adapter_count: self.adapter_info.len(), submissions, dispatches, buffer_bytes }
    }
}

impl Default for WgpuMonitor {
    /// Same as `new`.
    fn default() -> (m: Self)
        ensures
            m.counters_match(),
            m.adapter_seq().len() == 0,
            m.metric_seq().len() == 0,
            m.cursor() == 0,
            m.invalidated_map() == Map::<usize, bool>::empty(),
    {
        Self::new()
    }
}

/// Recording a submission on a known GPU raises that GPU's submission count by one
/// (modulo 2^64) and leaves every other GPU's counters unchanged.
pub proof fn lemma_submission_counted(s: Seq<GpuMetrics>, i: int, j: int)
    requires
        0 <= i < s.len(),
        0 <= j < s.len(),
    ensures
        ({
            let t = s.update(i, GpuMetrics { submissions: wrap_add(s[i].submissions, 1), ..s[i] });
            &&& t[i].submissions == wrap_add(s[i].submissions, 1)
            &&& t[i].dispatches == s[i].dispatches
            &&& t[i].buffer_bytes == s[i].buffer_bytes
            &&& j != i ==> t[j] == s[j]
        }),
{
}

} // verus!
