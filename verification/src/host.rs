use vstd::prelude::*;
use std::time::Instant;
use crate::engine::{EngineInstance, EngineState};
use crate::ipc;

verus! {

/// A GPU device and its memory.
pub struct GpuDevice {
    pub index: usize,
    pub name: String,
    pub total_memory_bytes: u64,
    pub free_memory_bytes: u64,
    pub reserved_memory_bytes: u64,
    pub used_memory_bytes: u64,
}

impl GpuDevice {
    /// A copy with the same values.
    pub fn duplicate(&self) -> (copy: GpuDevice)
        ensures
            copy.index == self.index,
            copy.name@ == self.name@,
            copy.total_memory_bytes == self.total_memory_bytes,
            copy.free_memory_bytes == self.free_memory_bytes,
            copy.reserved_memory_bytes == self.reserved_memory_bytes,
            copy.used_memory_bytes == self.used_memory_bytes,
    {
        GpuDevice {
            index: self.index,
            name: self.name.clone(),
            total_memory_bytes: self.total_memory_bytes,
            free_memory_bytes: self.free_memory_bytes,
            reserved_memory_bytes: self.reserved_memory_bytes,
            used_memory_bytes: self.used_memory_bytes,
        }
    }
}

/// Who holds an allocation of GPU memory: the engine of a model, or another process.
pub enum GpuAllocationOwner {
    EngineInstance { model_name: String },
    Other { process_id: u32 },
}

/// GPU memory held by one process on one device.
pub struct GpuAllocation {
    pub owner: GpuAllocationOwner,
    pub gpu_index: usize,
    pub memory_bytes: u64,
}

/// The GPU devices and their allocations at one time.
pub struct GpuMonitoringSnapshot {
    pub time: Instant,
    pub gpu_devices: Vec<GpuDevice>,
    pub gpu_allocations: Vec<GpuAllocation>,
}

/// Whether an allocation is held by the engine of the model `name`.
pub open spec fn owned_by_model(a: &GpuAllocation, name: Seq<char>) -> bool {
    match a.owner {
        GpuAllocationOwner::EngineInstance { model_name } => model_name@ == name,
        GpuAllocationOwner::Other { .. } => false,
    }
}

/// Whether `i` is the first running instance whose engine process is `process_id`.
pub open spec fn is_first_engine_process(instances: Seq<EngineInstance>, process_id: u32, i: int) -> bool {
    &&& 0 <= i < instances.len()
    &&& instances[i].engine_state == EngineState::Running
    &&& instances[i].engine_process_id == Some(process_id)
    &&& forall|j: int| 0 <= j < i ==> !(#[trigger] instances[j].engine_state == EngineState::Running
        && instances[j].engine_process_id == Some(process_id))
}

/// The owner of a process's GPU memory: the first running engine with that
/// process, else the process itself.
pub fn process_owner(instances: &Vec<EngineInstance>, process_id: u32) -> (owner: GpuAllocationOwner)
    ensures
        match owner {
            GpuAllocationOwner::EngineInstance { model_name } => exists|i: int|
                is_first_engine_process(instances@, process_id, i) && model_name@ == instances@[i].model_config.name@,
            GpuAllocationOwner::Other { process_id: p } => p == process_id
                && forall|j: int| 0 <= j < instances@.len() ==> !(#[trigger] instances@[j].engine_state == EngineState::Running
                    && instances@[j].engine_process_id == Some(process_id)),
        },
{
    let mut i: usize = 0;
    while i < instances.len()
        invariant
            0 <= i <= instances.len(),
            forall|j: int| 0 <= j < i ==> !(#[trigger] instances@[j].engine_state == EngineState::Running
                && instances@[j].engine_process_id == Some(process_id)),
        decreases instances.len() - i,
    {
        let e = &instances[i];
        if e.engine_state == EngineState::Running && e.engine_process_id == Some(process_id) {
            proof {
                assert(is_first_engine_process(instances@, process_id, i as int));
            }
            return GpuAllocationOwner::EngineInstance { model_name: e.model_config.name.clone() };
        }
        i = i + 1;
    }
    GpuAllocationOwner::Other { process_id }
}

impl GpuMonitoringSnapshot {
    /// An empty snapshot taken at `time`.
    pub fn new(time: Instant) -> (snapshot: GpuMonitoringSnapshot)
        ensures
            snapshot.time == time,
            snapshot.gpu_devices@.len() == 0,
            snapshot.gpu_allocations@.len() == 0,
    {
        GpuMonitoringSnapshot { time, gpu_devices: Vec::new(), gpu_allocations: Vec::new() }
    }

    /// Whether a snapshot this old, in whole seconds, is recent enough to reuse:
    /// it is younger than one second.
    pub fn is_fresh(age_whole_secs: u64) -> (fresh: bool)
        ensures
            fresh == (age_whole_secs == 0),
    {
        age_whole_secs == 0
    }

    /// Adds a device.
    pub fn record_device(&mut self, device: GpuDevice)
        ensures
            final(self).gpu_devices@ == old(self).gpu_devices@.push(device),
            final(self).gpu_allocations == old(self).gpu_allocations,
            final(self).time == old(self).time,
    {
        self.gpu_devices.push(device);
    }

    /// Adds the memory a process holds on device `gpu_index`, owned as
    /// [`process_owner`] says; fails when the amount is not available.
    pub fn record_process(&mut self, instances: &Vec<EngineInstance>, gpu_index: usize, process_id: u32, used_memory_bytes: Option<u64>) -> (recorded: bool)
        ensures
            recorded == used_memory_bytes is Some,
            final(self).gpu_devices == old(self).gpu_devices,
            final(self).time == old(self).time,
            !recorded ==> final(self).gpu_allocations == old(self).gpu_allocations,
            recorded ==> {
                let a = final(self).gpu_allocations@.last();
                &&& final(self).gpu_allocations@.drop_last() == old(self).gpu_allocations@
                &&& final(self).gpu_allocations@.len() == old(self).gpu_allocations@.len() + 1
                &&& a.gpu_index == gpu_index
                &&& a.memory_bytes == used_memory_bytes->0
                &&& match a.owner {
                    GpuAllocationOwner::EngineInstance { model_name } => exists|i: int|
                        is_first_engine_process(instances@, process_id, i) && model_name@ == instances@[i].model_config.name@,
                    GpuAllocationOwner::Other { process_id: p } => p == process_id
                        && forall|j: int| 0 <= j < instances@.len() ==> !(#[trigger] instances@[j].engine_state == EngineState::Running
                            && instances@[j].engine_process_id == Some(process_id)),
                }
            },
    {
        match used_memory_bytes {
            Some(memory_bytes) => {
                let owner = process_owner(instances, process_id);
                self.gpu_allocations.push(GpuAllocation { owner, gpu_index, memory_bytes });
                proof {
                    assert(self.gpu_allocations@.drop_last() =~= old(self).gpu_allocations@);
                }
                true
            },
            None => false,
        }
    }

    /// The allocations held by the engine of the model `model_name`, in order.
    pub fn model_gpu_allocations(&self, model_name: &str) -> (allocations: Vec<&GpuAllocation>)
        ensures
            allocations@.map_values(|r: &GpuAllocation| *r) == self.gpu_allocations@.filter(|a: GpuAllocation| owned_by_model(&a, model_name@)),
    {
        let ghost pred = |a: GpuAllocation| owned_by_model(&a, model_name@);
        let mut allocations: Vec<&GpuAllocation> = Vec::new();
        let mut i: usize = 0;
        while i < self.gpu_allocations.len()
            invariant
                0 <= i <= self.gpu_allocations.len(),
                pred == (|a: GpuAllocation| owned_by_model(&a, model_name@)),
                allocations@.map_values(|r: &GpuAllocation| *r) =~= self.gpu_allocations@.take(i as int).filter(pred),
            decreases self.gpu_allocations.len() - i,
        {
            let a = &self.gpu_allocations[i];
            proof {
                assert(self.gpu_allocations@.take(i as int + 1) =~= self.gpu_allocations@.take(i as int).push(*a));
                self.gpu_allocations@.take(i as int).lemma_filter_push(*a, pred);
            }
            let owned = match &a.owner {
                GpuAllocationOwner::EngineInstance { model_name: name } => crate::text::str_equal(name.as_str(), model_name),
                GpuAllocationOwner::Other { .. } => false,
            };
            if owned {
                allocations.push(a);
            }
            i = i + 1;
        }
        proof {
            assert(self.gpu_allocations@.take(self.gpu_allocations.len() as int) =~= self.gpu_allocations@);
        }
        allocations
    }

    /// The snapshot as the control protocol reports it: engine owners by model name.
    pub fn to_usage(&self) -> (usage: ipc::GpuUsage)
        ensures
            usage.gpu_devices@.len() == self.gpu_devices@.len(),
            forall|k: int| 0 <= k < self.gpu_devices@.len() ==> {
                let d = #[trigger] usage.gpu_devices@[k];
                let s = self.gpu_devices@[k];
                &&& d.index == s.index
                &&& d.name@ == s.name@
                &&& d.total_memory_bytes == s.total_memory_bytes
                &&& d.free_memory_bytes == s.free_memory_bytes
                &&& d.reserved_memory_bytes == s.reserved_memory_bytes
                &&& d.used_memory_bytes == s.used_memory_bytes
            },
            usage.gpu_allocations@.len() == self.gpu_allocations@.len(),
            forall|k: int| 0 <= k < self.gpu_allocations@.len() ==> {
                let a = #[trigger] usage.gpu_allocations@[k];
                let s = self.gpu_allocations@[k];
                &&& a.gpu_index == s.gpu_index
                &&& a.memory_bytes == s.memory_bytes
                &&& match s.owner {
                    GpuAllocationOwner::EngineInstance { model_name } => a.owner matches ipc::GpuAllocationOwner::Model { model_name: m } && m@ == model_name@,
                    GpuAllocationOwner::Other { process_id } => a.owner == ipc::GpuAllocationOwner::Other { process_id },
                }
            },
    {
        let mut gpu_devices: Vec<GpuDevice> = Vec::new();
        let mut i: usize = 0;
        while i < self.gpu_devices.len()
            invariant
                0 <= i <= self.gpu_devices.len(),
                gpu_devices@.len() == i,
                forall|k: int| 0 <= k < i ==> {
                    let d = #[trigger] gpu_devices@[k];
                    let s = self.gpu_devices@[k];
                    &&& d.index == s.index
                    &&& d.name@ == s.name@
                    &&& d.total_memory_bytes == s.total_memory_bytes
                    &&& d.free_memory_bytes == s.free_memory_bytes
                    &&& d.reserved_memory_bytes == s.reserved_memory_bytes
                    &&& d.used_memory_bytes == s.used_memory_bytes
                },
            decreases self.gpu_devices.len() - i,
        {
            gpu_devices.push(self.gpu_devices[i].duplicate());
            i = i + 1;
        }
        let mut gpu_allocations: Vec<ipc::GpuAllocation> = Vec::new();
        let mut j: usize = 0;
        while j < self.gpu_allocations.len()
            invariant
                0 <= j <= self.gpu_allocations.len(),
                gpu_allocations@.len() == j,
                forall|k: int| 0 <= k < j ==> {
                    let a = #[trigger] gpu_allocations@[k];
                    let s = self.gpu_allocations@[k];
                    &&& a.gpu_index == s.gpu_index
                    &&& a.memory_bytes == s.memory_bytes
                    &&& match s.owner {
                        GpuAllocationOwner::EngineInstance { model_name } => a.owner matches ipc::GpuAllocationOwner::Model { model_name: m } && m@ == model_name@,
                        GpuAllocationOwner::Other { process_id } => a.owner == ipc::GpuAllocationOwner::Other { process_id },
                    }
                },
            decreases self.gpu_allocations.len() - j,
        {
            let s = &self.gpu_allocations[j];
            let owner = match &s.owner {
                GpuAllocationOwner::EngineInstance { model_name } => ipc::GpuAllocationOwner::Model { model_name: model_name.clone() },
                GpuAllocationOwner::Other { process_id } => ipc::GpuAllocationOwner::Other { process_id: *process_id },
            };
            gpu_allocations.push(ipc::GpuAllocation { owner, gpu_index: s.gpu_index, memory_bytes: s.memory_bytes });
            j = j + 1;
        }
        ipc::GpuUsage { gpu_devices, gpu_allocations }
    }
}

} // verus!
