//! Data model for device selection: device classes, queue family
//! descriptors, candidate devices, the selection requirement, and the
//! selection outcome.

use vstd::prelude::*;

verus! {

/// Coarse category of a physical device, used to rank suitability.
#[derive(Clone, Copy, Debug, PartialEq, Eq, Structural)]
pub enum DeviceClass {
    DiscreteGpu,
    IntegratedGpu,
    VirtualGpu,
    Cpu,
    Other,
}

/// Preference rank of a device class: lower is better, discrete GPUs first.
pub open spec fn class_rank(c: DeviceClass) -> int {
    match c {
        DeviceClass::DiscreteGpu => 0,
        DeviceClass::IntegratedGpu => 1,
        DeviceClass::VirtualGpu => 2,
        DeviceClass::Cpu => 3,
        DeviceClass::Other => 4,
    }
}

/// Executable counterpart of [`class_rank`].
pub fn rank_of_class(c: DeviceClass) -> (r: u8)
    ensures
        r as int == class_rank(c),
{
    match c {
        DeviceClass::DiscreteGpu => 0,
        DeviceClass::IntegratedGpu => 1,
        DeviceClass::VirtualGpu => 2,
        DeviceClass::Cpu => 3,
        DeviceClass::Other => 4,
    }
}

/// One queue family of a device: its capability flag set and the recorded
/// outcome of the presentation-support query against the target surface.
/// `present` is `None` when the query itself failed, as opposed to
/// answering `false`.
#[derive(Clone, Copy, Debug)]
pub struct QueueFamily {
    pub flags: u32,
    pub present: Option<bool>,
}

/// One candidate device: its class, the extension names it reports as
/// supported, its queue families in index order, and its name.
#[derive(Clone, Debug)]
pub struct DeviceInfo {
    pub class: DeviceClass,
    pub name: String,
    pub extensions: Vec<String>,
    pub queue_families: Vec<QueueFamily>,
}

/// What a suitable device must offer: every listed extension, and a queue
/// family whose flag set contains `required_flags` and that can present to
/// the target surface.
#[derive(Clone, Debug)]
pub struct SelectionRequirement {
    pub required_extensions: Vec<String>,
    pub required_flags: u32,
}

/// A successful selection: the position of the chosen device in the
/// candidate sequence, and the index of its chosen queue family.
#[derive(Clone, Copy, Debug, PartialEq, Eq, Structural)]
pub struct SelectionResult {
    pub device_index: usize,
    pub queue_family_index: u32,
}

/// Why selection failed. `NoSuitableDevice`: no candidate satisfies the
/// requirement. `CapabilityQuery`: a presentation-support query that the
/// scan depends on itself failed, which indicates a broken environment
/// rather than an unsuitable device.
#[derive(Clone, Copy, Debug, PartialEq, Eq, Structural)]
pub enum SelectionError {
    NoSuitableDevice,
    CapabilityQuery,
}

/// `flags` offers at least every capability in `required`: containment,
/// not exact match.
pub open spec fn spec_flags_contain(flags: u32, required: u32) -> bool {
    flags & required == required
}

/// Executable counterpart of [`spec_flags_contain`].
pub fn flags_contain(flags: u32, required: u32) -> (r: bool)
    ensures
        r == spec_flags_contain(flags, required),
{
    flags & required == required
}

/// The family offers the required flags and presents to the surface.
pub open spec fn family_qualifies(f: QueueFamily, required_flags: u32) -> bool {
    spec_flags_contain(f.flags, required_flags) && f.present == Some(true)
}

/// The index-order scan over a device's queue families stops at this
/// family: either its presentation query failed, which is fatal, or it
/// qualifies and is chosen.
pub open spec fn family_stops_scan(f: QueueFamily, required_flags: u32) -> bool {
    f.present is None || family_qualifies(f, required_flags)
}

/// The scan reaches index `i`: every earlier family was queried
/// successfully and found not to qualify.
pub open spec fn scan_reaches(families: Seq<QueueFamily>, required_flags: u32, i: int) -> bool {
    forall|j: int| 0 <= j < i ==> !family_stops_scan(families[j], required_flags)
}

} // verus!
