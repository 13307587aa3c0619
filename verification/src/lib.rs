//! Selection of a physical GPU and queue family for rendering and
//! presentation.
//!
//! The library models each candidate device as plain data: its class, the
//! capability-extension names it supports, and its queue families, each with
//! a capability flag set and the recorded outcome of the presentation-support
//! query against the target surface. The selector filters candidates by
//! required extensions, picks each surviving device's first queue family that
//! satisfies the required flags and can present, and ranks survivors by
//! device class, preferring discrete GPUs.

mod device;
mod selector;

pub use device::DeviceClass;
pub use device::DeviceInfo;
pub use device::QueueFamily;
pub use device::SelectionError;
pub use device::SelectionRequirement;
pub use device::SelectionResult;
pub use device::class_rank;
pub use device::family_qualifies;
pub use device::family_stops_scan;
pub use device::flags_contain;
pub use device::rank_of_class;
pub use device::scan_reaches;
pub use device::spec_flags_contain;
pub use selector::contains_all;
pub use selector::device_qualifies;
pub use selector::device_scan_errors;
pub use selector::first_qualifying_family;
pub use selector::has_name;
pub use selector::is_best_device;
pub use selector::is_chosen_family;
pub use selector::scan_errors;
pub use selector::select_best_device;
pub use selector::some_device_errors;
pub use selector::some_device_qualifies;
pub use selector::spec_contains_all;
pub use selector::spec_has_name;
pub use selector::supports_required_extensions;
