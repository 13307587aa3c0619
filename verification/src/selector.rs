//! The device selector: extension filtering, queue family scanning, and a
//! class-ranked choice among the qualifying candidates.

use vstd::prelude::*;

use crate::device::DeviceInfo;
use crate::device::QueueFamily;
use crate::device::SelectionError;
use crate::device::SelectionRequirement;
use crate::device::SelectionResult;
use crate::device::class_rank;
use crate::device::family_qualifies;
use crate::device::family_stops_scan;
use crate::device::flags_contain;
use crate::device::rank_of_class;
use crate::device::scan_reaches;

verus! {

/// `name` occurs in `names`.
pub open spec fn spec_has_name(names: Seq<Seq<char>>, name: Seq<char>) -> bool {
    exists|i: int| 0 <= i < names.len() && names[i] == name
}

/// Every name in `required` occurs in `available`, by exact case-sensitive
/// identity.
pub open spec fn spec_contains_all(available: Seq<Seq<char>>, required: Seq<Seq<char>>) -> bool {
    forall|i: int| 0 <= i < required.len() ==> spec_has_name(available, required[i])
}

/// Whether `name` occurs in `names`, by exact case-sensitive identity.
pub fn has_name(names: &Vec<String>, name: &String) -> (r: bool)
    ensures
        r == spec_has_name(names.deep_view(), name@),
{
    let mut i: usize = 0;
    while i < names.len()
        invariant
            i <= names.len(),
            forall|j: int| 0 <= j < i ==> names.deep_view()[j] != name@,
        decreases names.len() - i,
    {
        if names[i] == *name {
            proof {
                assert(names.deep_view()[i as int] == name@);
            }
            return true;
        }
        i += 1;
    }
    false
}

/// Whether every name in `required` occurs in `available`: the containment
/// predicate behind both the extension filter and the validation-layer
/// support check.
pub fn contains_all(available: &Vec<String>, required: &Vec<String>) -> (r: bool)
    ensures
        r == spec_contains_all(available.deep_view(), required.deep_view()),
{
    let mut i: usize = 0;
    while i < required.len()
        invariant
            i <= required.len(),
            forall|j: int| 0 <= j < i ==> spec_has_name(available.deep_view(), required.deep_view()[j]),
        decreases required.len() - i,
    {
        if !has_name(available, &required[i]) {
            proof {
                assert(required.deep_view()[i as int] == required@[i as int]@);
            }
            return false;
        }
        i += 1;
    }
    true
}

/// The device reports every extension that the requirement lists.
pub open spec fn supports_required_extensions(d: DeviceInfo, req: SelectionRequirement) -> bool {
    spec_contains_all(d.extensions.deep_view(), req.required_extensions.deep_view())
}

/// `i` is the family the index-order scan chooses: every earlier family was
/// queried successfully and found not to qualify, and family `i` qualifies.
pub open spec fn is_chosen_family(families: Seq<QueueFamily>, required_flags: u32, i: int) -> bool {
    &&& 0 <= i < families.len()
    &&& scan_reaches(families, required_flags, i)
    &&& family_qualifies(families[i], required_flags)
}

/// The scan runs into a family whose presentation query failed before it
/// finds a qualifying family.
pub open spec fn scan_errors(families: Seq<QueueFamily>, required_flags: u32) -> bool {
    exists|i: int|
        0 <= i < families.len() && scan_reaches(families, required_flags, i)
            && families[i].present is None
}

/// The device passes the extension filter and owns a family the scan
/// chooses.
pub open spec fn device_qualifies(d: DeviceInfo, req: SelectionRequirement) -> bool {
    &&& supports_required_extensions(d, req)
    &&& exists|i: int| is_chosen_family(d.queue_families@, req.required_flags, i)
}

/// The device passes the extension filter, so its families are scanned, and
/// the scan runs into a failed presentation query.
pub open spec fn device_scan_errors(d: DeviceInfo, req: SelectionRequirement) -> bool {
    &&& supports_required_extensions(d, req)
    &&& scan_errors(d.queue_families@, req.required_flags)
}

/// Some candidate's family scan runs into a failed presentation query.
pub open spec fn some_device_errors(devices: Seq<DeviceInfo>, req: SelectionRequirement) -> bool {
    exists|k: int| 0 <= k < devices.len() && device_scan_errors(devices[k], req)
}

/// Some candidate qualifies.
pub open spec fn some_device_qualifies(devices: Seq<DeviceInfo>, req: SelectionRequirement) -> bool {
    exists|k: int| 0 <= k < devices.len() && device_qualifies(devices[k], req)
}

/// `d` is the candidate the ranking picks: it qualifies, no qualifying
/// candidate has a strictly lower class rank, and among equally ranked
/// qualifying candidates it is the first in enumeration order.
pub open spec fn is_best_device(devices: Seq<DeviceInfo>, req: SelectionRequirement, d: int) -> bool {
    &&& 0 <= d < devices.len()
    &&& device_qualifies(devices[d], req)
    &&& forall|j: int|
        0 <= j < devices.len() && device_qualifies(devices[j], req) ==> class_rank(
            devices[d].class,
        ) <= class_rank(devices[j].class)
    &&& forall|j: int|
        0 <= j < d && device_qualifies(devices[j], req) ==> class_rank(devices[d].class)
            < class_rank(devices[j].class)
}

/// Among qualifying candidates a strictly lower class rank always wins:
/// when `i` and `j` are the only qualifying candidates and `i`'s class
/// ranks strictly below `j`'s, the ranking picks `i` and nothing else,
/// wherever the two stand in enumeration order.
pub proof fn lemma_lower_class_rank_wins(
    devices: Seq<DeviceInfo>,
    req: SelectionRequirement,
    i: int,
    j: int,
)
    requires
        0 <= i < devices.len(),
        0 <= j < devices.len(),
        device_qualifies(devices[i], req),
        device_qualifies(devices[j], req),
        class_rank(devices[i].class) < class_rank(devices[j].class),
        forall|k: int|
            0 <= k < devices.len() && k != i && k != j ==> !device_qualifies(devices[k], req),
    ensures
        is_best_device(devices, req, i),
        forall|d: int| is_best_device(devices, req, d) ==> d == i,
{
    assert forall|k: int|
        0 <= k < devices.len() && device_qualifies(devices[k], req) implies class_rank(
        devices[i].class,
    ) <= class_rank(devices[k].class) by {
        if k != i && k != j {
            assert(!device_qualifies(devices[k], req));
        }
    }
    assert forall|k: int|
        0 <= k < i && device_qualifies(devices[k], req) implies class_rank(devices[i].class)
        < class_rank(devices[k].class) by {
        if k != i && k != j {
            assert(!device_qualifies(devices[k], req));
        }
    }
    assert forall|d: int| is_best_device(devices, req, d) implies d == i by {
        if d != i {
            assert(device_qualifies(devices[d], req));
            assert(d == j);
            assert(class_rank(devices[d].class) <= class_rank(devices[i].class));
            assert(false);
        }
    }
}

/// A candidate that lacks even one required extension is excluded outright:
/// it neither qualifies nor can be picked, whatever its class.
pub proof fn lemma_missing_extension_excludes(
    devices: Seq<DeviceInfo>,
    req: SelectionRequirement,
    k: int,
)
    requires
        0 <= k < devices.len(),
        !supports_required_extensions(devices[k], req),
    ensures
        !device_qualifies(devices[k], req),
        !is_best_device(devices, req, k),
{
}

/// A candidate none of whose families both offers the required flags and
/// presents to the surface is excluded: a family that can present but
/// lacks the flags does not save it.
pub proof fn lemma_no_qualifying_family_excludes(
    devices: Seq<DeviceInfo>,
    req: SelectionRequirement,
    k: int,
)
    requires
        0 <= k < devices.len(),
        forall|i: int|
            0 <= i < devices[k].queue_families@.len() ==> !family_qualifies(
                devices[k].queue_families@[i],
                req.required_flags,
            ),
    ensures
        !device_qualifies(devices[k], req),
        !is_best_device(devices, req, k),
{
    if device_qualifies(devices[k], req) {
        let i = choose|i: int| is_chosen_family(devices[k].queue_families@, req.required_flags, i);
        assert(family_qualifies(devices[k].queue_families@[i], req.required_flags));
        assert(false);
    }
}

/// A scan that chose family `i` never ran into a failed query: every family
/// before `i` was queried successfully, and the scan stops at `i`.
proof fn lemma_chosen_family_no_error(families: Seq<QueueFamily>, required_flags: u32, i: int)
    requires
        is_chosen_family(families, required_flags, i),
    ensures
        !scan_errors(families, required_flags),
{
    assert forall|i2: int|
        0 <= i2 < families.len() && scan_reaches(families, required_flags, i2) implies !(
    families[i2].present is None) by {
        if i2 <= i {
            if i2 < i {
                assert(!family_stops_scan(families[i2], required_flags));
            }
        } else {
            assert(!family_stops_scan(families[i], required_flags));
        }
    }
}

/// A scan that examined every family without stopping neither chose a
/// family nor ran into a failed query.
proof fn lemma_full_scan_clean(families: Seq<QueueFamily>, required_flags: u32)
    requires
        scan_reaches(families, required_flags, families.len() as int),
    ensures
        !scan_errors(families, required_flags),
        forall|i: int| !is_chosen_family(families, required_flags, i),
{
    assert forall|i: int| !is_chosen_family(families, required_flags, i) by {
        if 0 <= i < families.len() {
            assert(!family_stops_scan(families[i], required_flags));
        }
    }
    assert forall|i: int|
        0 <= i < families.len() && scan_reaches(families, required_flags, i) implies !(
    families[i].present is None) by {
        assert(!family_stops_scan(families[i], required_flags));
    }
}

/// Scan the families in index order and return the first whose flag set
/// contains `required_flags` and that can present. The scan performs, in
/// effect, the presentation query on every family it examines, so a failed
/// query on any examined family is fatal, whatever that family's flags.
pub fn first_qualifying_family(families: &Vec<QueueFamily>, required_flags: u32) -> (r: Result<
    Option<usize>,
    SelectionError,
>)
    ensures
        match r {
            Ok(Some(i)) => is_chosen_family(families@, required_flags, i as int),
            Ok(None) => scan_reaches(families@, required_flags, families@.len() as int),
            Err(e) => e == SelectionError::CapabilityQuery && scan_errors(
                families@,
                required_flags,
            ),
        },
{
    let mut i: usize = 0;
    while i < families.len()
        invariant
            i <= families.len(),
            scan_reaches(families@, required_flags, i as int),
        decreases families.len() - i,
    {
        let f = families[i];
        match f.present {
            None => {
                return Err(SelectionError::CapabilityQuery);
            },
            Some(p) => {
                if flags_contain(f.flags, required_flags) && p {
                    return Ok(Some(i));
                }
            },
        }
        i += 1;
    }
    Ok(None)
}

/// Pick the best physical device: keep the candidates that support every
/// required extension, drop those without a queue family that both offers
/// `required_flags` and presents to the surface, and among the survivors
/// return the first with the lowest class rank, together with its first
/// qualifying queue family index.
///
/// Fails with `CapabilityQuery` as soon as a scanned family's recorded
/// presentation query failed, and with `NoSuitableDevice` when no candidate
/// survives both filters.
pub fn select_best_device(devices: &Vec<DeviceInfo>, req: &SelectionRequirement) -> (r: Result<
    SelectionResult,
    SelectionError,
>)
    requires
        forall|k: int|
            0 <= k < devices@.len() ==> (#[trigger] devices@[k]).queue_families@.len()
                <= u32::MAX,
    ensures
        r matches Ok(sel) ==> {
            &&& is_best_device(devices@, *req, sel.device_index as int)
            &&& is_chosen_family(
                devices@[sel.device_index as int].queue_families@,
                req.required_flags,
                sel.queue_family_index as int,
            )
        },
        r is Ok <==> !some_device_errors(devices@, *req) && some_device_qualifies(devices@, *req),
        r == Err::<SelectionResult, SelectionError>(SelectionError::CapabilityQuery)
            <==> some_device_errors(devices@, *req),
        r == Err::<SelectionResult, SelectionError>(SelectionError::NoSuitableDevice) <==> (
        !some_device_errors(devices@, *req) && !some_device_qualifies(devices@, *req)),
{
    let mut best: Option<SelectionResult> = None;
    let mut best_rank: u8 = 0;
    let mut k: usize = 0;
    while k < devices.len()
        invariant
            k <= devices@.len(),
            forall|k2: int|
                0 <= k2 < devices@.len() ==> (#[trigger] devices@[k2]).queue_families@.len()
                    <= u32::MAX,
            forall|j: int| 0 <= j < k ==> !device_scan_errors(devices@[j], *req),
            best is None ==> forall|j: int| 0 <= j < k ==> !device_qualifies(devices@[j], *req),
            best matches Some(sel) ==> {
                &&& sel.device_index < k
                &&& device_qualifies(devices@[sel.device_index as int], *req)
                &&& is_chosen_family(
                    devices@[sel.device_index as int].queue_families@,
                    req.required_flags,
                    sel.queue_family_index as int,
                )
                &&& best_rank as int == class_rank(devices@[sel.device_index as int].class)
                &&& forall|j: int|
                    0 <= j < k && device_qualifies(devices@[j], *req) ==> best_rank as int
                        <= class_rank(devices@[j].class)
                &&& forall|j: int|
                    0 <= j < sel.device_index && device_qualifies(devices@[j], *req)
                        ==> (best_rank as int) < class_rank(devices@[j].class)
            },
        decreases devices@.len() - k,
    {
        let dev = &devices[k];
        if contains_all(&dev.extensions, &req.required_extensions) {
            match first_qualifying_family(&dev.queue_families, req.required_flags) {
                Err(_) => {
                    return Err(SelectionError::CapabilityQuery);
                },
                Ok(Some(fi)) => {
                    proof {
                        lemma_chosen_family_no_error(
                            dev.queue_families@,
                            req.required_flags,
                            fi as int,
                        );
                    }
                    let rank = rank_of_class(dev.class);
                    let qfi = fi as u32;
                    match best {
                        None => {
                            best = Some(
                                SelectionResult { device_index: k, queue_family_index: qfi },
                            );
                            best_rank = rank;
                        },
                        Some(_) => {
                            if rank < best_rank {
                                best = Some(
                                    SelectionResult { device_index: k, queue_family_index: qfi },
                                );
                                best_rank = rank;
                            }
                        },
                    }
                },
                Ok(None) => {
                    proof {
                        lemma_full_scan_clean(dev.queue_families@, req.required_flags);
                    }
                },
            }
        }
        k += 1;
    }
    match best {
        Some(sel) => Ok(sel),
        None => Err(SelectionError::NoSuitableDevice),
    }
}

} // verus!
