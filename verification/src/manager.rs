//! Device manager: the registry of active device identities and the
//! decisions the hot-plug scan takes for each enumerated device.
//!
//! The manager owns no USB context. Enumeration hands it one
//! [`DeviceInfo`] per attached device; [`DisplayLinkManager::plan_device`]
//! says whether that device is to be initialized, and
//! [`DisplayLinkManager::commit_device`] records an identity once its
//! driver thread is actually running — never before, so a device is not
//! marked active until its loop is.

use crate::identity::{device_label, label_spec};
use vstd::prelude::*;

verus! {

/// USB vendor id of the adapters this driver serves.
pub const DISPLAYLINK_VID: u16 = 0x17E9;

/// USB product id of the adapters this driver serves.
pub const DISPLAYLINK_PID: u16 = 0x4307;

/// What enumeration reports of one attached USB device.
#[derive(Debug, Clone, Copy, PartialEq, Eq, Structural)]
pub struct DeviceInfo {
    pub vendor_id: u16,
    pub product_id: u16,
    pub bus: u8,
    pub address: u8,
}

/// Whether a device carries the served vendor/product identity pair.
pub open spec fn is_target_device(info: DeviceInfo) -> bool {
    info.vendor_id == DISPLAYLINK_VID && info.product_id == DISPLAYLINK_PID
}

/// The identity label of an enumerated device.
pub open spec fn info_label(info: DeviceInfo) -> Seq<char> {
    label_spec(info.bus, info.address)
}

/// What a scan does with one enumerated device.
#[derive(Debug, Clone, Copy, PartialEq, Eq, Structural)]
pub enum InitDecision {
    /// Not a served device: skipped.
    NotOurs,
    /// Already registered: initializing it again would double-drive the
    /// hardware, so the scan leaves it alone.
    AlreadyActive,
    /// A served device seen for the first time: open it, run its
    /// driver, and only then commit its identity.
    Initialize,
}

/// The decision for one device against a registry state.
pub open spec fn spec_decision(registered: Set<Seq<char>>, info: DeviceInfo) -> InitDecision {
    if !is_target_device(info) {
        InitDecision::NotOurs
    } else if registered.contains(info_label(info)) {
        InitDecision::AlreadyActive
    } else {
        InitDecision::Initialize
    }
}

/// What the registry holds after one device is handled, when
/// initialization succeeds: only an `Initialize` decision adds an
/// identity.
pub open spec fn scan_step(registered: Set<Seq<char>>, info: DeviceInfo) -> Set<Seq<char>> {
    if spec_decision(registered, info) == InitDecision::Initialize {
        registered.insert(info_label(info))
    } else {
        registered
    }
}

/// What the registry holds after a whole scan over an enumeration, when
/// every initialization succeeds.
pub open spec fn scan_spec(registered: Set<Seq<char>>, devices: Seq<DeviceInfo>) -> Set<
    Seq<char>,
>
    decreases devices.len(),
{
    if devices.len() == 0 {
        registered
    } else {
        scan_spec(scan_step(registered, devices.first()), devices.drop_first())
    }
}

/// A scan never drops an identity, and registers every served device it
/// saw.
proof fn lemma_scan_grows(registered: Set<Seq<char>>, devices: Seq<DeviceInfo>)
    ensures
        forall|x: Seq<char>|
            registered.contains(x) ==> #[trigger] scan_spec(registered, devices).contains(x),
        forall|k: int|
            0 <= k < devices.len() && is_target_device(#[trigger] devices[k]) ==> scan_spec(
                registered,
                devices,
            ).contains(info_label(devices[k])),
    decreases devices.len(),
{
    if devices.len() > 0 {
        let first = devices.first();
        let stepped = scan_step(registered, first);
        lemma_scan_grows(stepped, devices.drop_first());
        assert(scan_spec(registered, devices) == scan_spec(stepped, devices.drop_first()));
        assert forall|x: Seq<char>| registered.contains(x) implies #[trigger] scan_spec(
            registered,
            devices,
        ).contains(x) by {
            assert(stepped.contains(x));
            assert(scan_spec(stepped, devices.drop_first()).contains(x));
        }
        assert forall|k: int|
            0 <= k < devices.len() && is_target_device(#[trigger] devices[k]) implies scan_spec(
            registered,
            devices,
        ).contains(info_label(devices[k])) by {
            if k == 0 {
                assert(stepped.contains(info_label(first)));
                assert(scan_spec(stepped, devices.drop_first()).contains(info_label(first)));
            } else {
                assert(devices[k] == devices.drop_first()[k - 1]);
                assert(scan_spec(stepped, devices.drop_first()).contains(
                    info_label(devices.drop_first()[k - 1]),
                ));
            }
        }
    }
}

/// A scan that finds every served device already registered changes
/// nothing.
proof fn lemma_scan_noop(registered: Set<Seq<char>>, devices: Seq<DeviceInfo>)
    requires
        forall|k: int|
            0 <= k < devices.len() && is_target_device(#[trigger] devices[k])
                ==> registered.contains(info_label(devices[k])),
    ensures
        scan_spec(registered, devices) == registered,
    decreases devices.len(),
{
    if devices.len() > 0 {
        let first = devices.first();
        assert(is_target_device(first) ==> registered.contains(info_label(first)));
        assert(scan_step(registered, first) == registered);
        assert forall|k: int|
            0 <= k < devices.drop_first().len() && is_target_device(
                #[trigger] devices.drop_first()[k],
            ) implies registered.contains(info_label(devices.drop_first()[k])) by {
            assert(devices.drop_first()[k] == devices[k + 1]);
        }
        lemma_scan_noop(registered, devices.drop_first());
    }
}

/// Law: re-scanning the same hardware is a no-op — after one scan has
/// registered what there is, a second scan over the same enumeration
/// initializes nothing further and the device count stays put.
pub proof fn lemma_rescan_stable(registered: Set<Seq<char>>, devices: Seq<DeviceInfo>)
    ensures
        scan_spec(scan_spec(registered, devices), devices) == scan_spec(registered, devices),
        forall|k: int|
            0 <= k < devices.len() ==> spec_decision(
                scan_spec(registered, devices),
                #[trigger] devices[k],
            ) != InitDecision::Initialize,
    decreases devices.len(),
{
    lemma_scan_grows(registered, devices);
    lemma_scan_noop(scan_spec(registered, devices), devices);
}

/// The registry of running devices: one identity label per adapter whose
/// driver thread is live. Identities are never removed; a label's
/// presence means the device was initialized at some point in this
/// process.
pub struct DisplayLinkManager {
    active: Vec<String>,
}

impl DisplayLinkManager {
    /// The set of registered identity labels.
    pub closed spec fn registered(self) -> Set<Seq<char>> {
        self.active.deep_view().to_set()
    }

    /// No identity is held twice.
    pub closed spec fn wf(self) -> bool {
        self.active.deep_view().no_duplicates()
    }

    pub fn new() -> (m: Self)
        ensures
            m.wf(),
            m.registered() == Set::<Seq<char>>::empty(),
    {
        let m = DisplayLinkManager { active: Vec::new() };
        proof {
            assert(m.active.deep_view() =~= Seq::<Seq<char>>::empty());
            assert(m.registered() =~= Set::<Seq<char>>::empty());
        }
        m
    }

    /// Whether an identity label is registered.
    fn contains_label(&self, label: &String) -> (present: bool)
        ensures
            present == self.registered().contains(label@),
    {
        let ghost ids: Seq<Seq<char>> = self.active.deep_view();
        let mut k: usize = 0;
        while k < self.active.len()
            invariant
                0 <= k <= self.active@.len(),
                ids == self.active.deep_view(),
                ids.len() == self.active@.len(),
                forall|j: int| 0 <= j < k ==> #[trigger] ids[j] != label@,
            decreases self.active@.len() - k,
        {
            proof {
                assert(ids[k as int] == self.active@[k as int]@);
            }
            if self.active[k].eq(label) {
                proof {
                    assert(ids.contains(label@));
                }
                return true;
            }
            k = k + 1;
        }
        proof {
            if self.registered().contains(label@) {
                let j = choose|j: int| 0 <= j < ids.len() && ids[j] == label@;
                assert(ids[j] != label@);
            }
        }
        false
    }

    /// Decide what a scan does with one enumerated device: skip a
    /// foreign device, skip an already-registered one (repeated scans
    /// are idempotent), initialize a new one.
    pub fn plan_device(&self, info: DeviceInfo) -> (decision: InitDecision)
        ensures
            decision == spec_decision(self.registered(), info),
    {
        if info.vendor_id != DISPLAYLINK_VID || info.product_id != DISPLAYLINK_PID {
            return InitDecision::NotOurs;
        }
        let label: String = device_label(info.bus, info.address);
        if self.contains_label(&label) {
            InitDecision::AlreadyActive
        } else {
            InitDecision::Initialize
        }
    }

    /// Record a device identity as active. Called only after the
    /// device's driver loop has been spawned, so the registry never
    /// names a device whose loop is not running.
    pub fn commit_device(&mut self, info: DeviceInfo)
        requires
            old(self).wf(),
        ensures
            final(self).wf(),
            final(self).registered() == old(self).registered().insert(info_label(info)),
    {
        let label: String = device_label(info.bus, info.address);
        if self.contains_label(&label) {
            proof {
                assert(final(self).registered() =~= old(self).registered().insert(
                    info_label(info),
                ));
            }
            return ;
        }
        let ghost before: Seq<Seq<char>> = self.active.deep_view();
        self.active.push(label);
        proof {
            assert(self.active.deep_view() =~= before.push(label_spec(info.bus, info.address)));
            before.lemma_push_to_set_commute(label_spec(info.bus, info.address));
            assert(self.active.deep_view().to_set() =~= before.to_set().insert(
                info_label(info),
            ));
        }
    }

    /// How many devices are registered.
    pub fn device_count(&self) -> (n: usize)
        requires
            self.wf(),
        ensures
            n == self.registered().len(),
    {
        proof {
            self.active.deep_view().unique_seq_to_set();
        }
        self.active.len()
    }
}

} // verus!
