//! The part of a device description that the register database reads:
//! peripherals with their registers and clusters, and which peripheral
//! derives from which.

use vstd::prelude::*;
use crate::regdoctor::{address_at, clone_field_infos, field_infos_view, opt_str_view};
use crate::regdoctor::{FieldInfo, FieldInfoView};
use crate::text::str_eq;

verus! {

/// A register as a peripheral or cluster describes it.
#[derive(Debug, PartialEq, Eq)]
pub struct RegisterDesc {
    pub name: String,
    /// Offset from the base of the peripheral or cluster.
    pub address_offset: u32,
    pub fields: Vec<FieldInfo>,
    pub reset_value: Option<u64>,
}

pub struct RegisterDescView {
    pub name: Seq<char>,
    pub address_offset: u32,
    pub fields: Seq<FieldInfoView>,
    pub reset_value: Option<u64>,
}

impl View for RegisterDesc {
    type V = RegisterDescView;

    open spec fn view(&self) -> RegisterDescView {
        RegisterDescView {
            name: self.name@,
            address_offset: self.address_offset,
            fields: field_infos_view(self.fields@),
            reset_value: self.reset_value,
        }
    }
}

impl Clone for RegisterDesc {
    fn clone(&self) -> (res: Self)
        ensures
            res@ == self@,
    {
        RegisterDesc {
            name: self.name.clone(),
            address_offset: self.address_offset,
            fields: clone_field_infos(&self.fields),
            reset_value: self.reset_value,
        }
    }
}

/// The views of a list of registers, element by element.
pub open spec fn register_descs_view(registers: Seq<RegisterDesc>) -> Seq<RegisterDescView> {
    registers.map_values(|register: RegisterDesc| register@)
}

/// Copies a list of registers.
pub fn clone_register_descs(registers: &Vec<RegisterDesc>) -> (res: Vec<RegisterDesc>)
    ensures
        register_descs_view(res@) == register_descs_view(registers@),
{
    let res = registers.clone();
    assert(register_descs_view(res@) =~= register_descs_view(registers@));
    res
}

/// A cluster of registers within a peripheral.
#[derive(Debug, PartialEq, Eq)]
pub struct Cluster {
    pub name: String,
    /// Offset from the base of the peripheral.
    pub address_offset: u32,
    /// The registers that stand directly in the cluster.
    pub registers: Vec<RegisterDesc>,
}

pub struct ClusterView {
    pub name: Seq<char>,
    pub address_offset: u32,
    pub registers: Seq<RegisterDescView>,
}

impl View for Cluster {
    type V = ClusterView;

    open spec fn view(&self) -> ClusterView {
        ClusterView {
            name: self.name@,
            address_offset: self.address_offset,
            registers: register_descs_view(self.registers@),
        }
    }
}

impl Clone for Cluster {
    fn clone(&self) -> (res: Self)
        ensures
            res@ == self@,
    {
        Cluster {
            name: self.name.clone(),
            address_offset: self.address_offset,
            registers: clone_register_descs(&self.registers),
        }
    }
}

impl ClusterView {
    /// The cluster, in a peripheral at `base`, and each of its registers
    /// lie at an address of 64 bits.
    pub open spec fn addresses_fit(self, base: u64) -> bool {
        &&& address_at(base, self.address_offset) <= u64::MAX
        &&& forall|i: int|
            0 <= i < self.registers.len() ==> address_at(base, self.address_offset) + (
            #[trigger] self.registers[i]).address_offset <= u64::MAX
    }
}

/// The views of a list of clusters, element by element.
pub open spec fn clusters_view(clusters: Seq<Cluster>) -> Seq<ClusterView> {
    clusters.map_values(|cluster: Cluster| cluster@)
}

/// Copies a list of clusters.
pub fn clone_clusters(clusters: &Vec<Cluster>) -> (res: Vec<Cluster>)
    ensures
        clusters_view(res@) == clusters_view(clusters@),
{
    let res = clusters.clone();
    assert(clusters_view(res@) =~= clusters_view(clusters@));
    res
}

/// A peripheral: a block of registers at a base address.
#[derive(Debug, PartialEq, Eq)]
pub struct Peripheral {
    pub name: String,
    pub base_address: u64,
    /// Name of the peripheral whose registers this one repeats, if any.
    pub derived_from: Option<String>,
    /// The registers that stand directly in the peripheral.
    pub registers: Vec<RegisterDesc>,
    /// The clusters that stand directly in the peripheral.
    pub clusters: Vec<Cluster>,
}

pub struct PeripheralView {
    pub name: Seq<char>,
    pub base_address: u64,
    pub derived_from: Option<Seq<char>>,
    pub registers: Seq<RegisterDescView>,
    pub clusters: Seq<ClusterView>,
}

impl View for Peripheral {
    type V = PeripheralView;

    open spec fn view(&self) -> PeripheralView {
        PeripheralView {
            name: self.name@,
            base_address: self.base_address,
            derived_from: opt_str_view(self.derived_from),
            registers: register_descs_view(self.registers@),
            clusters: clusters_view(self.clusters@),
        }
    }
}

impl Clone for Peripheral {
    fn clone(&self) -> (res: Self)
        ensures
            res@ == self@,
    {
        Peripheral {
            name: self.name.clone(),
            base_address: self.base_address,
            derived_from: self.derived_from.clone(),
            registers: clone_register_descs(&self.registers),
            clusters: clone_clusters(&self.clusters),
        }
    }
}

impl PeripheralView {
    /// Whether the peripheral has registers or clusters of its own.
    pub open spec fn has_own(self) -> bool {
        self.registers.len() > 0 || self.clusters.len() > 0
    }

    /// Every register of the peripheral and of its clusters lies at an
    /// address of 64 bits.
    pub open spec fn addresses_fit(self) -> bool {
        &&& forall|i: int|
            0 <= i < self.registers.len() ==> address_at(
                self.base_address,
                (#[trigger] self.registers[i]).address_offset,
            ) <= u64::MAX
        &&& forall|k: int|
            0 <= k < self.clusters.len() ==> (#[trigger] self.clusters[k]).addresses_fit(
                self.base_address,
            )
    }
}

impl Peripheral {
    /// Whether every register of the peripheral and of its clusters lies at
    /// an address of 64 bits.
    pub fn addresses_fit(&self) -> (fit: bool)
        ensures
            fit == self@.addresses_fit(),
    {
        let base: u64 = self.base_address;
        let mut i: usize = 0;
        while i < self.registers.len()
            invariant
                i <= self.registers.len(),
                base == self.base_address,
                forall|j: int|
                    0 <= j < i ==> address_at(base, (#[trigger] self@.registers[j]).address_offset)
                        <= u64::MAX,
            decreases self.registers.len() - i,
        {
            assert(self@.registers[i as int] == self.registers[i as int]@);
            if self.registers[i].address_offset as u64 > u64::MAX - base {
                return false;
            }
            i += 1;
        }
        let mut k: usize = 0;
        while k < self.clusters.len()
            invariant
                k <= self.clusters.len(),
                base == self.base_address,
                forall|j: int|
                    0 <= j < self.registers.len() ==> address_at(
                        base,
                        (#[trigger] self@.registers[j]).address_offset,
                    ) <= u64::MAX,
                forall|j: int| 0 <= j < k ==> (#[trigger] self@.clusters[j]).addresses_fit(base),
            decreases self.clusters.len() - k,
        {
            let cluster = &self.clusters[k];
            assert(self@.clusters[k as int] == cluster@);
            if cluster.address_offset as u64 > u64::MAX - base {
                assert(!cluster@.addresses_fit(base));
                return false;
            }
            let cluster_base: u64 = base + cluster.address_offset as u64;
            let mut r: usize = 0;
            while r < cluster.registers.len()
                invariant
                    r <= cluster.registers.len(),
                    k < self.clusters.len(),
                    self@.clusters[k as int] == cluster@,
                    base == self.base_address,
                    cluster_base == address_at(base, cluster.address_offset),
                    forall|j: int|
                        0 <= j < r ==> cluster_base + (#[trigger] cluster@.registers[j]).address_offset
                            <= u64::MAX,
                decreases cluster.registers.len() - r,
            {
                assert(cluster@.registers[r as int] == cluster.registers[r as int]@);
                if cluster.registers[r].address_offset as u64 > u64::MAX - cluster_base {
                    assert(!cluster@.addresses_fit(base)) by {
                        assert(cluster_base + cluster@.registers[r as int].address_offset
                            > u64::MAX);
                    }
                    return false;
                }
                r += 1;
            }
            k += 1;
        }
        true
    }
}

/// The views of a list of peripherals, element by element.
pub open spec fn peripherals_view(peripherals: Seq<Peripheral>) -> Seq<PeripheralView> {
    peripherals.map_values(|peripheral: Peripheral| peripheral@)
}

/// A device: a name and its peripherals.
#[derive(Debug, PartialEq, Eq)]
pub struct Device {
    pub name: String,
    pub peripherals: Vec<Peripheral>,
}

pub struct DeviceView {
    pub name: Seq<char>,
    pub peripherals: Seq<PeripheralView>,
}

impl View for Device {
    type V = DeviceView;

    open spec fn view(&self) -> DeviceView {
        DeviceView { name: self.name@, peripherals: peripherals_view(self.peripherals@) }
    }
}

impl Clone for Device {
    fn clone(&self) -> (res: Self)
        ensures
            res@ == self@,
    {
        let peripherals = self.peripherals.clone();
        assert(peripherals_view(peripherals@) =~= peripherals_view(self.peripherals@));
        Device { name: self.name.clone(), peripherals }
    }
}

impl DeviceView {
    /// Index of the first peripheral at or after `from` that bears `name`.
    pub open spec fn find_from(self, name: Seq<char>, from: int) -> Option<int>
        decreases self.peripherals.len() - from,
    {
        if from < 0 || from >= self.peripherals.len() {
            None
        } else if self.peripherals[from].name == name {
            Some(from)
        } else {
            self.find_from(name, from + 1)
        }
    }

    /// Index of the first peripheral that bears `name`.
    pub open spec fn find(self, name: Seq<char>) -> Option<int> {
        self.find_from(name, 0)
    }

    /// Peripheral `i` with what it derives filled in.
    pub open spec fn expanded_peripheral(self, i: int) -> PeripheralView {
        let peripheral = self.peripherals[i];
        match peripheral.derived_from {
            Some(derived_from) => match self.find(derived_from) {
                Some(at) => {
                    let base = self.peripherals[at];
                    PeripheralView {
                        derived_from: None,
                        registers: if peripheral.has_own() {
                            peripheral.registers
                        } else {
                            base.registers
                        },
                        clusters: if peripheral.has_own() {
                            peripheral.clusters
                        } else {
                            base.clusters
                        },
                        ..peripheral
                    }
                },
                None => peripheral,
            },
            None => peripheral,
        }
    }

    /// The device with every derived peripheral filled in, in one pass over
    /// the device as it came.
    pub open spec fn expanded(self) -> DeviceView {
        DeviceView {
            name: self.name,
            peripherals: Seq::new(self.peripherals.len(), |i: int| self.expanded_peripheral(i)),
        }
    }

    /// Every register of every peripheral, as the peripherals stand, lies at
    /// an address of 64 bits.
    pub open spec fn peripherals_fit(self) -> bool {
        forall|i: int|
            0 <= i < self.peripherals.len() ==> (#[trigger] self.peripherals[i]).addresses_fit()
    }

    /// Every register lies at an address of 64 bits once the derived
    /// peripherals are filled in.
    pub open spec fn addresses_fit(self) -> bool {
        self.expanded().peripherals_fit()
    }

    /// Whether a peripheral still derives from another.
    pub open spec fn has_derived(self) -> bool {
        exists|i: int|
            0 <= i < self.peripherals.len() && (#[trigger] self.peripherals[i]).derived_from is Some
    }
}

/// What [`DeviceView::find_from`] finds bears the name and is the first at
/// or after `from` to do so; it finds nothing only where none does.
pub proof fn lemma_find_from(device: DeviceView, name: Seq<char>, from: int)
    requires
        0 <= from,
    ensures
        match device.find_from(name, from) {
            Some(at) => from <= at < device.peripherals.len() && device.peripherals[at].name == name
                && forall|j: int| from <= j < at ==> (#[trigger] device.peripherals[j]).name != name,
            None => forall|j: int|
                from <= j < device.peripherals.len() ==> (#[trigger] device.peripherals[j]).name
                    != name,
        },
    decreases device.peripherals.len() - from,
{
    if from < device.peripherals.len() && device.peripherals[from].name != name {
        lemma_find_from(device, name, from + 1);
    }
}

impl Device {
    /// The first peripheral that bears `name`.
    pub fn get_peripheral(&self, name: &str) -> (peripheral: Option<&Peripheral>)
        ensures
            match self@.find(name@) {
                Some(at) => peripheral is Some && peripheral->0@ == self@.peripherals[at],
                None => peripheral is None,
            },
    {
        let mut i: usize = 0;
        while i < self.peripherals.len()
            invariant
                i <= self.peripherals.len(),
                self@.find(name@) == self@.find_from(name@, i as int),
            decreases self.peripherals.len() - i,
        {
            assert(self@.peripherals[i as int] == self.peripherals[i as int]@);
            if str_eq(self.peripherals[i].name.as_str(), name) {
                return Some(&self.peripherals[i]);
            }
            i += 1;
        }
        None
    }

    /// Whether every register lies at an address of 64 bits as the
    /// peripherals stand.
    pub fn peripherals_fit(&self) -> (fit: bool)
        ensures
            fit == self@.peripherals_fit(),
    {
        let mut i: usize = 0;
        while i < self.peripherals.len()
            invariant
                i <= self.peripherals.len(),
                forall|j: int| 0 <= j < i ==> (#[trigger] self@.peripherals[j]).addresses_fit(),
            decreases self.peripherals.len() - i,
        {
            assert(self@.peripherals[i as int] == self.peripherals[i as int]@);
            if !self.peripherals[i].addresses_fit() {
                return false;
            }
            i += 1;
        }
        true
    }

    /// Whether a peripheral still derives from another.
    pub fn has_derived(&self) -> (derived: bool)
        ensures
            derived == self@.has_derived(),
    {
        let mut i: usize = 0;
        while i < self.peripherals.len()
            invariant
                i <= self.peripherals.len(),
                forall|j: int| 0 <= j < i ==> (#[trigger] self@.peripherals[j]).derived_from is None,
            decreases self.peripherals.len() - i,
        {
            assert(self@.peripherals[i as int] == self.peripherals[i as int]@);
            if self.peripherals[i].derived_from.is_some() {
                return true;
            }
            i += 1;
        }
        false
    }
}

} // verus!
