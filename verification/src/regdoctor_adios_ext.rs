//! Register descriptions of the ADI itself: the AP CSW under its layouts,
//! kept in a database of their own at addresses above the 32-bit range.

use vstd::prelude::*;
use vstd::string::StringExecFns;
use crate::regdoctor::svd::{Device, DeviceView, Peripheral, PeripheralView, RegisterDesc};
use crate::regdoctor::svd::RegisterDescView;
use crate::regdoctor::{with_device, with_peripheral, with_peripherals, with_registers};
use crate::regdoctor::{EnumeratedValue, EnumeratedValueView, FieldInfo, FieldInfoView};
use crate::regdoctor::{RegisterInfo, RegisterInfoView};

verus! {

/// The layout under which an AP's CSW is decoded.
#[derive(Copy, Clone, Debug, PartialEq, Eq, Structural)]
pub enum CswType {
    Generic,
    AmbaAhb3,
}

/// Address under which the generic CSW layout is kept.
pub const CSW_GENERIC: u64 = 0xFFFF_FFFF_0000_0000;

/// Address under which the CSW layout of an AMBA AHB3 AP is kept.
pub const CSW_AMBA_AHB3: u64 = 0xFFFF_FFFF_0000_0020;

/// The address under which the layout `type_` is kept.
pub open spec fn csw_address(type_: CswType) -> u64 {
    match type_ {
        CswType::Generic => CSW_GENERIC,
        CswType::AmbaAhb3 => CSW_AMBA_AHB3,
    }
}

/// A name for one value of a field.
pub open spec fn named_view(name: Seq<char>, value: u64) -> EnumeratedValueView {
    EnumeratedValueView { name, value: Some(value), is_default: false }
}

fn named(name: &str, value: u64) -> (res: EnumeratedValue)
    ensures
        res@ == named_view(name@, value),
{
    EnumeratedValue { name: String::from_str(name), value: Some(value), is_default: false }
}

/// A field without names for its values.
pub open spec fn plain_view(name: Seq<char>, bit_offset: u32, bit_width: u32) -> FieldInfoView {
    FieldInfoView { name, bit_offset, bit_width, enumerated_values: Seq::empty() }
}

fn plain(name: &str, bit_offset: u32, bit_width: u32) -> (res: FieldInfo)
    ensures
        res@ == plain_view(name@, bit_offset, bit_width),
{
    let res = FieldInfo {
        name: String::from_str(name),
        bit_offset,
        bit_width,
        enumerated_values: Vec::new(),
    };
    assert(res@.enumerated_values =~= Seq::empty());
    res
}

/// The size field: bits 2:0.
pub open spec fn size_field() -> FieldInfoView {
    FieldInfoView {
        name: "Size"@,
        bit_offset: 0,
        bit_width: 3,
        enumerated_values: seq![
            named_view("Byte"@, 0),
            named_view("Halfword"@, 1),
            named_view("Word"@, 2),
        ],
    }
}

/// The address-increment field: bits 5:4.
pub open spec fn addr_inc_field() -> FieldInfoView {
    FieldInfoView {
        name: "AddrInc"@,
        bit_offset: 4,
        bit_width: 2,
        enumerated_values: seq![
            named_view("Disabled"@, 0),
            named_view("Single"@, 1),
            named_view("Packed"@, 2),
        ],
    }
}

/// The fields of the CSW under `type_`, in ascending order of bit offset.
pub open spec fn csw_fields(type_: CswType) -> Seq<FieldInfoView> {
    match type_ {
        CswType::Generic => seq![
            size_field(),
            addr_inc_field(),
            plain_view("DeviceEn"@, 6, 1),
            plain_view("TrInProg"@, 7, 1),
            plain_view("SPIDEN"@, 23, 1),
            plain_view("Prot"@, 24, 7),
            plain_view("DbgSwEnable"@, 31, 1),
        ],
        CswType::AmbaAhb3 => seq![
            size_field(),
            addr_inc_field(),
            plain_view("DeviceEn"@, 6, 1),
            plain_view("TrInProg"@, 7, 1),
            plain_view("Mode"@, 8, 4),
            plain_view("SPIDEN"@, 23, 1),
            plain_view("HPROT"@, 24, 5),
            plain_view("MasterType"@, 29, 1),
            plain_view("DbgSwEnable"@, 31, 1),
        ],
    }
}

/// Name of the peripheral that holds the CSW under `type_`.
pub open spec fn csw_peripheral_name(type_: CswType) -> Seq<char> {
    match type_ {
        CswType::Generic => "MEM_AP"@,
        CswType::AmbaAhb3 => "AHB3_AP"@,
    }
}

/// The peripheral that holds the CSW under `type_`.
pub open spec fn csw_peripheral(type_: CswType) -> PeripheralView {
    PeripheralView {
        name: csw_peripheral_name(type_),
        base_address: csw_address(type_),
        derived_from: None,
        registers: seq![
            RegisterDescView {
                name: "CSW"@,
                address_offset: 0,
                fields: csw_fields(type_),
                reset_value: None,
            },
        ],
        clusters: Seq::empty(),
    }
}

/// The device that describes the ADI's own registers.
pub open spec fn adi_device() -> DeviceView {
    DeviceView {
        name: "ADI"@,
        peripherals: seq![csw_peripheral(CswType::Generic), csw_peripheral(CswType::AmbaAhb3)],
    }
}

/// The description of the CSW under `type_`.
pub open spec fn csw_info(type_: CswType) -> RegisterInfoView {
    RegisterInfoView {
        address: csw_address(type_),
        device_name: "ADI"@,
        peripheral_name: csw_peripheral_name(type_),
        cluster_name: None,
        name: "CSW"@,
        fields: csw_fields(type_),
        reset_value: None,
    }
}

fn build_size_field() -> (res: FieldInfo)
    ensures
        res@ == size_field(),
{
    let mut values: Vec<EnumeratedValue> = Vec::new();
    values.push(named("Byte", 0));
    values.push(named("Halfword", 1));
    values.push(named("Word", 2));
    let res = FieldInfo {
        name: String::from_str("Size"),
        bit_offset: 0,
        bit_width: 3,
        enumerated_values: values,
    };
    assert(res@.enumerated_values =~= size_field().enumerated_values);
    res
}

fn build_addr_inc_field() -> (res: FieldInfo)
    ensures
        res@ == addr_inc_field(),
{
    let mut values: Vec<EnumeratedValue> = Vec::new();
    values.push(named("Disabled", 0));
    values.push(named("Single", 1));
    values.push(named("Packed", 2));
    let res = FieldInfo {
        name: String::from_str("AddrInc"),
        bit_offset: 4,
        bit_width: 2,
        enumerated_values: values,
    };
    assert(res@.enumerated_values =~= addr_inc_field().enumerated_values);
    res
}

fn build_csw_peripheral(type_: CswType) -> (res: Peripheral)
    ensures
        res@ == csw_peripheral(type_),
{
    let mut fields: Vec<FieldInfo> = Vec::new();
    fields.push(build_size_field());
    fields.push(build_addr_inc_field());
    fields.push(plain("DeviceEn", 6, 1));
    fields.push(plain("TrInProg", 7, 1));
    match type_ {
        CswType::Generic => {
            fields.push(plain("SPIDEN", 23, 1));
            fields.push(plain("Prot", 24, 7));
        },
        CswType::AmbaAhb3 => {
            fields.push(plain("Mode", 8, 4));
            fields.push(plain("SPIDEN", 23, 1));
            fields.push(plain("HPROT", 24, 5));
            fields.push(plain("MasterType", 29, 1));
        },
    }
    fields.push(plain("DbgSwEnable", 31, 1));
    let register = RegisterDesc {
        name: String::from_str("CSW"),
        address_offset: 0,
        fields,
        reset_value: None,
    };
    assert(register@.fields =~= csw_fields(type_));
    let mut registers: Vec<RegisterDesc> = Vec::new();
    registers.push(register);
    let res = Peripheral {
        name: match type_ {
            CswType::Generic => String::from_str("MEM_AP"),
            CswType::AmbaAhb3 => String::from_str("AHB3_AP"),
        },
        base_address: match type_ {
            CswType::Generic => CSW_GENERIC,
            CswType::AmbaAhb3 => CSW_AMBA_AHB3,
        },
        derived_from: None,
        registers,
        clusters: Vec::new(),
    };
    assert(res@.registers =~= csw_peripheral(type_).registers);
    assert(res@.clusters =~= csw_peripheral(type_).clusters);
    res
}

fn build_adi_device() -> (res: Device)
    ensures
        res@ == adi_device(),
{
    let mut peripherals: Vec<Peripheral> = Vec::new();
    peripherals.push(build_csw_peripheral(CswType::Generic));
    peripherals.push(build_csw_peripheral(CswType::AmbaAhb3));
    let res = Device { name: String::from_str("ADI"), peripherals };
    assert(res@.peripherals =~= adi_device().peripherals);
    res
}

/// The database of [`adi_device`] holds the two CSW layouts, each at its
/// address.
pub proof fn lemma_adi_database()
    ensures
        adi_device().addresses_fit(),
        ({
            let regs = with_device(Map::<u64, RegisterInfoView>::empty(), adi_device());
            &&& regs.contains_key(CSW_GENERIC)
            &&& regs.contains_key(CSW_AMBA_AHB3)
            &&& regs[CSW_GENERIC] == csw_info(CswType::Generic)
            &&& regs[CSW_AMBA_AHB3] == csw_info(CswType::AmbaAhb3)
        }),
{
    let device = adi_device();
    let expanded = device.expanded();
    assert(expanded.peripherals =~= device.peripherals);
    assert(expanded == device);
    let empty = Map::<u64, RegisterInfoView>::empty();
    let generic = csw_peripheral(CswType::Generic);
    let ahb3 = csw_peripheral(CswType::AmbaAhb3);
    assert(device.peripherals[0] == generic);
    assert(device.peripherals[1] == ahb3);
    let none = with_peripherals(empty, device, 0);
    assert(none == empty);
    let one = with_peripherals(empty, device, 1);
    assert(one == with_peripheral(none, device.name, generic));
    let generic_own = with_registers(
        empty,
        device.name,
        generic.name,
        None,
        generic.base_address,
        generic.registers,
        1,
    );
    assert(with_registers(
        empty,
        device.name,
        generic.name,
        None,
        generic.base_address,
        generic.registers,
        0,
    ) == empty);
    assert(generic_own == empty.insert(CSW_GENERIC, csw_info(CswType::Generic)));
    assert(one == generic_own);
    let two = with_peripherals(empty, device, 2);
    assert(two == with_peripheral(one, device.name, ahb3));
    assert(with_registers(one, device.name, ahb3.name, None, ahb3.base_address, ahb3.registers, 0)
        == one);
    assert(two == one.insert(CSW_AMBA_AHB3, csw_info(CswType::AmbaAhb3)));
}

/// The database of the ADI's own registers.
#[derive(Debug)]
pub struct Database {
    inner: crate::regdoctor::Database,
}

impl Database {
    /// The database holds what [`adi_device`] describes.
    pub closed spec fn wf(&self) -> bool {
        self.inner@ == with_device(Map::<u64, RegisterInfoView>::empty(), adi_device())
    }

    /// The database with the CSW under its two layouts.
    pub fn new() -> (db: Database)
        ensures
            db.wf(),
    {
        proof {
            lemma_adi_database();
        }
        let device = build_adi_device();
        Database { inner: crate::regdoctor::Database::from_svd(device) }
    }

    /// The description of the CSW under `type_`.
    pub fn ap_csw(&self, type_: CswType) -> (info: RegisterInfo)
        requires
            self.wf(),
        ensures
            info@ == csw_info(type_),
    {
        proof {
            lemma_adi_database();
        }
        let addr: u64 = match type_ {
            CswType::Generic => CSW_GENERIC,
            CswType::AmbaAhb3 => CSW_AMBA_AHB3,
        };
        match self.inner.get_register(addr) {
            Some(info) => info.clone(),
            None => vstd::pervasive::unreached(),
        }
    }
}

} // verus!
