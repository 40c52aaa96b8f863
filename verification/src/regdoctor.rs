//! Register database: descriptions of memory-mapped registers, decoding of
//! raw values into named fields, and diffs between two decoded values.

pub mod svd;

use std::collections::HashMap;
use vstd::prelude::*;
use vstd::string::StringExecFns;
use crate::regdoctor::svd::{ClusterView, Device, DeviceView, Peripheral, PeripheralView};
use crate::regdoctor::svd::{RegisterDesc, RegisterDescView};
use crate::text::str_eq;

verus! {

broadcast use vstd::std_specs::hash::group_hash_axioms;

/// The view of a name that may be absent.
pub open spec fn opt_str_view(name: Option<String>) -> Option<Seq<char>> {
    match name {
        Some(name) => Some(name@),
        None => None,
    }
}

/// One of the named values that a field can take.
#[derive(Debug, PartialEq, Eq)]
pub struct EnumeratedValue {
    pub name: String,
    /// The field value that this name stands for, if it stands for one.
    pub value: Option<u64>,
    /// Whether this name stands for every value that has no name of its own.
    pub is_default: bool,
}

pub struct EnumeratedValueView {
    pub name: Seq<char>,
    pub value: Option<u64>,
    pub is_default: bool,
}

impl View for EnumeratedValue {
    type V = EnumeratedValueView;

    open spec fn view(&self) -> EnumeratedValueView {
        EnumeratedValueView { name: self.name@, value: self.value, is_default: self.is_default }
    }
}

impl Clone for EnumeratedValue {
    fn clone(&self) -> (res: Self)
        ensures
            res@ == self@,
    {
        EnumeratedValue {
            name: self.name.clone(),
            value: self.value,
            is_default: self.is_default,
        }
    }
}

impl EnumeratedValueView {
    /// A name that catches every value without a name of its own.
    pub open spec fn is_catch_all(&self) -> bool {
        self.value is None && self.is_default
    }
}

/// The view of a name that may be absent.
pub open spec fn opt_enumerated_view(value: Option<EnumeratedValue>) -> Option<
    EnumeratedValueView,
> {
    match value {
        Some(value) => Some(value@),
        None => None,
    }
}

/// The views of a list of names, element by element.
pub open spec fn enumerated_values_view(values: Seq<EnumeratedValue>) -> Seq<EnumeratedValueView> {
    values.map_values(|value: EnumeratedValue| value@)
}

/// A bit field of a register.
#[derive(Debug, PartialEq, Eq)]
pub struct FieldInfo {
    pub name: String,
    pub bit_offset: u32,
    pub bit_width: u32,
    pub enumerated_values: Vec<EnumeratedValue>,
}

pub struct FieldInfoView {
    pub name: Seq<char>,
    pub bit_offset: u32,
    pub bit_width: u32,
    pub enumerated_values: Seq<EnumeratedValueView>,
}

impl View for FieldInfo {
    type V = FieldInfoView;

    open spec fn view(&self) -> FieldInfoView {
        FieldInfoView {
            name: self.name@,
            bit_offset: self.bit_offset,
            bit_width: self.bit_width,
            enumerated_values: enumerated_values_view(self.enumerated_values@),
        }
    }
}

impl Clone for FieldInfo {
    fn clone(&self) -> (res: Self)
        ensures
            res@ == self@,
    {
        let enumerated_values = self.enumerated_values.clone();
        assert(enumerated_values_view(enumerated_values@) =~= enumerated_values_view(
            self.enumerated_values@,
        ));
        FieldInfo {
            name: self.name.clone(),
            bit_offset: self.bit_offset,
            bit_width: self.bit_width,
            enumerated_values,
        }
    }
}

/// The views of a list of fields, element by element.
pub open spec fn field_infos_view(fields: Seq<FieldInfo>) -> Seq<FieldInfoView> {
    fields.map_values(|field: FieldInfo| field@)
}

/// Copies a list of fields.
pub fn clone_field_infos(fields: &Vec<FieldInfo>) -> (res: Vec<FieldInfo>)
    ensures
        field_infos_view(res@) == field_infos_view(fields@),
{
    let res = fields.clone();
    assert(field_infos_view(res@) =~= field_infos_view(fields@));
    res
}

/// A register at its absolute address, with the names that lead to it.
#[derive(Debug, PartialEq, Eq)]
pub struct RegisterInfo {
    pub address: u64,
    pub device_name: String,
    pub peripheral_name: String,
    /// Name of the cluster, if the register belongs to one.
    pub cluster_name: Option<String>,
    pub name: String,
    pub fields: Vec<FieldInfo>,
    pub reset_value: Option<u64>,
}

pub struct RegisterInfoView {
    pub address: u64,
    pub device_name: Seq<char>,
    pub peripheral_name: Seq<char>,
    pub cluster_name: Option<Seq<char>>,
    pub name: Seq<char>,
    pub fields: Seq<FieldInfoView>,
    pub reset_value: Option<u64>,
}

impl View for RegisterInfo {
    type V = RegisterInfoView;

    open spec fn view(&self) -> RegisterInfoView {
        RegisterInfoView {
            address: self.address,
            device_name: self.device_name@,
            peripheral_name: self.peripheral_name@,
            cluster_name: opt_str_view(self.cluster_name),
            name: self.name@,
            fields: field_infos_view(self.fields@),
            reset_value: self.reset_value,
        }
    }
}

impl Clone for RegisterInfo {
    fn clone(&self) -> (res: Self)
        ensures
            res@ == self@,
    {
        RegisterInfo {
            address: self.address,
            device_name: self.device_name.clone(),
            peripheral_name: self.peripheral_name.clone(),
            cluster_name: self.cluster_name.clone(),
            name: self.name.clone(),
            fields: clone_field_infos(&self.fields),
            reset_value: self.reset_value,
        }
    }
}

/// The value of the bit field of `width` bits that starts at bit `offset` of
/// `value`. Bits beyond bit 63 read as zero, and a field of 64 bits or more
/// is everything from `offset` upwards.
pub open spec fn field_value(value: u64, offset: u32, width: u32) -> u64 {
    if offset >= 64 {
        0
    } else if width >= 64 {
        value >> offset
    } else {
        (value >> offset) & !(u64::MAX >> width << width)
    }
}

/// For fields that lie within a 64-bit shift, the mask built from `u64::MAX`
/// is the familiar `(1 << width) - 1`.
pub proof fn lemma_field_value_low_mask(value: u64, offset: u32, width: u32)
    requires
        offset < 64,
        width < 64,
    ensures
        field_value(value, offset, width) == (value >> offset) & (((1u64 << width) - 1) as u64),
{
    assert(!(u64::MAX >> width << width) == ((1u64 << width) - 1) as u64) by (bit_vector)
        requires
            width < 64,
    ;
}

/// A field of no bits holds zero.
pub proof fn lemma_field_value_zero_width(value: u64, offset: u32)
    ensures
        field_value(value, offset, 0) == 0,
{
    assert(forall|x: u64| x & !(u64::MAX >> 0u32 << 0u32) == 0) by (bit_vector);
}

/// Extracts the bit field of `width` bits at bit `offset` from `value`.
pub fn to_field_value(value: u64, offset: u32, width: u32) -> (field: u64)
    ensures
        field == field_value(value, offset, width),
{
    if offset >= 64 {
        0
    } else if width >= 64 {
        value >> offset
    } else {
        let mask: u64 = !(u64::MAX >> width << width);
        (value >> offset) & mask
    }
}

/// The first of `values` that names exactly `value`.
pub open spec fn first_exact(values: Seq<EnumeratedValueView>, value: u64) -> Option<
    EnumeratedValueView,
>
    decreases values.len(),
{
    if values.len() == 0 {
        None
    } else {
        match first_exact(values.drop_last(), value) {
            Some(found) => Some(found),
            None => if values.last().value == Some(value) {
                Some(values.last())
            } else {
                None
            },
        }
    }
}

/// The last of `values` that catches every value without a name.
pub open spec fn last_catch_all(values: Seq<EnumeratedValueView>) -> Option<EnumeratedValueView>
    decreases values.len(),
{
    if values.len() == 0 {
        None
    } else if values.last().is_catch_all() {
        Some(values.last())
    } else {
        last_catch_all(values.drop_last())
    }
}

/// The name under which a field shows `value`: the first that names the
/// value exactly; failing that, the last catch-all; failing that, none.
pub open spec fn variant_of(values: Seq<EnumeratedValueView>, value: u64) -> Option<
    EnumeratedValueView,
> {
    match first_exact(values, value) {
        Some(found) => Some(found),
        None => last_catch_all(values),
    }
}

/// What [`first_exact`] finds names the value, stands in the list, and
/// nothing before it names the value; it finds nothing only where no element
/// names the value.
pub proof fn lemma_first_exact(values: Seq<EnumeratedValueView>, value: u64)
    ensures
        match first_exact(values, value) {
            Some(found) => exists|i: int|
                0 <= i < values.len() && #[trigger] values[i] == found && found.value == Some(value)
                    && forall|j: int| 0 <= j < i ==> (#[trigger] values[j]).value != Some(value),
            None => forall|j: int| 0 <= j < values.len() ==> (#[trigger] values[j]).value != Some(value),
        },
    decreases values.len(),
{
    if values.len() > 0 {
        let front = values.drop_last();
        lemma_first_exact(front, value);
        match first_exact(front, value) {
            Some(found) => {
                let i = choose|i: int|
                    0 <= i < front.len() && #[trigger] front[i] == found && found.value == Some(value)
                        && forall|j: int| 0 <= j < i ==> (#[trigger] front[j]).value != Some(value);
                assert(values[i] == found);
                assert forall|j: int| 0 <= j < i implies (#[trigger] values[j]).value != Some(
                    value,
                ) by {
                    assert(front[j] == values[j]);
                }
            },
            None => {
                assert forall|j: int| 0 <= j < values.len() - 1 implies (#[trigger] values[j]).value
                    != Some(value) by {
                    assert(front[j] == values[j]);
                }
                if values.last().value == Some(value) {
                    assert(values[values.len() - 1] == values.last());
                }
            },
        }
    }
}

/// What [`last_catch_all`] finds is a catch-all of the list with none after
/// it; it finds nothing only where the list has no catch-all.
pub proof fn lemma_last_catch_all(values: Seq<EnumeratedValueView>)
    ensures
        match last_catch_all(values) {
            Some(found) => exists|i: int|
                0 <= i < values.len() && #[trigger] values[i] == found && found.is_catch_all()
                    && forall|j: int| i < j < values.len() ==> !(#[trigger] values[j]).is_catch_all(),
            None => forall|j: int| 0 <= j < values.len() ==> !(#[trigger] values[j]).is_catch_all(),
        },
    decreases values.len(),
{
    if values.len() > 0 {
        let front = values.drop_last();
        if values.last().is_catch_all() {
            assert(values[values.len() - 1] == values.last());
        } else {
            lemma_last_catch_all(front);
            match last_catch_all(front) {
                Some(found) => {
                    let i = choose|i: int|
                        0 <= i < front.len() && #[trigger] front[i] == found && found.is_catch_all()
                            && forall|j: int|
                            i < j < front.len() ==> !(#[trigger] front[j]).is_catch_all();
                    assert(values[i] == found);
                    assert forall|j: int| i < j < values.len() implies !(
                    #[trigger] values[j]).is_catch_all() by {
                        if j < front.len() {
                            assert(front[j] == values[j]);
                        }
                    }
                },
                None => {
                    assert forall|j: int| 0 <= j < values.len() implies !(
                    #[trigger] values[j]).is_catch_all() by {
                        if j < front.len() {
                            assert(front[j] == values[j]);
                        }
                    }
                },
            }
        }
    }
}

/// Finds the name under which a field with the names `values` shows `value`.
pub fn resolve_variant(values: &Vec<EnumeratedValue>, value: u64) -> (variant: Option<
    EnumeratedValue,
>)
    ensures
        opt_enumerated_view(variant) == variant_of(enumerated_values_view(values@), value),
{
    let ghost all = enumerated_values_view(values@);
    let mut catch_all: Option<EnumeratedValue> = None;
    let mut i: usize = 0;
    while i < values.len()
        invariant
            i <= values.len(),
            all == enumerated_values_view(values@),
            first_exact(all.take(i as int), value) is None,
            opt_enumerated_view(catch_all) == last_catch_all(all.take(i as int)),
        decreases values.len() - i,
    {
        let candidate = &values[i];
        proof {
            assert(all.take(i + 1).drop_last() =~= all.take(i as int));
            assert(all.take(i + 1).last() == candidate@);
        }
        match candidate.value {
            Some(named) => {
                if named == value {
                    proof {
                        assert(all.take(values.len() as int) =~= all);
                        lemma_first_exact_prefix(all, i + 1, value);
                    }
                    return Some(candidate.clone());
                }
            },
            None => {
                if candidate.is_default {
                    catch_all = Some(candidate.clone());
                }
            },
        }
        i += 1;
    }
    assert(all.take(values.len() as int) =~= all);
    catch_all
}

/// An exact name found among the first `n` of `values` is the one found in
/// all of them.
pub proof fn lemma_first_exact_prefix(values: Seq<EnumeratedValueView>, n: int, value: u64)
    requires
        0 <= n <= values.len(),
        first_exact(values.take(n), value) is Some,
    ensures
        first_exact(values, value) == first_exact(values.take(n), value),
    decreases values.len() - n,
{
    if n < values.len() {
        assert(values.take(n + 1).drop_last() =~= values.take(n));
        lemma_first_exact_prefix(values, n + 1, value);
    } else {
        assert(values.take(n) =~= values);
    }
}

/// A field of a decoded register.
#[derive(Debug, PartialEq, Eq)]
pub struct Field {
    pub parent_info: RegisterInfo,
    pub info: FieldInfo,
    pub value: u64,
    pub variant: Option<EnumeratedValue>,
}

pub struct FieldView {
    pub parent_info: RegisterInfoView,
    pub info: FieldInfoView,
    pub value: u64,
    pub variant: Option<EnumeratedValueView>,
}

impl View for Field {
    type V = FieldView;

    open spec fn view(&self) -> FieldView {
        FieldView {
            parent_info: self.parent_info@,
            info: self.info@,
            value: self.value,
            variant: opt_enumerated_view(self.variant),
        }
    }
}

/// The views of a list of decoded fields, element by element.
pub open spec fn fields_view(fields: Seq<Field>) -> Seq<FieldView> {
    fields.map_values(|field: Field| field@)
}

/// Where a field at `offset` goes into `sorted`: behind every leading field
/// that starts at or below `offset`.
pub open spec fn insert_position(sorted: Seq<FieldView>, offset: u32) -> int
    decreases sorted.len(),
{
    if sorted.len() == 0 {
        0
    } else if sorted[0].info.bit_offset <= offset {
        1 + insert_position(sorted.drop_first(), offset)
    } else {
        0
    }
}

/// `fields` in ascending order of bit offset; fields that start at the same
/// bit keep the order they came in.
pub open spec fn sort_by_offset(fields: Seq<FieldView>) -> Seq<FieldView>
    decreases fields.len(),
{
    if fields.len() == 0 {
        Seq::empty()
    } else {
        let sorted = sort_by_offset(fields.drop_last());
        sorted.insert(insert_position(sorted, fields.last().info.bit_offset), fields.last())
    }
}

/// Whether `fields` ascend in bit offset.
pub open spec fn ascending(fields: Seq<FieldView>) -> bool {
    forall|i: int, j: int|
        0 <= i < j < fields.len() ==> (#[trigger] fields[i]).info.bit_offset <= (
        #[trigger] fields[j]).info.bit_offset
}

/// The insert position is the one place that has only offsets up to
/// `offset` before it and a larger offset at it.
pub proof fn lemma_insert_position(sorted: Seq<FieldView>, offset: u32, position: int)
    requires
        0 <= position <= sorted.len(),
        forall|j: int| 0 <= j < position ==> (#[trigger] sorted[j]).info.bit_offset <= offset,
        position < sorted.len() ==> sorted[position].info.bit_offset > offset,
    ensures
        insert_position(sorted, offset) == position,
    decreases sorted.len(),
{
    if position > 0 {
        let rest = sorted.drop_first();
        assert forall|j: int| 0 <= j < position - 1 implies (#[trigger] rest[j]).info.bit_offset
            <= offset by {
            assert(rest[j] == sorted[j + 1]);
        }
        lemma_insert_position(rest, offset, position - 1);
    }
}

/// The insert position lies within the list, behind offsets up to `offset`
/// only and, unless it is the end, at a larger offset.
pub proof fn lemma_insert_position_bounds(sorted: Seq<FieldView>, offset: u32)
    ensures
        ({
            let position = insert_position(sorted, offset);
            &&& 0 <= position <= sorted.len()
            &&& forall|j: int| 0 <= j < position ==> (#[trigger] sorted[j]).info.bit_offset <= offset
            &&& position < sorted.len() ==> sorted[position].info.bit_offset > offset
        }),
    decreases sorted.len(),
{
    if sorted.len() > 0 && sorted[0].info.bit_offset <= offset {
        let rest = sorted.drop_first();
        lemma_insert_position_bounds(rest, offset);
        let position = insert_position(sorted, offset);
        assert forall|j: int| 0 <= j < position implies (#[trigger] sorted[j]).info.bit_offset
            <= offset by {
            if j > 0 {
                assert(rest[j - 1] == sorted[j]);
            }
        }
        if position < sorted.len() {
            assert(rest[position - 1] == sorted[position]);
        }
    }
}

/// Sorting keeps every field, as often as it came, and puts the fields in
/// ascending order of bit offset.
pub proof fn lemma_sort_by_offset(fields: Seq<FieldView>)
    ensures
        sort_by_offset(fields).len() == fields.len(),
        sort_by_offset(fields).to_multiset() == fields.to_multiset(),
        ascending(sort_by_offset(fields)),
    decreases fields.len(),
{
    broadcast use vstd::seq_lib::group_to_multiset_ensures;

    if fields.len() == 0 {
        assert(sort_by_offset(fields).to_multiset() =~= fields.to_multiset());
    } else {
        let front = fields.drop_last();
        let last = fields.last();
        let sorted = sort_by_offset(front);
        let position = insert_position(sorted, last.info.bit_offset);
        let result = sorted.insert(position, last);
        lemma_sort_by_offset(front);
        lemma_insert_position_bounds(sorted, last.info.bit_offset);
        assert(fields =~= front.push(last));
        assert(result.to_multiset() =~= sorted.to_multiset().insert(last)) by {
            assert(result.remove(position) =~= sorted);
            assert(result[position] == last);
            assert(result.to_multiset().remove(last) =~= sorted.to_multiset());
            assert(result.to_multiset().count(last) > 0);
        }
        assert forall|i: int, j: int| 0 <= i < j < result.len() implies (
        #[trigger] result[i]).info.bit_offset <= (#[trigger] result[j]).info.bit_offset by {
            if j < position {
                assert(result[i] == sorted[i] && result[j] == sorted[j]);
            } else if j == position {
                assert(result[i] == sorted[i]);
            } else if i < position {
                assert(result[i] == sorted[i] && result[j] == sorted[j - 1]);
                assert(sorted[position].info.bit_offset <= sorted[j - 1].info.bit_offset || j - 1
                    == position);
            } else if i == position {
                assert(result[j] == sorted[j - 1]);
                assert(sorted[position].info.bit_offset <= sorted[j - 1].info.bit_offset || j - 1
                    == position);
            } else {
                assert(result[i] == sorted[i - 1] && result[j] == sorted[j - 1]);
            }
        }
    }
}

impl RegisterInfoView {
    /// The identifier of the register: device, peripheral, cluster if any,
    /// and register name, joined by dots.
    pub open spec fn identifier(self) -> Seq<char> {
        let name = match self.cluster_name {
            Some(cluster_name) => cluster_name + "."@ + self.name,
            None => self.name,
        };
        self.device_name + "."@ + self.peripheral_name + "."@ + name
    }

    /// Field `i` of the register as `value` shows it.
    pub open spec fn decode_field(self, i: int, value: u64) -> FieldView {
        let info = self.fields[i];
        let field = field_value(value, info.bit_offset, info.bit_width);
        FieldView {
            parent_info: self,
            info,
            value: field,
            variant: variant_of(info.enumerated_values, field),
        }
    }

    /// The fields of the register as `value` shows them, in the order of
    /// the description.
    pub open spec fn decoded_fields(self, value: u64) -> Seq<FieldView> {
        Seq::new(self.fields.len(), |i: int| self.decode_field(i, value))
    }

    /// The register as `value` shows it.
    pub open spec fn decode(self, value: u64) -> RegisterView {
        RegisterView { info: self, value, fields: sort_by_offset(self.decoded_fields(value)) }
    }
}

impl RegisterInfo {
    /// `device.peripheral.register`, or `device.peripheral.cluster.register`
    /// for a register in a cluster.
    pub fn identifier(&self) -> (identifier: String)
        ensures
            identifier@ == self@.identifier(),
    {
        let mut name: String = String::new();
        match &self.cluster_name {
            Some(cluster_name) => {
                name.append(cluster_name.as_str());
                name.append(".");
                name.append(self.name.as_str());
            },
            None => {
                name.append(self.name.as_str());
            },
        }
        let mut identifier: String = String::new();
        identifier.append(self.device_name.as_str());
        identifier.append(".");
        identifier.append(self.peripheral_name.as_str());
        identifier.append(".");
        identifier.append(name.as_str());
        proof {
            let expected = self@.identifier();
            assert(name@ =~= match self@.cluster_name {
                Some(cluster_name) => cluster_name + "."@ + self@.name,
                None => self@.name,
            });
            assert(identifier@ =~= expected);
        }
        identifier
    }

    /// Decodes `value` into the fields of this register, in ascending order
    /// of bit offset, each with the name under which it shows its value.
    pub fn decode_value(&self, value: u64) -> (register: Register)
        ensures
            register@ == self@.decode(value),
    {
        let ghost decoded = self@.decoded_fields(value);
        let mut fields: Vec<Field> = Vec::new();
        let mut i: usize = 0;
        while i < self.fields.len()
            invariant
                i <= self.fields.len(),
                decoded == self@.decoded_fields(value),
                fields_view(fields@) == sort_by_offset(decoded.take(i as int)),
            decreases self.fields.len() - i,
        {
            let info = &self.fields[i];
            let field_value: u64 = to_field_value(value, info.bit_offset, info.bit_width);
            let field = Field {
                parent_info: self.clone(),
                info: info.clone(),
                value: field_value,
                variant: resolve_variant(&info.enumerated_values, field_value),
            };
            let offset: u32 = info.bit_offset;
            let mut position: usize = 0;
            while position < fields.len() && fields[position].info.bit_offset <= offset
                invariant
                    position <= fields.len(),
                    forall|j: int|
                        0 <= j < position ==> (#[trigger] fields_view(fields@)[j]).info.bit_offset
                            <= offset,
                decreases fields.len() - position,
            {
                position += 1;
            }
            proof {
                let sorted = fields_view(fields@);
                assert(field@ == decoded[i as int]);
                assert(decoded.take(i + 1).drop_last() =~= decoded.take(i as int));
                assert(decoded.take(i + 1).last() == decoded[i as int]);
                lemma_insert_position(sorted, offset, position as int);
                assert(fields_view(fields@.insert(position as int, field)) =~= sorted.insert(
                    position as int,
                    field@,
                ));
            }
            fields.insert(position, field);
            i += 1;
        }
        assert(decoded.take(self.fields.len() as int) =~= decoded);
        Register { info: self.clone(), value, fields }
    }
}

/// A register value, decoded: its fields in ascending order of bit offset.
#[derive(Debug, PartialEq, Eq)]
pub struct Register {
    pub info: RegisterInfo,
    pub value: u64,
    pub fields: Vec<Field>,
}

pub struct RegisterView {
    pub info: RegisterInfoView,
    pub value: u64,
    pub fields: Seq<FieldView>,
}

impl View for Register {
    type V = RegisterView;

    open spec fn view(&self) -> RegisterView {
        RegisterView { info: self.info@, value: self.value, fields: fields_view(self.fields@) }
    }
}

/// A decoded register holds every field of the description once, each with
/// the bits of the value that the field covers, in ascending order of bit
/// offset.
pub proof fn lemma_decode(info: RegisterInfoView, value: u64)
    ensures
        ({
            let register = info.decode(value);
            &&& register.info == info
            &&& register.value == value
            &&& register.fields.len() == info.fields.len()
            &&& register.fields.to_multiset() == info.decoded_fields(value).to_multiset()
            &&& ascending(register.fields)
            &&& forall|k: int|
                0 <= k < register.fields.len() ==> {
                    let field = #[trigger] register.fields[k];
                    &&& field.value == field_value(value, field.info.bit_offset, field.info.bit_width)
                    &&& field.variant == variant_of(field.info.enumerated_values, field.value)
                    &&& field.parent_info == info
                    &&& info.fields.contains(field.info)
                }
        }),
{
    broadcast use vstd::seq_lib::group_to_multiset_ensures;

    let decoded = info.decoded_fields(value);
    let register = info.decode(value);
    lemma_sort_by_offset(decoded);
    assert forall|k: int| 0 <= k < register.fields.len() implies {
        let field = #[trigger] register.fields[k];
        &&& field.value == field_value(value, field.info.bit_offset, field.info.bit_width)
        &&& field.variant == variant_of(field.info.enumerated_values, field.value)
        &&& field.parent_info == info
        &&& info.fields.contains(field.info)
    } by {
        let field = register.fields[k];
        assert(register.fields.contains(field));
        assert(decoded.to_multiset().count(field) > 0);
        assert(decoded.contains(field));
        let i = choose|i: int| 0 <= i < decoded.len() && decoded[i] == field;
        assert(field == info.decode_field(i, value));
        assert(info.fields[i] == field.info);
    }
}

/// Where every field lies within the low 64 bits and no two fields start at
/// the same bit, each decoded field is `(value >> offset) & ((1 << width) - 1)`
/// and the bit offsets strictly increase.
pub proof fn lemma_decode_disjoint(info: RegisterInfoView, value: u64)
    requires
        forall|i: int|
            0 <= i < info.fields.len() ==> (#[trigger] info.fields[i]).bit_offset < 64
                && info.fields[i].bit_width < 64,
        forall|i: int, j: int|
            0 <= i < j < info.fields.len() ==> (#[trigger] info.fields[i]).bit_offset != (
            #[trigger] info.fields[j]).bit_offset,
    ensures
        ({
            let fields = info.decode(value).fields;
            &&& forall|k: int|
                0 <= k < fields.len() ==> (#[trigger] fields[k]).value == (value
                    >> fields[k].info.bit_offset) & (((1u64 << fields[k].info.bit_width) - 1) as u64)
            &&& forall|k: int, l: int|
                0 <= k < l < fields.len() ==> (#[trigger] fields[k]).info.bit_offset < (
                #[trigger] fields[l]).info.bit_offset
        }),
{
    broadcast use vstd::seq_lib::group_to_multiset_ensures;

    let decoded = info.decoded_fields(value);
    let fields = info.decode(value).fields;
    lemma_decode(info, value);
    assert forall|k: int| 0 <= k < fields.len() implies (#[trigger] fields[k]).value == (value
        >> fields[k].info.bit_offset) & (((1u64 << fields[k].info.bit_width) - 1) as u64) by {
        let field = fields[k];
        assert(info.fields.contains(field.info));
        lemma_field_value_low_mask(value, field.info.bit_offset, field.info.bit_width);
    }
    assert forall|k: int, l: int| 0 <= k < l < fields.len() implies (
    #[trigger] fields[k]).info.bit_offset < (#[trigger] fields[l]).info.bit_offset by {
        if fields[k].info.bit_offset == fields[l].info.bit_offset {
            // Two decoded fields with one offset are one field of the
            // description, which would then stand twice in the output.
            assert(fields.contains(fields[k]) && fields.contains(fields[l]));
            assert(decoded.to_multiset().count(fields[k]) > 0);
            assert(decoded.to_multiset().count(fields[l]) > 0);
            assert(decoded.contains(fields[k]) && decoded.contains(fields[l]));
            let i = choose|i: int| 0 <= i < decoded.len() && decoded[i] == fields[k];
            let j = choose|j: int| 0 <= j < decoded.len() && decoded[j] == fields[l];
            assert(info.fields[i].bit_offset == info.fields[j].bit_offset);
            assert(i == j);
            lemma_no_repeat(decoded, fields, k, l);
        }
    }
}

/// A list that holds the elements of a list whose elements differ pairwise
/// in bit offset, each as often, holds no element twice.
proof fn lemma_no_repeat(decoded: Seq<FieldView>, fields: Seq<FieldView>, k: int, l: int)
    requires
        fields.to_multiset() == decoded.to_multiset(),
        0 <= k < l < fields.len(),
        forall|a: int, b: int|
            0 <= a < b < decoded.len() ==> (#[trigger] decoded[a]).info.bit_offset != (
            #[trigger] decoded[b]).info.bit_offset,
    ensures
        fields[k] != fields[l],
{
    broadcast use vstd::seq_lib::group_to_multiset_ensures;

    let x = fields[k];
    if x == fields[l] {
        // `x` stands at two places of `fields`, so it counts at least twice.
        let without = fields.remove(l);
        assert(without[k] == x);
        assert(without.contains(x));
        assert(without.to_multiset().count(x) > 0);
        assert(fields.to_multiset().count(x) >= 2);
        // In `decoded` it stands at one place only.
        assert(decoded.to_multiset().count(x) > 0);
        assert(decoded.contains(x));
        let i = choose|i: int| 0 <= i < decoded.len() && decoded[i] == x;
        let rest = decoded.remove(i);
        assert(rest.to_multiset().count(x) >= 1);
        assert(rest.contains(x));
        let r = choose|r: int| 0 <= r < rest.len() && rest[r] == x;
        if r < i {
            assert(decoded[r] == x);
        } else {
            assert(decoded[r + 1] == x);
        }
    }
}

/// The error of [`Register::diff`] on two values of different registers.
#[derive(Debug, Copy, Clone, PartialEq, Eq, Structural)]
pub struct WrongRegister;

/// How one field differs between two values of a register.
#[derive(Debug, PartialEq, Eq)]
pub struct FieldDiff {
    pub info: FieldInfo,
    pub old: u64,
    pub new: u64,
    pub old_variant: Option<EnumeratedValue>,
    pub new_variant: Option<EnumeratedValue>,
}

pub struct FieldDiffView {
    pub info: FieldInfoView,
    pub old: u64,
    pub new: u64,
    pub old_variant: Option<EnumeratedValueView>,
    pub new_variant: Option<EnumeratedValueView>,
}

impl View for FieldDiff {
    type V = FieldDiffView;

    open spec fn view(&self) -> FieldDiffView {
        FieldDiffView {
            info: self.info@,
            old: self.old,
            new: self.new,
            old_variant: opt_enumerated_view(self.old_variant),
            new_variant: opt_enumerated_view(self.new_variant),
        }
    }
}

/// The views of a list of field diffs, element by element.
pub open spec fn field_diffs_view(diffs: Seq<FieldDiff>) -> Seq<FieldDiffView> {
    diffs.map_values(|diff: FieldDiff| diff@)
}

/// How two values of a register differ: the values, and the fields that
/// changed.
#[derive(Debug, PartialEq, Eq)]
pub struct RegisterDiff {
    pub old: u64,
    pub new: u64,
    pub fields: Vec<FieldDiff>,
}

pub struct RegisterDiffView {
    pub old: u64,
    pub new: u64,
    pub fields: Seq<FieldDiffView>,
}

impl View for RegisterDiff {
    type V = RegisterDiffView;

    open spec fn view(&self) -> RegisterDiffView {
        RegisterDiffView { old: self.old, new: self.new, fields: field_diffs_view(self.fields@) }
    }
}

/// The view of a diff that may be absent.
pub open spec fn opt_diff_view(diff: Option<RegisterDiff>) -> Option<RegisterDiffView> {
    match diff {
        Some(diff) => Some(diff@),
        None => None,
    }
}

/// The view of the result of [`Register::diff`].
pub open spec fn diff_result_view(result: Result<Option<RegisterDiff>, WrongRegister>) -> Result<
    Option<RegisterDiffView>,
    WrongRegister,
> {
    match result {
        Ok(diff) => Ok(opt_diff_view(diff)),
        Err(error) => Err(error),
    }
}

/// The diff of the fields at one place of two decoded values.
pub open spec fn field_diff_of(old: FieldView, new: FieldView) -> FieldDiffView {
    FieldDiffView {
        info: old.info,
        old: old.value,
        new: new.value,
        old_variant: old.variant,
        new_variant: new.variant,
    }
}

/// The diffs of the first `n` places of two field lists: one for each place
/// at which the values differ, in order.
pub open spec fn field_diffs(old: Seq<FieldView>, new: Seq<FieldView>, n: nat) -> Seq<FieldDiffView>
    decreases n,
{
    if n == 0 {
        Seq::empty()
    } else {
        let before = field_diffs(old, new, (n - 1) as nat);
        if old[n - 1].value != new[n - 1].value {
            before.push(field_diff_of(old[n - 1], new[n - 1]))
        } else {
            before
        }
    }
}

/// The number of places that two field lists share.
pub open spec fn shared_len(old: Seq<FieldView>, new: Seq<FieldView>) -> nat {
    if old.len() <= new.len() {
        old.len()
    } else {
        new.len()
    }
}

/// What [`Register::diff`] returns for two decoded values.
pub open spec fn diff_of(old: RegisterView, new: RegisterView) -> Result<
    Option<RegisterDiffView>,
    WrongRegister,
> {
    if old.info.identifier() != new.info.identifier() {
        Err(WrongRegister)
    } else if old.value == new.value {
        Ok(None)
    } else {
        Ok(
            Some(
                RegisterDiffView {
                    old: old.value,
                    new: new.value,
                    fields: field_diffs(old.fields, new.fields, shared_len(old.fields, new.fields)),
                },
            ),
        )
    }
}

/// A decoded value does not differ from itself.
pub proof fn lemma_diff_same(register: RegisterView)
    ensures
        diff_of(register, register) == Ok::<Option<RegisterDiffView>, WrongRegister>(None),
{
}

/// Every diff that [`field_diffs`] lists is the diff of a place at which
/// the two values differ, and every such place is listed.
pub proof fn lemma_field_diffs(old: Seq<FieldView>, new: Seq<FieldView>, n: nat)
    requires
        n <= old.len(),
        n <= new.len(),
    ensures
        forall|k: int|
            0 <= k < field_diffs(old, new, n).len() ==> exists|i: int|
                0 <= i < n && old[i].value != new[i].value && #[trigger] field_diffs(old, new, n)[k]
                    == field_diff_of(old[i], new[i]),
        forall|i: int|
            0 <= i < n && old[i].value != new[i].value ==> field_diffs(old, new, n).contains(
                #[trigger] field_diff_of(old[i], new[i]),
            ),
        field_diffs(old, new, n).len() <= n,
    decreases n,
{
    if n > 0 {
        let m = (n - 1) as nat;
        lemma_field_diffs(old, new, m);
        let before = field_diffs(old, new, m);
        let all = field_diffs(old, new, n);
        assert forall|k: int| 0 <= k < all.len() implies exists|i: int|
            0 <= i < n && old[i].value != new[i].value && #[trigger] all[k] == field_diff_of(
                old[i],
                new[i],
            ) by {
            if k < before.len() {
                assert(all[k] == before[k]);
                let i = choose|i: int|
                    0 <= i < m && old[i].value != new[i].value && before[k] == field_diff_of(
                        old[i],
                        new[i],
                    );
                assert(0 <= i < n && old[i].value != new[i].value && all[k] == field_diff_of(
                    old[i],
                    new[i],
                ));
            } else {
                assert(all[k] == field_diff_of(old[n - 1], new[n - 1]));
            }
        }
        assert forall|i: int| 0 <= i < n && old[i].value != new[i].value implies all.contains(
            #[trigger] field_diff_of(old[i], new[i]),
        ) by {
            if i < m {
                let k = choose|k: int|
                    0 <= k < before.len() && before[k] == field_diff_of(old[i], new[i]);
                assert(all[k] == before[k]);
            } else {
                assert(all[all.len() - 1] == field_diff_of(old[i], new[i]));
            }
        }
    }
}

impl Register {
    /// This value as a change from a value that is not known.
    pub fn diff_from_nothing<'a>(&'a self) -> (diff: RegisterDiffFromNothing<'a>)
        ensures
            diff.0@ == self@,
    {
        RegisterDiffFromNothing(self)
    }

    /// Compares two values of one register. Values of registers with
    /// different identifiers are an error; equal values give `None`;
    /// otherwise the diff lists, place by place, the fields whose values
    /// differ, with the names that both values show.
    pub fn diff(old: &Register, new: &Register) -> (result: Result<
        Option<RegisterDiff>,
        WrongRegister,
    >)
        ensures
            diff_result_view(result) == diff_of(old@, new@),
    {
        let old_identifier = old.info.identifier();
        let new_identifier = new.info.identifier();
        if !str_eq(old_identifier.as_str(), new_identifier.as_str()) {
            return Err(WrongRegister);
        }
        if old.value == new.value {
            return Ok(None);
        }
        let end: usize = if old.fields.len() <= new.fields.len() {
            old.fields.len()
        } else {
            new.fields.len()
        };
        let mut fields: Vec<FieldDiff> = Vec::new();
        let mut i: usize = 0;
        while i < end
            invariant
                i <= end,
                end == shared_len(old@.fields, new@.fields),
                end <= old.fields.len(),
                end <= new.fields.len(),
                field_diffs_view(fields@) == field_diffs(old@.fields, new@.fields, i as nat),
            decreases end - i,
        {
            let old_field = &old.fields[i];
            let new_field = &new.fields[i];
            assert(old@.fields[i as int] == old_field@);
            assert(new@.fields[i as int] == new_field@);
            if old_field.value != new_field.value {
                let diff = FieldDiff {
                    info: old_field.info.clone(),
                    old: old_field.value,
                    new: new_field.value,
                    old_variant: old_field.variant.clone(),
                    new_variant: new_field.variant.clone(),
                };
                proof {
                    assert(diff@ == field_diff_of(old_field@, new_field@));
                    assert(field_diffs_view(fields@.push(diff)) =~= field_diffs_view(fields@).push(
                        diff@,
                    ));
                }
                fields.push(diff);
            }
            i += 1;
        }
        Ok(Some(RegisterDiff { old: old.value, new: new.value, fields }))
    }
}

/// A decoded value seen as a change from a value that is not known.
#[derive(Debug)]
pub struct RegisterDiffFromNothing<'a>(pub &'a Register);

/// The views of the descriptions in a map, address by address.
pub open spec fn register_infos_view(regs: Map<u64, RegisterInfo>) -> Map<u64, RegisterInfoView> {
    regs.map_values(|info: RegisterInfo| info@)
}

/// Descriptions of registers, keyed by absolute address.
#[derive(Debug)]
pub struct Database {
    pub regs: HashMap<u64, RegisterInfo>,
}

impl View for Database {
    type V = Map<u64, RegisterInfoView>;

    open spec fn view(&self) -> Map<u64, RegisterInfoView> {
        register_infos_view(self.regs@)
    }
}

/// The address of something at `offset` from `base`.
pub open spec fn address_at(base: u64, offset: u32) -> int {
    base + offset
}

/// The description under which register `register` of a peripheral or
/// cluster at `base` goes into the database.
pub open spec fn register_info_of(
    device_name: Seq<char>,
    peripheral_name: Seq<char>,
    cluster_name: Option<Seq<char>>,
    base: u64,
    register: RegisterDescView,
) -> RegisterInfoView {
    RegisterInfoView {
        address: address_at(base, register.address_offset) as u64,
        device_name,
        peripheral_name,
        cluster_name,
        name: register.name,
        fields: register.fields,
        reset_value: register.reset_value,
    }
}

/// `regs` after the first `n` of `registers` went in, one after the other,
/// each at `base` plus its offset; a later one replaces what stood at its
/// address.
pub open spec fn with_registers(
    regs: Map<u64, RegisterInfoView>,
    device_name: Seq<char>,
    peripheral_name: Seq<char>,
    cluster_name: Option<Seq<char>>,
    base: u64,
    registers: Seq<RegisterDescView>,
    n: nat,
) -> Map<u64, RegisterInfoView>
    decreases n,
{
    if n == 0 {
        regs
    } else {
        let info = register_info_of(
            device_name,
            peripheral_name,
            cluster_name,
            base,
            registers[n - 1],
        );
        with_registers(
            regs,
            device_name,
            peripheral_name,
            cluster_name,
            base,
            registers,
            (n - 1) as nat,
        ).insert(info.address, info)
    }
}

/// `regs` after the registers of the first `n` of `clusters` went in,
/// cluster by cluster, each cluster at `base` plus its offset.
pub open spec fn with_clusters(
    regs: Map<u64, RegisterInfoView>,
    device_name: Seq<char>,
    peripheral_name: Seq<char>,
    base: u64,
    clusters: Seq<ClusterView>,
    n: nat,
) -> Map<u64, RegisterInfoView>
    decreases n,
{
    if n == 0 {
        regs
    } else {
        let cluster = clusters[n - 1];
        with_registers(
            with_clusters(regs, device_name, peripheral_name, base, clusters, (n - 1) as nat),
            device_name,
            peripheral_name,
            Some(cluster.name),
            address_at(base, cluster.address_offset) as u64,
            cluster.registers,
            cluster.registers.len(),
        )
    }
}

/// `regs` after `peripheral` went in: its own registers first, then those
/// of its clusters.
pub open spec fn with_peripheral(
    regs: Map<u64, RegisterInfoView>,
    device_name: Seq<char>,
    peripheral: PeripheralView,
) -> Map<u64, RegisterInfoView> {
    with_clusters(
        with_registers(
            regs,
            device_name,
            peripheral.name,
            None,
            peripheral.base_address,
            peripheral.registers,
            peripheral.registers.len(),
        ),
        device_name,
        peripheral.name,
        peripheral.base_address,
        peripheral.clusters,
        peripheral.clusters.len(),
    )
}

/// `regs` after the first `n` peripherals of `device` went in, as they
/// stand.
pub open spec fn with_peripherals(regs: Map<u64, RegisterInfoView>, device: DeviceView, n: nat) -> Map<
    u64,
    RegisterInfoView,
>
    decreases n,
{
    if n == 0 {
        regs
    } else {
        with_peripheral(
            with_peripherals(regs, device, (n - 1) as nat),
            device.name,
            device.peripherals[n - 1],
        )
    }
}

/// `regs` after `device` went in: its derived peripherals filled in from
/// the peripherals they derive from, then peripheral by peripheral.
pub open spec fn with_device(regs: Map<u64, RegisterInfoView>, device: DeviceView) -> Map<
    u64,
    RegisterInfoView,
> {
    with_peripherals(regs, device.expanded(), device.peripherals.len())
}

/// The descriptions under which `registers`, of a peripheral or cluster at
/// `base`, go into the database, in order.
pub open spec fn register_infos(
    device_name: Seq<char>,
    peripheral_name: Seq<char>,
    cluster_name: Option<Seq<char>>,
    base: u64,
    registers: Seq<RegisterDescView>,
) -> Seq<RegisterInfoView> {
    Seq::new(
        registers.len(),
        |i: int| register_info_of(device_name, peripheral_name, cluster_name, base, registers[i]),
    )
}

/// The descriptions under which the registers of the first `n` of
/// `clusters` go into the database, in order.
pub open spec fn cluster_infos(
    device_name: Seq<char>,
    peripheral_name: Seq<char>,
    base: u64,
    clusters: Seq<ClusterView>,
    n: nat,
) -> Seq<RegisterInfoView>
    decreases n,
{
    if n == 0 {
        Seq::empty()
    } else {
        let cluster = clusters[n - 1];
        cluster_infos(device_name, peripheral_name, base, clusters, (n - 1) as nat) + register_infos(
            device_name,
            peripheral_name,
            Some(cluster.name),
            address_at(base, cluster.address_offset) as u64,
            cluster.registers,
        )
    }
}

/// The descriptions under which the registers of `peripheral` go into the
/// database, in order: its own, then those of its clusters.
pub open spec fn peripheral_infos(device_name: Seq<char>, peripheral: PeripheralView) -> Seq<
    RegisterInfoView,
> {
    register_infos(
        device_name,
        peripheral.name,
        None,
        peripheral.base_address,
        peripheral.registers,
    ) + cluster_infos(
        device_name,
        peripheral.name,
        peripheral.base_address,
        peripheral.clusters,
        peripheral.clusters.len(),
    )
}

/// The descriptions under which the registers of the first `n` peripherals
/// of `device`, as they stand, go into the database, in order.
pub open spec fn device_infos(device: DeviceView, n: nat) -> Seq<RegisterInfoView>
    decreases n,
{
    if n == 0 {
        Seq::empty()
    } else {
        device_infos(device, (n - 1) as nat) + peripheral_infos(
            device.name,
            device.peripherals[n - 1],
        )
    }
}

/// `regs` after `infos` went in, one after the other, each at its address.
pub open spec fn inserted(regs: Map<u64, RegisterInfoView>, infos: Seq<RegisterInfoView>) -> Map<
    u64,
    RegisterInfoView,
>
    decreases infos.len(),
{
    if infos.len() == 0 {
        regs
    } else {
        inserted(regs, infos.drop_last()).insert(infos.last().address, infos.last())
    }
}

/// Putting in one list after another is putting in the two as one.
pub proof fn lemma_inserted_concat(
    regs: Map<u64, RegisterInfoView>,
    first: Seq<RegisterInfoView>,
    second: Seq<RegisterInfoView>,
)
    ensures
        inserted(inserted(regs, first), second) == inserted(regs, first + second),
    decreases second.len(),
{
    if second.len() == 0 {
        assert(first + second =~= first);
    } else {
        lemma_inserted_concat(regs, first, second.drop_last());
        assert((first + second).drop_last() =~= first + second.drop_last());
        assert((first + second).last() == second.last());
    }
}

/// After a list of descriptions went in, an address holds the last
/// description of the list that lies there; an address at which none of
/// them lies holds what it held.
pub proof fn lemma_inserted_last_wins(
    regs: Map<u64, RegisterInfoView>,
    infos: Seq<RegisterInfoView>,
    address: u64,
)
    ensures
        (forall|i: int| 0 <= i < infos.len() ==> (#[trigger] infos[i]).address != address) ==> {
            &&& inserted(regs, infos).contains_key(address) == regs.contains_key(address)
            &&& regs.contains_key(address) ==> inserted(regs, infos)[address] == regs[address]
        },
        forall|i: int|
            0 <= i < infos.len() && (#[trigger] infos[i]).address == address && (forall|j: int|
                i < j < infos.len() ==> (#[trigger] infos[j]).address != address) ==> inserted(
                regs,
                infos,
            ).contains_key(address) && inserted(regs, infos)[address] == infos[i],
    decreases infos.len(),
{
    if infos.len() > 0 {
        let front = infos.drop_last();
        lemma_inserted_last_wins(regs, front, address);
        assert forall|i: int|
            0 <= i < infos.len() && (#[trigger] infos[i]).address == address && (forall|j: int|
                i < j < infos.len() ==> (#[trigger] infos[j]).address != address) implies inserted(
            regs,
            infos,
        ).contains_key(address) && inserted(regs, infos)[address] == infos[i] by {
            if i < infos.len() - 1 {
                assert(front[i] == infos[i]);
                assert(infos[infos.len() - 1].address != address);
                assert forall|j: int| i < j < front.len() implies (#[trigger] front[j]).address
                    != address by {
                    assert(front[j] == infos[j]);
                }
            }
        }
        if forall|i: int| 0 <= i < infos.len() ==> (#[trigger] infos[i]).address != address {
            assert forall|i: int| 0 <= i < front.len() implies (#[trigger] front[i]).address
                != address by {
                assert(front[i] == infos[i]);
            }
            assert(infos[infos.len() - 1].address != address);
        }
    }
}

/// The registers of a peripheral or cluster go in as the list of their
/// descriptions.
pub proof fn lemma_with_registers_inserted(
    regs: Map<u64, RegisterInfoView>,
    device_name: Seq<char>,
    peripheral_name: Seq<char>,
    cluster_name: Option<Seq<char>>,
    base: u64,
    registers: Seq<RegisterDescView>,
    n: nat,
)
    requires
        n <= registers.len(),
    ensures
        with_registers(regs, device_name, peripheral_name, cluster_name, base, registers, n)
            == inserted(
            regs,
            register_infos(device_name, peripheral_name, cluster_name, base, registers).take(
                n as int,
            ),
        ),
    decreases n,
{
    let infos = register_infos(device_name, peripheral_name, cluster_name, base, registers);
    if n > 0 {
        lemma_with_registers_inserted(
            regs,
            device_name,
            peripheral_name,
            cluster_name,
            base,
            registers,
            (n - 1) as nat,
        );
        assert(infos.take(n as int).drop_last() =~= infos.take(n - 1));
        assert(infos.take(n as int).last() == infos[n - 1]);
    }
}

/// The registers of clusters go in as the list of their descriptions.
pub proof fn lemma_with_clusters_inserted(
    regs: Map<u64, RegisterInfoView>,
    device_name: Seq<char>,
    peripheral_name: Seq<char>,
    base: u64,
    clusters: Seq<ClusterView>,
    n: nat,
)
    requires
        n <= clusters.len(),
    ensures
        with_clusters(regs, device_name, peripheral_name, base, clusters, n) == inserted(
            regs,
            cluster_infos(device_name, peripheral_name, base, clusters, n),
        ),
    decreases n,
{
    if n > 0 {
        let m = (n - 1) as nat;
        let cluster = clusters[n - 1];
        let before = with_clusters(regs, device_name, peripheral_name, base, clusters, m);
        let infos = register_infos(
            device_name,
            peripheral_name,
            Some(cluster.name),
            address_at(base, cluster.address_offset) as u64,
            cluster.registers,
        );
        lemma_with_clusters_inserted(regs, device_name, peripheral_name, base, clusters, m);
        lemma_with_registers_inserted(
            before,
            device_name,
            peripheral_name,
            Some(cluster.name),
            address_at(base, cluster.address_offset) as u64,
            cluster.registers,
            cluster.registers.len(),
        );
        assert(infos.take(cluster.registers.len() as int) =~= infos);
        lemma_inserted_concat(
            regs,
            cluster_infos(device_name, peripheral_name, base, clusters, m),
            infos,
        );
    }
}

/// A device goes into the database as the list of the descriptions of its
/// registers, once its derived peripherals are filled in: the database
/// then holds, at each address, the last description of that list that
/// lies there, and elsewhere what it held.
pub proof fn lemma_with_device_inserted(regs: Map<u64, RegisterInfoView>, device: DeviceView)
    ensures
        with_device(regs, device) == inserted(
            regs,
            device_infos(device.expanded(), device.peripherals.len()),
        ),
{
    lemma_with_peripherals_inserted(regs, device.expanded(), device.peripherals.len());
}

/// The first `n` peripherals go in as the list of the descriptions of
/// their registers.
pub proof fn lemma_with_peripherals_inserted(
    regs: Map<u64, RegisterInfoView>,
    device: DeviceView,
    n: nat,
)
    requires
        n <= device.peripherals.len(),
    ensures
        with_peripherals(regs, device, n) == inserted(regs, device_infos(device, n)),
    decreases n,
{
    if n > 0 {
        let m = (n - 1) as nat;
        let peripheral = device.peripherals[n - 1];
        let before = with_peripherals(regs, device, m);
        let own = register_infos(
            device.name,
            peripheral.name,
            None,
            peripheral.base_address,
            peripheral.registers,
        );
        let clustered = cluster_infos(
            device.name,
            peripheral.name,
            peripheral.base_address,
            peripheral.clusters,
            peripheral.clusters.len(),
        );
        lemma_with_peripherals_inserted(regs, device, m);
        lemma_with_registers_inserted(
            before,
            device.name,
            peripheral.name,
            None,
            peripheral.base_address,
            peripheral.registers,
            peripheral.registers.len(),
        );
        assert(own.take(peripheral.registers.len() as int) =~= own);
        lemma_with_clusters_inserted(
            inserted(before, own),
            device.name,
            peripheral.name,
            peripheral.base_address,
            peripheral.clusters,
            peripheral.clusters.len(),
        );
        lemma_inserted_concat(before, own, clustered);
        lemma_inserted_concat(regs, device_infos(device, m), own + clustered);
    }
}

impl Database {
    /// A database without a register.
    pub fn new() -> (db: Database)
        ensures
            db@ == Map::<u64, RegisterInfoView>::empty(),
    {
        let db = Database { regs: HashMap::new() };
        assert(db@ =~= Map::<u64, RegisterInfoView>::empty());
        db
    }

    /// The description of the register at `address`, if the database has
    /// one.
    pub fn get_register(&self, address: u64) -> (info: Option<&RegisterInfo>)
        ensures
            info is Some <==> self@.contains_key(address),
            info is Some ==> info->0@ == self@[address],
    {
        self.regs.get(&address)
    }

    /// Whether `device` can go into a database: once its derived
    /// peripherals are filled in, every register lies at an address of 64
    /// bits.
    pub fn takes(device: &Device) -> (fit: bool)
        ensures
            fit == device@.addresses_fit(),
    {
        Database::expand_derived_from_attribute(device.clone()).peripherals_fit()
    }

    /// A database of the registers of `device`.
    pub fn from_svd(device: Device) -> (db: Database)
        requires
            device@.addresses_fit(),
        ensures
            db@ == with_device(Map::<u64, RegisterInfoView>::empty(), device@),
    {
        let mut db = Database::new();
        db.extend_with_svd(device);
        db
    }

    /// Puts `info` at its address, in place of what stood there.
    fn insert(&mut self, info: RegisterInfo)
        ensures
            final(self)@ == old(self)@.insert(info.address, info@),
    {
        let ghost address = info.address;
        let ghost view = info@;
        self.regs.insert(info.address, info);
        assert(self@ =~= old(self)@.insert(address, view));
    }

    /// Puts the registers of a peripheral or cluster at `base` in.
    fn insert_registers(
        &mut self,
        device_name: &String,
        peripheral_name: &String,
        cluster_name: &Option<String>,
        base: u64,
        registers: &Vec<RegisterDesc>,
    )
        requires
            forall|i: int|
                0 <= i < registers.len() ==> address_at(base, (#[trigger] registers[i]).address_offset)
                    <= u64::MAX,
        ensures
            final(self)@ == with_registers(
                old(self)@,
                device_name@,
                peripheral_name@,
                opt_str_view(*cluster_name),
                base,
                crate::regdoctor::svd::register_descs_view(registers@),
                registers.len() as nat,
            ),
    {
        let ghost descs = crate::regdoctor::svd::register_descs_view(registers@);
        let mut i: usize = 0;
        while i < registers.len()
            invariant
                i <= registers.len(),
                descs == crate::regdoctor::svd::register_descs_view(registers@),
                forall|j: int|
                    0 <= j < registers.len() ==> address_at(
                        base,
                        (#[trigger] registers[j]).address_offset,
                    ) <= u64::MAX,
                self@ == with_registers(
                    old(self)@,
                    device_name@,
                    peripheral_name@,
                    opt_str_view(*cluster_name),
                    base,
                    descs,
                    i as nat,
                ),
            decreases registers.len() - i,
        {
            let register = &registers[i];
            assert(descs[i as int] == register@);
            let info = RegisterInfo {
                address: base + register.address_offset as u64,
                device_name: device_name.clone(),
                peripheral_name: peripheral_name.clone(),
                cluster_name: cluster_name.clone(),
                name: register.name.clone(),
                fields: clone_field_infos(&register.fields),
                reset_value: register.reset_value,
            };
            self.insert(info);
            i += 1;
        }
    }

    /// Adds the registers of `device`: first every peripheral that derives
    /// from another is filled in from that one, then the registers go in,
    /// peripheral by peripheral, a peripheral's own registers before those of
    /// its clusters. A register replaces what stood at its address.
    pub fn extend_with_svd(&mut self, device: Device)
        requires
            device@.addresses_fit(),
        ensures
            final(self)@ == with_device(old(self)@, device@),
    {
        let ghost given = device@;
        let device = Database::expand_derived_from_attribute(device);
        assert(device@.peripherals.len() == given.peripherals.len());
        let mut i: usize = 0;
        while i < device.peripherals.len()
            invariant
                i <= device.peripherals.len(),
                device@.peripherals_fit(),
                self@ == with_peripherals(old(self)@, device@, i as nat),
            decreases device.peripherals.len() - i,
        {
            let peripheral = &device.peripherals[i];
            assert(device@.peripherals[i as int] == peripheral@);
            assert(peripheral@.addresses_fit());
            let ghost clusters = crate::regdoctor::svd::clusters_view(peripheral.clusters@);
            let ghost start = self@;
            assert forall|j: int| 0 <= j < peripheral.registers.len() implies address_at(
                peripheral.base_address,
                (#[trigger] peripheral.registers[j]).address_offset,
            ) <= u64::MAX by {
                assert(peripheral@.registers[j] == peripheral.registers[j]@);
            }
            self.insert_registers(
                &device.name,
                &peripheral.name,
                &None,
                peripheral.base_address,
                &peripheral.registers,
            );
            let ghost own = self@;
            let mut k: usize = 0;
            while k < peripheral.clusters.len()
                invariant
                    k <= peripheral.clusters.len(),
                    clusters == crate::regdoctor::svd::clusters_view(peripheral.clusters@),
                    clusters == peripheral@.clusters,
                    peripheral@.addresses_fit(),
                    self@ == with_clusters(
                        own,
                        device.name@,
                        peripheral.name@,
                        peripheral.base_address,
                        clusters,
                        k as nat,
                    ),
                decreases peripheral.clusters.len() - k,
            {
                let cluster = &peripheral.clusters[k];
                assert(clusters[k as int] == cluster@);
                assert(cluster@.addresses_fit(peripheral.base_address));
                let base: u64 = peripheral.base_address + cluster.address_offset as u64;
                assert forall|j: int| 0 <= j < cluster.registers.len() implies address_at(
                    base,
                    (#[trigger] cluster.registers[j]).address_offset,
                ) <= u64::MAX by {
                    assert(cluster@.registers[j] == cluster.registers[j]@);
                }
                self.insert_registers(
                    &device.name,
                    &peripheral.name,
                    &Some(cluster.name.clone()),
                    base,
                    &cluster.registers,
                );
                k += 1;
            }
            assert(own == with_registers(
                start,
                device@.name,
                peripheral@.name,
                None,
                peripheral@.base_address,
                peripheral@.registers,
                peripheral@.registers.len(),
            ));
            assert(self@ == with_peripheral(start, device@.name, peripheral@));
            i += 1;
        }
        assert(self@ == with_peripherals(old(self)@, given.expanded(), given.peripherals.len()));
    }

    /// Fills in every peripheral that derives from another: it takes the
    /// registers and clusters of the first peripheral that bears the name it
    /// derives from, as `device` came, unless it has registers or clusters of
    /// its own, and then derives from nothing. A peripheral that names a
    /// peripheral which `device` does not have stays as it is.
    pub fn expand_derived_from_attribute(device: Device) -> (expanded: Device)
        ensures
            expanded@ == device@.expanded(),
    {
        let mut peripherals: Vec<Peripheral> = Vec::new();
        let mut i: usize = 0;
        while i < device.peripherals.len()
            invariant
                i <= device.peripherals.len(),
                peripherals.len() == i,
                forall|j: int|
                    0 <= j < i ==> (#[trigger] peripherals[j])@ == device@.expanded_peripheral(j),
            decreases device.peripherals.len() - i,
        {
            let peripheral = &device.peripherals[i];
            assert(device@.peripherals[i as int] == peripheral@);
            let expanded: Peripheral = match &peripheral.derived_from {
                Some(derived_from) => match device.get_peripheral(derived_from.as_str()) {
                    Some(base) => {
                        let own: bool = peripheral.registers.len() > 0 || peripheral.clusters.len()
                            > 0;
                        Peripheral {
                            name: peripheral.name.clone(),
                            base_address: peripheral.base_address,
                            derived_from: None,
                            registers: if own {
                                crate::regdoctor::svd::clone_register_descs(&peripheral.registers)
                            } else {
                                crate::regdoctor::svd::clone_register_descs(&base.registers)
                            },
                            clusters: if own {
                                crate::regdoctor::svd::clone_clusters(&peripheral.clusters)
                            } else {
                                crate::regdoctor::svd::clone_clusters(&base.clusters)
                            },
                        }
                    },
                    None => peripheral.clone(),
                },
                None => peripheral.clone(),
            };
            peripherals.push(expanded);
            i += 1;
        }
        let expanded = Device { name: device.name.clone(), peripherals };
        assert(expanded@.peripherals =~= device@.expanded().peripherals);
        expanded
    }
}

} // verus!
