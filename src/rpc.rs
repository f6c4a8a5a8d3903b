//! Records that the RPC layer exchanges with the stack, held as plain values:
//! a UUID as a 128-bit integer, a device address as its six bytes.
use vstd::prelude::*;
use std::collections::HashMap;
use crate::database::{Characteristic, Descriptor, Service, PROP_READ, PROP_WRITE};

verus! {

/// Descriptor permission bits that allow a read (plain, encrypted, encrypted with MITM protection).
pub const PERMISSION_READ_ANY: i32 = 0x07;

/// Descriptor permission bits that allow a write (plain, encrypted, with MITM protection, signed, signed with MITM protection).
pub const PERMISSION_WRITE_ANY: i32 = 0x1F0;

#[derive(Debug, Clone)]
pub struct BatteryDBus {
    pub percentage: u32,
    pub variant: String,
}

#[derive(Debug, Clone)]
pub struct BatterySetDBus {
    pub address: [u8; 6],
    pub source_uuid: String,
    pub source_info: String,
    pub batteries: Vec<BatteryDBus>,
}

#[derive(Debug, Clone, Copy, PartialEq, Eq, Structural)]
pub enum GattWriteType {
    Invalid,
    WriteNoResponse,
    Write,
    WritePrepare,
}

#[derive(Debug, Clone)]
pub struct BluetoothGattDescriptorDBus {
    pub uuid: u128,
    pub instance_id: i32,
    pub permissions: i32,
}

#[derive(Debug, Clone)]
pub struct BluetoothGattCharacteristicDBus {
    pub uuid: u128,
    pub instance_id: i32,
    pub properties: i32,
    pub permissions: i32,
    pub key_size: i32,
    pub write_type: GattWriteType,
    pub descriptors: Vec<BluetoothGattDescriptorDBus>,
}

#[derive(Debug, Clone)]
pub struct BluetoothGattServiceDBus {
    pub uuid: u128,
    pub instance_id: i32,
    pub service_type: i32,
    pub characteristics: Vec<BluetoothGattCharacteristicDBus>,
    /// The UUIDs of the services this one includes.
    pub included_services: Vec<u128>,
}

#[derive(Debug, Clone)]
pub struct AdvertiseDataDBus {
    pub service_uuids: Vec<u128>,
    pub solicit_uuids: Vec<u128>,
    pub transport_discovery_data: Vec<Vec<u8>>,
    pub manufacturer_data: HashMap<u16, Vec<u8>>,
    pub service_data: HashMap<String, Vec<u8>>,
    pub include_tx_power_level: bool,
    pub include_device_name: bool,
}

#[derive(Debug, Clone, Copy, PartialEq, Eq, Structural)]
pub struct PeriodicAdvertisingParametersDBus {
    pub include_tx_power: bool,
    pub interval: i32,
}

#[derive(Debug, Clone, Copy, PartialEq, Eq, Structural)]
pub enum RecordError {
    /// A characteristic's properties do not fit the eight bits of a declaration.
    PropertiesOutOfRange { index: usize },
}

/// The database properties of a descriptor with the given permissions.
pub open spec fn descriptor_properties(permissions: i32) -> u8 {
    ((if permissions & PERMISSION_READ_ANY != 0 { PROP_READ } else { 0u8 }) | (if permissions
        & PERMISSION_WRITE_ANY != 0 {
        PROP_WRITE
    } else {
        0u8
    })) as u8
}

pub open spec fn properties_fit(c: BluetoothGattCharacteristicDBus) -> bool {
    0 <= c.properties <= 255
}

/// `d` is the database descriptor for the record `r`, with an empty value.
pub open spec fn descriptor_matches(d: Descriptor, r: BluetoothGattDescriptorDBus) -> bool {
    &&& d.uuid == r.uuid
    &&& d.properties == descriptor_properties(r.permissions)
    &&& d.value@.len() == 0
}

/// `c` is the database characteristic for the record `r`, with an empty value.
pub open spec fn characteristic_matches(c: Characteristic, r: BluetoothGattCharacteristicDBus) -> bool {
    &&& c.uuid == r.uuid
    &&& c.properties == r.properties
    &&& c.value@.len() == 0
    &&& c.descriptors@.len() == r.descriptors@.len()
    &&& forall|j: int| 0 <= j < c.descriptors@.len() ==> descriptor_matches(#[trigger] c.descriptors@[j], r.descriptors@[j])
}

fn descriptor_of(r: &BluetoothGattDescriptorDBus) -> (d: Descriptor)
    ensures
        descriptor_matches(d, *r),
{
    let read: u8 = if r.permissions & PERMISSION_READ_ANY != 0 { PROP_READ } else { 0 };
    let write: u8 = if r.permissions & PERMISSION_WRITE_ANY != 0 { PROP_WRITE } else { 0 };
    Descriptor { uuid: r.uuid, properties: read | write, value: Vec::new() }
}

fn characteristic_of(r: &BluetoothGattCharacteristicDBus) -> (c: Characteristic)
    requires
        properties_fit(*r),
    ensures
        characteristic_matches(c, *r),
{
    let mut descriptors: Vec<Descriptor> = Vec::new();
    let mut j: usize = 0;
    while j < r.descriptors.len()
        invariant
            j <= r.descriptors@.len(),
            descriptors@.len() == j,
            forall|k: int| 0 <= k < j ==> descriptor_matches(#[trigger] descriptors@[k], r.descriptors@[k]),
        decreases r.descriptors@.len() - j,
    {
        descriptors.push(descriptor_of(&r.descriptors[j]));
        j = j + 1;
    }
    Characteristic { uuid: r.uuid, properties: r.properties as u8, value: Vec::new(), descriptors }
}

impl BluetoothGattServiceDBus {
    /// The service to register for this record: characteristics and
    /// descriptors in the same order, values empty. Included services are not
    /// part of the registered layout.
    pub fn to_service(&self) -> (r: Result<Service, RecordError>)
        ensures
            (forall|i: int| 0 <= i < self.characteristics@.len() ==> properties_fit(#[trigger] self.characteristics@[i]))
                <==> r is Ok,
            r matches Ok(s) ==> {
                &&& s.uuid == self.uuid
                &&& s.characteristics@.len() == self.characteristics@.len()
                &&& forall|i: int|
                    0 <= i < s.characteristics@.len() ==> characteristic_matches(
                        #[trigger] s.characteristics@[i],
                        self.characteristics@[i],
                    )
            },
            r matches Err(RecordError::PropertiesOutOfRange { index }) ==> {
                &&& index < self.characteristics@.len()
                &&& !properties_fit(self.characteristics@[index as int])
                &&& forall|i: int| 0 <= i < index ==> properties_fit(#[trigger] self.characteristics@[i])
            },
    {
        let mut characteristics: Vec<Characteristic> = Vec::new();
        let mut i: usize = 0;
        while i < self.characteristics.len()
            invariant
                i <= self.characteristics@.len(),
                characteristics@.len() == i,
                forall|k: int| 0 <= k < i ==> properties_fit(#[trigger] self.characteristics@[k]),
                forall|k: int|
                    0 <= k < i ==> characteristic_matches(#[trigger] characteristics@[k], self.characteristics@[k]),
            decreases self.characteristics@.len() - i,
        {
            let c = &self.characteristics[i];
            if c.properties < 0 || c.properties > 255 {
                return Err(RecordError::PropertiesOutOfRange { index: i });
            }
            characteristics.push(characteristic_of(c));
            i = i + 1;
        }
        Ok(Service { uuid: self.uuid, characteristics })
    }
}

} // verus!
