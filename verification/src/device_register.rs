//! The memory-mapped device-identity register block.
//!
//! A 104-byte little-endian structure with fixed field offsets.  The core
//! does not dispatch on it; it exists to be byte-exactly serialized, and
//! `pack` is proved to place every field's little-endian bytes at its
//! offset and zeroes in the gaps.

use vstd::prelude::*;

verus! {

/// The identity register block, one 32-bit field per register.
pub struct DeviceRegister {
    pub magic_number: u32,
    pub version: u32,
    pub device_id: u32,
    pub vendor_id: u32,
    pub device_features: u32,
    pub queue_sel: u32,
    pub queue_max_size: u32,
    pub queue_size: u32,
    pub queue_ready: u32,
    pub queue_notify: u32,
    pub interrupt_state: u32,
    pub interrupt_ack: u32,
}

/// Byte `index` (0 to 3) of a 32-bit value in little-endian order.
pub open spec fn u32_le_byte(value: u32, index: int) -> u8 {
    if index == 0 {
        (value & 0xff) as u8
    } else if index == 1 {
        ((value >> 8) & 0xff) as u8
    } else if index == 2 {
        ((value >> 16) & 0xff) as u8
    } else {
        ((value >> 24) & 0xff) as u8
    }
}

impl Default for DeviceRegister {
    /// The identity of this simulated device: the virtio magic, version 2,
    /// device class 2 (a block device), everything else zero.
    fn default() -> (register: Self)
        ensures
            register.magic_number == 0x74726976,
            register.version == 2,
            register.device_id == 2,
            register.vendor_id == 0,
            register.device_features == 0,
            register.queue_sel == 0,
            register.queue_max_size == 0,
            register.queue_size == 0,
            register.queue_ready == 0,
            register.queue_notify == 0,
            register.interrupt_state == 0,
            register.interrupt_ack == 0,
    {
        DeviceRegister {
            magic_number: 0x74726976,
            version: 2,
            device_id: 2,
            vendor_id: 0,
            device_features: 0,
            queue_sel: 0,
            queue_max_size: 0,
            queue_size: 0,
            queue_ready: 0,
            queue_notify: 0,
            interrupt_state: 0,
            interrupt_ack: 0,
        }
    }
}

/// Append the four little-endian bytes of a 32-bit value.
fn push_u32_le(buffer: &mut Vec<u8>, value: u32)
    ensures
        final(buffer)@ == old(buffer)@ + seq![
            u32_le_byte(value, 0),
            u32_le_byte(value, 1),
            u32_le_byte(value, 2),
            u32_le_byte(value, 3),
        ],
{
    buffer.push((value & 0xff) as u8);
    buffer.push(((value >> 8) & 0xff) as u8);
    buffer.push(((value >> 16) & 0xff) as u8);
    buffer.push(((value >> 24) & 0xff) as u8);
    proof {
        assert(buffer@ =~= old(buffer)@ + seq![
            u32_le_byte(value, 0),
            u32_le_byte(value, 1),
            u32_le_byte(value, 2),
            u32_le_byte(value, 3),
        ]);
    }
}

/// Append this many zero bytes.
fn push_zero_bytes(buffer: &mut Vec<u8>, count: usize)
    ensures
        final(buffer)@ == old(buffer)@ + Seq::new(count as nat, |i: int| 0u8),
{
    let mut pushed: usize = 0;
    while pushed < count
        invariant
            pushed <= count,
            buffer@ == old(buffer)@ + Seq::new(pushed as nat, |i: int| 0u8),
        decreases count - pushed,
    {
        buffer.push(0);
        proof {
            assert(buffer@ =~= old(buffer)@ + Seq::new((pushed + 1) as nat, |i: int| 0u8));
        }
        pushed = pushed + 1;
    }
}

impl DeviceRegister {
    /// Serialize the register block: 104 bytes, each field's little-endian
    /// bytes at its architectural offset, zeroes in the two gaps.
    pub fn pack(&self) -> (packed: Vec<u8>)
        ensures
            packed@.len() == 104,
            forall|i: int| 0 <= i < 4 ==> packed@[i] == u32_le_byte(self.magic_number, i),
            forall|i: int| 0 <= i < 4 ==> packed@[0x04 + i] == u32_le_byte(self.version, i),
            forall|i: int| 0 <= i < 4 ==> packed@[0x08 + i] == u32_le_byte(self.device_id, i),
            forall|i: int| 0 <= i < 4 ==> packed@[0x0c + i] == u32_le_byte(self.vendor_id, i),
            forall|i: int|
                0 <= i < 4 ==> packed@[0x10 + i] == u32_le_byte(self.device_features, i),
            forall|i: int| 0x14 <= i < 0x30 ==> packed@[i] == 0u8,
            forall|i: int| 0 <= i < 4 ==> packed@[0x30 + i] == u32_le_byte(self.queue_sel, i),
            forall|i: int|
                0 <= i < 4 ==> packed@[0x34 + i] == u32_le_byte(self.queue_max_size, i),
            forall|i: int| 0 <= i < 4 ==> packed@[0x38 + i] == u32_le_byte(self.queue_size, i),
            forall|i: int| 0 <= i < 4 ==> packed@[0x3c + i] == u32_le_byte(self.queue_ready, i),
            forall|i: int| 0 <= i < 4 ==> packed@[0x40 + i] == u32_le_byte(self.queue_notify, i),
            forall|i: int| 0x44 <= i < 0x60 ==> packed@[i] == 0u8,
            forall|i: int|
                0 <= i < 4 ==> packed@[0x60 + i] == u32_le_byte(self.interrupt_state, i),
            forall|i: int|
                0 <= i < 4 ==> packed@[0x64 + i] == u32_le_byte(self.interrupt_ack, i),
    {
        let mut packed: Vec<u8> = Vec::new();
        push_u32_le(&mut packed, self.magic_number);
        push_u32_le(&mut packed, self.version);
        push_u32_le(&mut packed, self.device_id);
        push_u32_le(&mut packed, self.vendor_id);
        push_u32_le(&mut packed, self.device_features);
        push_zero_bytes(&mut packed, 0x30 - 0x14);
        push_u32_le(&mut packed, self.queue_sel);
        push_u32_le(&mut packed, self.queue_max_size);
        push_u32_le(&mut packed, self.queue_size);
        push_u32_le(&mut packed, self.queue_ready);
        push_u32_le(&mut packed, self.queue_notify);
        push_zero_bytes(&mut packed, 0x60 - 0x44);
        push_u32_le(&mut packed, self.interrupt_state);
        push_u32_le(&mut packed, self.interrupt_ack);
        packed
    }
}

} // verus!
