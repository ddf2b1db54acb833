use virtio_sim::device_register::DeviceRegister;

#[test]
pub fn test_create_register() {
    let register = DeviceRegister::default();
    let packed = register.pack();
    assert_eq!(packed.len(), 104);

    for (row, value) in packed.chunks_exact(4).enumerate() {
        let byte_arr: [u8; 4] = [value[0], value[1], value[2], value[3]];
        let result = u32::from_le_bytes(byte_arr);
        println!("Cell {row}: {:x}", result);
    }
}

#[test]
fn register_bytes_are_exact() {
    let register = DeviceRegister::default();
    let packed = register.pack();
    // magic 0x74726976 little-endian spells "virt"
    assert_eq!(&packed[0..4], &[0x76, 0x69, 0x72, 0x74]);
    // version 2 at 0x04, device id 2 at 0x08
    assert_eq!(&packed[4..8], &[2, 0, 0, 0]);
    assert_eq!(&packed[8..12], &[2, 0, 0, 0]);
    // vendor, features and both gaps are zero
    for offset in 12..0x30 {
        assert_eq!(packed[offset], 0, "offset {offset}");
    }
    for offset in 0x30..104 {
        assert_eq!(packed[offset], 0, "offset {offset}");
    }
}

#[test]
fn register_fields_land_on_their_offsets() {
    let register = DeviceRegister {
        magic_number: 0x74726976,
        version: 2,
        device_id: 2,
        vendor_id: 0x11223344,
        device_features: 5,
        queue_sel: 1,
        queue_max_size: 64,
        queue_size: 64,
        queue_ready: 1,
        queue_notify: 7,
        interrupt_state: 3,
        interrupt_ack: 9,
    };
    let packed = register.pack();
    assert_eq!(&packed[0x0c..0x10], &[0x44, 0x33, 0x22, 0x11]);
    assert_eq!(&packed[0x10..0x14], &[5, 0, 0, 0]);
    assert_eq!(&packed[0x30..0x34], &[1, 0, 0, 0]);
    assert_eq!(&packed[0x34..0x38], &[64, 0, 0, 0]);
    assert_eq!(&packed[0x38..0x3c], &[64, 0, 0, 0]);
    assert_eq!(&packed[0x3c..0x40], &[1, 0, 0, 0]);
    assert_eq!(&packed[0x40..0x44], &[7, 0, 0, 0]);
    assert_eq!(&packed[0x60..0x64], &[3, 0, 0, 0]);
    assert_eq!(&packed[0x64..0x68], &[9, 0, 0, 0]);
    for offset in 0x14..0x30 {
        assert_eq!(packed[offset], 0, "gap offset {offset}");
    }
    for offset in 0x44..0x60 {
        assert_eq!(packed[offset], 0, "gap offset {offset}");
    }
}
