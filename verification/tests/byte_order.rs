use hif::byte_order::ByteOrder;
use hif::sam::Sam;

#[test]
fn reads_least_significant_byte_first() {
    assert_eq!(ByteOrder::Little.read_u32(&[0x78, 0x56, 0x34, 0x12]), 0x1234_5678);
}

#[test]
fn reads_most_significant_byte_first() {
    assert_eq!(ByteOrder::Big.read_u32(&[0x78, 0x56, 0x34, 0x12]), 0x7856_3412);
}

#[test]
fn writes_least_significant_byte_first() {
    assert_eq!(ByteOrder::Little.write_u32(0x1234_5678), [0x78, 0x56, 0x34, 0x12]);
}

#[test]
fn writes_most_significant_byte_first() {
    assert_eq!(ByteOrder::Big.write_u32(0x1234_5678), [0x12, 0x34, 0x56, 0x78]);
}

#[test]
fn agrees_with_the_standard_library() {
    for value in [0u32, 1, 255, 256, 65_535, 65_536, 0x00ff_ffff, 0x0100_0000, 0xdead_beef, u32::MAX] {
        assert_eq!(ByteOrder::Little.write_u32(value), value.to_le_bytes());
        assert_eq!(ByteOrder::Big.write_u32(value), value.to_be_bytes());
        assert_eq!(ByteOrder::Little.read_u32(&value.to_le_bytes()), value);
        assert_eq!(ByteOrder::Big.read_u32(&value.to_be_bytes()), value);
    }
}

#[test]
fn what_is_written_is_read_back() {
    for order in [ByteOrder::Little, ByteOrder::Big] {
        for value in [0u32, 1, 0x8000_0000, 0x0102_0304, u32::MAX] {
            assert_eq!(order.read_u32(&order.write_u32(value)), value);
        }
    }
}

#[test]
fn what_is_read_is_written_back() {
    for order in [ByteOrder::Little, ByteOrder::Big] {
        for bytes in [[0u8, 0, 0, 0], [1, 2, 3, 4], [255, 255, 255, 255], [0, 0, 0, 128]] {
            assert_eq!(order.write_u32(order.read_u32(&bytes)), bytes);
        }
    }
}

#[test]
fn the_two_orders_mirror_each_other() {
    assert_eq!(
        ByteOrder::Little.read_u32(&[1, 2, 3, 4]),
        ByteOrder::Big.read_u32(&[4, 3, 2, 1])
    );
}

#[test]
fn convert_bytes_to_u32_ne_reads_in_the_machine_order() {
    for bytes in [[0u8, 0, 0, 0], [1, 0, 0, 0], [0x78, 0x56, 0x34, 0x12], [255, 255, 255, 255]] {
        assert_eq!(Sam::convert_bytes_to_u32_ne(&bytes), u32::from_ne_bytes(bytes));
    }
}

#[test]
fn convert_bytes_to_u32_ne_reads_in_one_of_the_two_orders() {
    let bytes = [0x78, 0x56, 0x34, 0x12];
    let value = Sam::convert_bytes_to_u32_ne(&bytes);
    assert!(value == 0x1234_5678 || value == 0x7856_3412);
}

#[test]
fn native_byte_order_is_the_machine_order() {
    let order = Sam::native_byte_order();
    for value in [1u32, 0x1234_5678, 0xff00_0000] {
        assert_eq!(order.write_u32(value), value.to_ne_bytes());
        assert_eq!(order.read_u32(&value.to_ne_bytes()), value);
        assert_eq!(Sam::convert_bytes_to_u32_ne(&order.write_u32(value)), value);
    }
}

#[test]
fn of_probe_tells_the_two_orders_apart() {
    assert_eq!(ByteOrder::of_probe(1), ByteOrder::Little);
    assert_eq!(ByteOrder::of_probe(0x0100_0000), ByteOrder::Big);
    assert_eq!(ByteOrder::of_probe(ByteOrder::Little.read_u32(&[1, 0, 0, 0])), ByteOrder::Little);
    assert_eq!(ByteOrder::of_probe(ByteOrder::Big.read_u32(&[1, 0, 0, 0])), ByteOrder::Big);
}

#[test]
fn of_probe_takes_any_other_number_as_big() {
    assert_eq!(ByteOrder::of_probe(0), ByteOrder::Big);
    assert_eq!(ByteOrder::of_probe(2), ByteOrder::Big);
    assert_eq!(ByteOrder::of_probe(u32::MAX), ByteOrder::Big);
}

#[test]
fn native_byte_order_is_the_order_of_the_probe() {
    let value = Sam::convert_bytes_to_u32_ne(&[1, 0, 0, 0]);
    assert_eq!(Sam::native_byte_order(), ByteOrder::of_probe(value));
}
