use s7client::s7_comm::Address;

#[test]
fn check_address() {
    let addr = Address {
        byte_addr: 0b0000000100101100,
        bit_addr: 0,
    };
    assert_eq!(addr.byte_addr, 300);
    assert_eq!(addr.to_bytes(), [0, 9, 0x60])
}
