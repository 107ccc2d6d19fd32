use rv8803::rtc::address::SlaveAddress;

#[test]
fn satisfies_partialeq() {
    let default_address = SlaveAddress::Default;
    let alt_address = SlaveAddress::Alternative(0x32);

    assert_eq!(default_address, alt_address);

    let alt_address = SlaveAddress::at_address(0x032);
    assert_eq!(default_address, alt_address);
}
