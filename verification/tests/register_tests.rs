use max7301::Register;
use max7301::RegisterAddress;

#[test]
fn bank_config_address_valid() {
    assert!(RegisterAddress::from(Register::BankConfig(0)) == RegisterAddress(0x09));
    assert!(RegisterAddress::from(Register::BankConfig(6)) == RegisterAddress(0x0F));
}

#[test]
fn single_port_address_valid() {
    assert!(RegisterAddress::from(Register::SinglePort(4)) == RegisterAddress(0x24));
    assert!(RegisterAddress::from(Register::SinglePort(31)) == RegisterAddress(0x3F));
}

#[test]
fn port_range_address_valid() {
    assert!(RegisterAddress::from(Register::PortRange(4)) == RegisterAddress(0x44));
    assert!(RegisterAddress::from(Register::PortRange(31)) == RegisterAddress(0x5F));
}

#[test]
fn noop_and_global_addresses() {
    assert!(RegisterAddress::from(Register::Noop) == RegisterAddress(0x00));
    assert!(RegisterAddress::from(Register::Configuration) == RegisterAddress(0x04));
    assert!(RegisterAddress::from(Register::TransitionDetectMask) == RegisterAddress(0x06));
}

#[test]
fn valid_port_and_bank_pass_through() {
    assert_eq!(max7301::valid_port(4), 4);
    assert_eq!(max7301::valid_port(31), 31);
    assert_eq!(max7301::valid_bank(0), 0);
    assert_eq!(max7301::valid_bank(6), 6);
}
