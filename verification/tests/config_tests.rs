use max7301::PortMode;
use max7301::config::BankConfig;
use max7301::config::BankConfigStatus;
use max7301::config::ExpanderConfig;

#[test]
fn bank_config_set_port_valid() {
    let mut bank = BankConfig::default();
    bank.set_port(0, PortMode::InputPullup);
    bank.set_port(2, PortMode::Output);
    assert_eq!(u8::from(bank), 0b00010011);
}

#[test]
fn bank_config_keep_mask_unchanged() {
    let bank = BankConfig::default();
    assert_eq!(bank.keep_mask(), 0b11111111);
    assert_eq!(bank.status(), BankConfigStatus::Unchanged);
}

#[test]
fn bank_config_keep_mask_change_0() {
    let mut bank = BankConfig::default();
    bank.set_port(0, PortMode::InputPullup);
    assert_eq!(bank.keep_mask(), 0b11111100);
    assert_eq!(bank.status(), BankConfigStatus::ReadModify);
}

#[test]
fn bank_config_keep_mask_change_0_2() {
    let mut bank = BankConfig::default();
    bank.set_port(0, PortMode::InputPullup);
    bank.set_port(2, PortMode::Output);
    assert_eq!(bank.keep_mask(), 0b11001100);
    assert_eq!(bank.status(), BankConfigStatus::ReadModify);
}

#[test]
fn bank_config_keep_mask_change_all() {
    let mut bank = BankConfig::default();
    for p in 0..4 {
        bank.set_port(p, PortMode::Output);
    }
    assert_eq!(bank.keep_mask(), 0b00000000);
    assert_eq!(bank.status(), BankConfigStatus::Overwrite);
}

#[test]
fn bank_config_merge() {
    let orig = 0b11101010u8;
    let mut bank = BankConfig::default();
    bank.set_port(0, PortMode::InputPullup);
    bank.set_port(2, PortMode::Output);
    assert_eq!(u8::from(bank.merge(orig)), 0b11011011u8);
}

#[test]
fn expander_config_default() {
    let expander_config = ExpanderConfig::default();
    assert_eq!(u8::from(expander_config), 0b00000000);
}

#[test]
fn expander_config_disable_shutdown() {
    let mut expander_config = ExpanderConfig::default();
    expander_config.shutdown = false;
    assert_eq!(u8::from(expander_config), 0b00000001);
}

#[test]
fn expander_config_enable_transition_detect() {
    let mut expander_config = ExpanderConfig::default();
    expander_config.transition_detect = true;
    assert_eq!(u8::from(expander_config), 0b10000000);
}

#[test]
fn port_mode_encodings() {
    assert_eq!(u8::from(PortMode::Output), 0b01);
    assert_eq!(u8::from(PortMode::InputFloating), 0b10);
    assert_eq!(u8::from(PortMode::InputPullup), 0b11);
}
