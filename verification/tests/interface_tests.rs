use max7301::Expander;
use max7301::NoopInterface;
use max7301::PortMode;
use max7301::Register;
use max7301::RegisterAddress;
use max7301::SpiInterfaceError;
use max7301::interface::spi_read_request_frame;
use max7301::interface::spi_read_result;
use max7301::interface::spi_write_frame;

#[test]
fn spi_write_frame_layout() {
    let frame = spi_write_frame(RegisterAddress::from(Register::BankConfig(0)), 0b01010101);
    assert_eq!(frame, (0x09, 0b01010101));
    let frame = spi_write_frame(RegisterAddress::from(Register::SinglePort(12)), 0x01);
    assert_eq!(frame, (0x2C, 0x01));
}

#[test]
fn spi_read_request_frame_sets_msb() {
    let frame = spi_read_request_frame(RegisterAddress::from(Register::SinglePort(12)));
    assert_eq!(frame, (0xAC, 0x00));
}

#[test]
fn spi_read_result_checks_echo() {
    let ok = spi_read_result::<(), (), ()>(0xAC, 0xAC, 0x42);
    assert_eq!(ok, Ok(0x42));
    let bad = spi_read_result::<(), (), ()>(0xAC, 0x2C, 0x42);
    assert!(matches!(bad, Err(SpiInterfaceError::AddressError)));
}

#[test]
fn spi_error_wrappers_keep_their_variant() {
    assert!(matches!(SpiInterfaceError::<u8, u16, u32>::from_cs(1), SpiInterfaceError::CSError(1)));
    assert!(matches!(
        SpiInterfaceError::<u8, u16, u32>::from_write(2),
        SpiInterfaceError::WriteError(2)
    ));
    assert!(matches!(
        SpiInterfaceError::<u8, u16, u32>::from_transfer(3),
        SpiInterfaceError::TransferError(3)
    ));
}

#[test]
fn noop_interface_stores_port_writes() {
    let mut ex = Expander::new(NoopInterface::new());
    assert_eq!(ex.read_port(5), Ok(false));
    assert!(ex.write_port(5, true).is_ok());
    assert_eq!(ex.read_port(5), Ok(true));
    assert!(ex.write_ports(8, 0b00000110).is_ok());
    assert_eq!(ex.read_port(9), Ok(true));
    assert_eq!(ex.read_port(10), Ok(true));
    assert_eq!(ex.read_port(11), Ok(false));
    assert_eq!(ex.read_ports(8), Ok(0b00000110));
}

#[test]
fn noop_interface_accepts_configuration() {
    let mut ex = Expander::new(NoopInterface::new());
    assert!(
        ex.configure().ports(&[4, 5, 6, 7], PortMode::Output).shutdown(false).commit().is_ok()
    );
}

#[test]
fn noop_interface_truncates_high_ports() {
    let mut ex = Expander::new(NoopInterface::new());
    assert!(ex.write_port(31, true).is_ok());
    assert_eq!(ex.read_ports(28), Ok(0b00001000));
    assert_eq!(ex.read_ports(31), Ok(0x01));
    assert!(ex.write_ports(28, 0xFF).is_ok());
    assert_eq!(ex.read_ports(28), Ok(0b00001111));
}
