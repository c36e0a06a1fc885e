use embassy_ra::gpio::{pack_index, AnyPin, Gpio, Input, Level, Output, Pin, Port, PortRegisters, Pull};

fn zero() -> PortRegisters {
    PortRegisters { pdr: 0, podr: 0, pidr: 0, pcr: 0, odr: 0 }
}

#[test]
fn port_numbers_round_trip() {
    for n in 0u8..10 {
        assert_eq!(Port::from_num(n).number(), n);
    }
    assert_eq!(Port::from_num(3), Port::PORT3);
}

#[test]
fn pack_and_unpack_index() {
    let idx = pack_index(1, 5);
    assert_eq!(idx, 21);
    let pin = AnyPin::steal(idx);
    assert_eq!(pin.port_num(), 1);
    assert_eq!(pin.pin_num(), 5);
    assert_eq!(pin._port(), 1);
    assert_eq!(pin.pin(), 5);
    assert_eq!(pack_index(9, 15), 159);
    assert_eq!(AnyPin::steal(159).port_num(), 9);
    assert_eq!(AnyPin::steal(159).pin_num(), 15);
}

#[test]
fn level_bool_conversions() {
    assert_eq!(Level::from(true), Level::High);
    assert_eq!(Level::from(false), Level::Low);
    assert!(bool::from(Level::High));
    assert!(!bool::from(Level::Low));
}

#[test]
fn reset_state_is_all_zero() {
    let g = Gpio::new();
    for n in 0u8..10 {
        assert_eq!(g.port(n), zero());
    }
}

#[test]
fn from_ports_needs_one_block_per_port() {
    assert!(Gpio::from_ports(vec![zero(); 9]).is_none());
    assert!(Gpio::from_ports(vec![zero(); 11]).is_none());
    assert!(Gpio::from_ports(vec![zero(); 10]).is_some());
}

#[test]
fn output_new_high_is_set_high() {
    let mut g = Gpio::new();
    let out = Output::new(AnyPin::steal(0x12), Level::High, &mut g);
    assert!(out.is_set_high(&g));
    assert!(!out.is_set_low(&g));
    let r = g.port(1);
    assert_eq!(r.pdr, 1 << 2);
    assert_eq!(r.podr, 1 << 2);
    assert_eq!(g.port(0), zero());
}

#[test]
fn output_new_low_clears_only_its_bit() {
    let mut g = Gpio::new();
    g.set_port(1, PortRegisters { pdr: 0, podr: 0xFFFF, pidr: 0, pcr: 0, odr: 0 });
    let out = Output::new(AnyPin::steal(0x12), Level::Low, &mut g);
    assert!(out.is_set_low(&g));
    assert_eq!(g.port(1).podr, 0xFFFB);
    assert_eq!(g.port(1).pdr, 0x0004);
}

#[test]
fn set_high_and_set_low() {
    let mut g = Gpio::new();
    let out = Output::new(AnyPin::steal(0x3F), Level::Low, &mut g);
    out.set_high(&mut g);
    assert_eq!(g.port(3).podr, 0x8000);
    assert!(out.is_set_high(&g));
    out.set_low(&mut g);
    assert_eq!(g.port(3).podr, 0);
    assert!(out.is_set_low(&g));
}

#[test]
fn toggle_twice_restores_level() {
    let mut g = Gpio::new();
    let mut out = Output::new(AnyPin::steal(0x05), Level::High, &mut g);
    let before = g.port(0);
    out.toggle(&mut g);
    assert!(out.is_set_low(&g));
    assert_eq!(g.port(0).podr, 0);
    out.toggle(&mut g);
    assert!(out.is_set_high(&g));
    assert_eq!(g.port(0), before);
}

#[test]
fn is_low_is_negation_of_is_high() {
    let mut g = Gpio::new();
    g.set_port(2, PortRegisters { pdr: 0, podr: 0, pidr: 0x0010, pcr: 0, odr: 0 });
    let input = Input::new(AnyPin::steal(0x24), Pull::Floating, &mut g);
    assert!(input.is_high(&g));
    assert!(!input.is_low(&g));
    let other = Input::new(AnyPin::steal(0x25), Pull::Floating, &mut g);
    assert!(!other.is_high(&g));
    assert!(other.is_low(&g));
    let pin = AnyPin::steal(0x24);
    assert_eq!(pin.is_low(&g), !pin.is_high(&g));
}

#[test]
fn level_follows_direction() {
    let mut g = Gpio::new();
    g.set_port(4, PortRegisters { pdr: 0, podr: 0x0001, pidr: 0, pcr: 0, odr: 0 });
    let pin = AnyPin::steal(0x40);
    assert!(!pin.is_high(&g));
    pin.set_as_output(&mut g);
    assert!(pin.is_high(&g));
    pin.set_as_input(&mut g);
    assert!(!pin.is_high(&g));
    assert!(pin.is_set_high(&g));
}

#[test]
fn input_pull_modes() {
    let mut g = Gpio::new();
    g.set_port(1, PortRegisters { pdr: 0x0003, podr: 0x0003, pidr: 0, pcr: 0x0002, odr: 0 });
    let up = Input::new(AnyPin::steal(0x10), Pull::Up, &mut g);
    assert_eq!(up.pull(), Pull::Up);
    assert_eq!(g.port(1), PortRegisters { pdr: 0x0002, podr: 0x0003, pidr: 0, pcr: 0x0003, odr: 0 });
    let none = Input::new(AnyPin::steal(0x11), Pull::Floating, &mut g);
    assert_eq!(none.pull(), Pull::Floating);
    assert_eq!(g.port(1), PortRegisters { pdr: 0, podr: 0x0003, pidr: 0, pcr: 0x0001, odr: 0 });
    let down = Input::new(AnyPin::steal(0x10), Pull::Down, &mut g);
    assert_eq!(down.pull(), Pull::Down);
    assert_eq!(g.port(1), PortRegisters { pdr: 0, podr: 0x0002, pidr: 0, pcr: 0, odr: 0x0001 });
}
