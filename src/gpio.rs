//! Pins, ports and the register-level pin operations.
use vstd::prelude::*;

verus! {

/// Number of ports that a pin index can address.
pub const PORT_COUNT: u8 = 10;

/// Number of pins in one port.
pub const PINS_PER_PORT: u8 = 16;

/// Port list.
#[derive(Debug, PartialEq, Eq, Structural, Clone, Copy)]
pub enum Port {
    /// Port 0
    PORT0,
    /// Port 1
    PORT1,
    /// Port 2
    PORT2,
    /// Port 3
    PORT3,
    /// Port 4
    PORT4,
    /// Port 5
    PORT5,
    /// Port 6
    PORT6,
    /// Port 7
    PORT7,
    /// Port 8
    PORT8,
    /// Port 9
    PORT9,
}

impl Port {
    /// The number of this port.
    pub open spec fn spec_number(self) -> nat {
        match self {
            Port::PORT0 => 0,
            Port::PORT1 => 1,
            Port::PORT2 => 2,
            Port::PORT3 => 3,
            Port::PORT4 => 4,
            Port::PORT5 => 5,
            Port::PORT6 => 6,
            Port::PORT7 => 7,
            Port::PORT8 => 8,
            Port::PORT9 => 9,
        }
    }

    /// The port with number `num`. Only numbers of existing ports are valid.
    pub fn from_num(num: u8) -> (r: Port)
        requires
            num < PORT_COUNT,
        ensures
            r.spec_number() == num,
    {
        match num {
            0 => Port::PORT0,
            1 => Port::PORT1,
            2 => Port::PORT2,
            3 => Port::PORT3,
            4 => Port::PORT4,
            5 => Port::PORT5,
            6 => Port::PORT6,
            7 => Port::PORT7,
            8 => Port::PORT8,
            _ => Port::PORT9,
        }
    }

    /// The number of this port.
    pub fn number(&self) -> (r: u8)
        ensures
            r == self.spec_number(),
            r < PORT_COUNT,
    {
        match self {
            Port::PORT0 => 0,
            Port::PORT1 => 1,
            Port::PORT2 => 2,
            Port::PORT3 => 3,
            Port::PORT4 => 4,
            Port::PORT5 => 5,
            Port::PORT6 => 6,
            Port::PORT7 => 7,
            Port::PORT8 => 8,
            Port::PORT9 => 9,
        }
    }
}

/// Packs a port number and a pin number into one pin index.
pub open spec fn pack(port: nat, pin: nat) -> nat {
    port * 16 + pin
}

/// The port number held in a pin index.
pub open spec fn port_of(index: nat) -> nat {
    index / 16
}

/// The number within its port of the pin that a pin index names.
pub open spec fn pin_of(index: nat) -> nat {
    index % 16
}

/// A pin index addresses an existing port.
pub open spec fn valid_index(index: nat) -> bool {
    index < PORT_COUNT * PINS_PER_PORT
}

/// Packing a port number and a pin number, then unpacking the index, gives
/// them back.
pub proof fn lemma_pack_unpack(port: nat, pin: nat)
    requires
        pin < 16,
    ensures
        port_of(pack(port, pin)) == port,
        pin_of(pack(port, pin)) == pin,
        port < PORT_COUNT ==> valid_index(pack(port, pin)),
{
    assert(port_of(pack(port, pin)) == port && pin_of(pack(port, pin)) == pin) by (nonlinear_arith)
        requires
            pin < 16,
    ;
    assert(port < PORT_COUNT ==> valid_index(pack(port, pin))) by (nonlinear_arith)
        requires
            pin < 16,
    ;
}

/// Packs a port number and a pin number into one pin index.
pub fn pack_index(port: u8, pin: u8) -> (r: u8)
    requires
        port < PORT_COUNT,
        pin < PINS_PER_PORT,
    ensures
        r == pack(port as nat, pin as nat),
        valid_index(r as nat),
{
    proof {
        lemma_pack_unpack(port as nat, pin as nat);
    }
    port * 16 + pin
}

/// Represents a digital input or output level.
#[derive(Debug, PartialEq, Eq, Structural, Clone, Copy)]
pub enum Level {
    /// Logical low.
    Low,
    /// Logical high.
    High,
}

impl From<bool> for Level {
    fn from(val: bool) -> (r: Level)
        ensures
            r == (if val { Level::High } else { Level::Low }),
    {
        if val {
            Level::High
        } else {
            Level::Low
        }
    }
}

impl vstd::std_specs::convert::FromSpecImpl<bool> for Level {
    open spec fn obeys_from_spec() -> bool {
        true
    }

    open spec fn from_spec(val: bool) -> Level {
        if val {
            Level::High
        } else {
            Level::Low
        }
    }
}

impl From<Level> for bool {
    fn from(level: Level) -> (r: bool)
        ensures
            r == (level == Level::High),
    {
        match level {
            Level::Low => false,
            Level::High => true,
        }
    }
}

impl vstd::std_specs::convert::FromSpecImpl<Level> for bool {
    open spec fn obeys_from_spec() -> bool {
        true
    }

    open spec fn from_spec(level: Level) -> bool {
        level == Level::High
    }
}

/// Input pull configuration.
#[derive(Debug, PartialEq, Eq, Structural, Clone, Copy)]
pub enum Pull {
    /// No pull-up or pull-down
    Floating,
    /// Pull-up
    Up,
    /// Pull-down. The port has no pull-down resistor: this drives the pin low
    /// through an open-drain output instead, which is an approximation with a
    /// driven state rather than a weak bias.
    Down,
}

/// The control registers of one port, one bit per pin.
#[derive(Debug, PartialEq, Eq, Structural, Clone, Copy)]
pub struct PortRegisters {
    /// Direction: a set bit makes the pin an output.
    pub pdr: u16,
    /// Output data: the level that the pin drives.
    pub podr: u16,
    /// Input data: the level sensed on the pin.
    pub pidr: u16,
    /// Pull-up control: a set bit enables the pin's pull-up resistor.
    pub pcr: u16,
    /// Open-drain control: a set bit makes the pin's output open-drain.
    pub odr: u16,
}

/// The single-bit mask of pin `pin` within its port's registers.
pub open spec fn mask(pin: nat) -> u16 {
    (1u16 << (pin as u16))
}

/// Whether the bit of pin `pin` is set in register value `v`.
pub open spec fn bit(v: u16, pin: nat) -> bool {
    v & mask(pin) != 0
}

/// The registers after the pin has been driven high.
pub open spec fn driven_high(r: PortRegisters, pin: nat) -> PortRegisters {
    PortRegisters { podr: r.podr | mask(pin), ..r }
}

/// The registers after the pin has been driven low.
pub open spec fn driven_low(r: PortRegisters, pin: nat) -> PortRegisters {
    PortRegisters { podr: r.podr & !mask(pin), ..r }
}

/// The registers after the pin has been driven to `level`.
pub open spec fn driven(r: PortRegisters, pin: nat, level: Level) -> PortRegisters {
    match level {
        Level::High => driven_high(r, pin),
        Level::Low => driven_low(r, pin),
    }
}

/// The registers after the pin's driven level has been flipped.
pub open spec fn toggled(r: PortRegisters, pin: nat) -> PortRegisters {
    PortRegisters { podr: r.podr ^ mask(pin), ..r }
}

/// The registers after the pin has been made an output.
pub open spec fn made_output(r: PortRegisters, pin: nat) -> PortRegisters {
    PortRegisters { pdr: r.pdr | mask(pin), ..r }
}

/// The registers after the pin has been made an input.
pub open spec fn made_input(r: PortRegisters, pin: nat) -> PortRegisters {
    PortRegisters { pdr: r.pdr & !mask(pin), ..r }
}

/// The registers after the pin's pull configuration has been applied.
pub open spec fn pulled(r: PortRegisters, pin: nat, pull: Pull) -> PortRegisters {
    match pull {
        Pull::Floating => PortRegisters { pcr: r.pcr & !mask(pin), ..r },
        Pull::Up => PortRegisters { pcr: r.pcr | mask(pin), ..r },
        Pull::Down => PortRegisters {
            pcr: r.pcr & !mask(pin),
            podr: r.podr & !mask(pin),
            odr: r.odr | mask(pin),
            ..r
        },
    }
}

/// Whether the pin drives a high level.
pub open spec fn set_high_bit(r: PortRegisters, pin: nat) -> bool {
    bit(r.podr, pin)
}

/// The level of the pin: the driven level for an output, the sensed level
/// for an input.
pub open spec fn level_high(r: PortRegisters, pin: nat) -> bool {
    if bit(r.pdr, pin) {
        bit(r.podr, pin)
    } else {
        bit(r.pidr, pin)
    }
}

/// The register state with port `port` changed to `r`.
pub open spec fn with_port(g: Seq<PortRegisters>, port: nat, r: PortRegisters) -> Seq<
    PortRegisters,
> {
    g.update(port as int, r)
}

/// The register blocks of all ports.
pub struct Gpio {
    ports: Vec<PortRegisters>,
}

impl View for Gpio {
    type V = Seq<PortRegisters>;

    closed spec fn view(&self) -> Seq<PortRegisters> {
        self.ports@
    }
}

impl Gpio {
    /// One register block for each port.
    pub open spec fn wf(&self) -> bool {
        self@.len() == PORT_COUNT
    }

    /// The register state after reset: every register of every port zero.
    pub fn new() -> (r: Gpio)
        ensures
            r.wf(),
            forall|i: int|
                0 <= i < PORT_COUNT ==> #[trigger] r@[i] == (PortRegisters {
                    pdr: 0,
                    podr: 0,
                    pidr: 0,
                    pcr: 0,
                    odr: 0,
                }),
    {
        let mut ports: Vec<PortRegisters> = Vec::new();
        let mut i: u8 = 0;
        while i < PORT_COUNT
            invariant
                i <= PORT_COUNT,
                ports@.len() == i,
                forall|j: int|
                    0 <= j < i ==> #[trigger] ports@[j] == (PortRegisters {
                        pdr: 0,
                        podr: 0,
                        pidr: 0,
                        pcr: 0,
                        odr: 0,
                    }),
            decreases PORT_COUNT - i,
        {
            ports.push(PortRegisters { pdr: 0, podr: 0, pidr: 0, pcr: 0, odr: 0 });
            i = i + 1;
        }
        Gpio { ports }
    }

    /// A register state from one block per port; `None` unless there is
    /// exactly one block for each port.
    pub fn from_ports(ports: Vec<PortRegisters>) -> (r: Option<Gpio>)
        ensures
            r is Some <==> ports@.len() == PORT_COUNT,
            r matches Some(g) ==> g@ == ports@,
    {
        if ports.len() == PORT_COUNT as usize {
            Some(Gpio { ports })
        } else {
            None
        }
    }

    /// The register block of port `port`.
    pub fn port(&self, port: u8) -> (r: PortRegisters)
        requires
            self.wf(),
            port < PORT_COUNT,
        ensures
            r == self@[port as int],
    {
        self.ports[port as usize]
    }

    /// Replaces the register block of port `port`.
    pub fn set_port(&mut self, port: u8, r: PortRegisters)
        requires
            old(self).wf(),
            port < PORT_COUNT,
        ensures
            final(self)@ == with_port(old(self)@, port as nat, r),
    {
        self.ports.set(port as usize, r);
    }
}

/// Type-erased GPIO pin: a pin known only by its packed index
/// `port * 16 + pin`.
pub struct AnyPin {
    pin_port_num: u8,
}

impl AnyPin {
    /// The packed index of this pin.
    pub closed spec fn index(&self) -> nat {
        self.pin_port_num as nat
    }

    /// A handle for the pin with packed index `pin_port_num`, made without a
    /// pin type that proves the pin is enabled.
    ///
    /// This voids the single-owner guarantee: the caller must make sure that
    /// no other handle for the same pin is alive.
    pub fn steal(pin_port_num: u8) -> (r: AnyPin)
        ensures
            r.index() == pin_port_num,
    {
        AnyPin { pin_port_num }
    }

    /// The port number of this pin.
    pub fn _port(&self) -> (r: u8)
        ensures
            r == port_of(self.index()),
    {
        self.pin_port_num / 16
    }

    /// The packed index of this pin.
    pub fn pin_port_num(&self) -> (r: u8)
        ensures
            r == self.index(),
    {
        self.pin_port_num
    }

    /// The number of this pin within its port.
    pub fn pin_num(&self) -> (r: u8)
        ensures
            r == pin_of(self.index()),
            r < PINS_PER_PORT,
    {
        self.pin_port_num % 16
    }

    /// The port number of this pin.
    pub fn port_num(&self) -> (r: u8)
        ensures
            r == port_of(self.index()),
    {
        self.pin_port_num / 16
    }

    /// The register block of this pin's port, with the pin's bit mask.
    fn block(&self, gpio: &Gpio) -> (r: (usize, PortRegisters, u16))
        requires
            valid_index(self.index()),
            gpio.wf(),
        ensures
            r.0 == port_of(self.index()),
            r.0 < PORT_COUNT,
            r.1 == gpio@[r.0 as int],
            r.2 == mask(pin_of(self.index())),
    {
        let port = self.port_num() as usize;
        let pin = self.pin_num();
        (port, gpio.ports[port], 1u16 << (pin as u16))
    }

    /// Drives the pin high.
    pub fn set_high(&self, gpio: &mut Gpio)
        requires
            valid_index(self.index()),
            old(gpio).wf(),
        ensures
            final(gpio)@ == with_port(
                old(gpio)@,
                port_of(self.index()),
                driven_high(old(gpio)@[port_of(self.index()) as int], pin_of(self.index())),
            ),
    {
        let (port, r, m) = self.block(gpio);
        gpio.ports.set(port, PortRegisters { podr: r.podr | m, ..r });
    }

    /// Drives the pin low.
    pub fn set_low(&self, gpio: &mut Gpio)
        requires
            valid_index(self.index()),
            old(gpio).wf(),
        ensures
            final(gpio)@ == with_port(
                old(gpio)@,
                port_of(self.index()),
                driven_low(old(gpio)@[port_of(self.index()) as int], pin_of(self.index())),
            ),
    {
        let (port, r, m) = self.block(gpio);
        gpio.ports.set(port, PortRegisters { podr: r.podr & !m, ..r });
    }

    /// Whether the pin is high: the driven level of an output, the sensed
    /// level of an input.
    pub fn is_high(&self, gpio: &Gpio) -> (r: bool)
        requires
            valid_index(self.index()),
            gpio.wf(),
        ensures
            r == level_high(gpio@[port_of(self.index()) as int], pin_of(self.index())),
    {
        let (_port, r, m) = self.block(gpio);
        if r.pdr & m != 0 {
            r.podr & m != 0
        } else {
            r.pidr & m != 0
        }
    }

    /// Whether the pin is low; always the negation of `is_high`.
    pub fn is_low(&self, gpio: &Gpio) -> (r: bool)
        requires
            valid_index(self.index()),
            gpio.wf(),
        ensures
            r == !level_high(gpio@[port_of(self.index()) as int], pin_of(self.index())),
    {
        !self.is_high(gpio)
    }

    /// Whether the pin's output data bit is set, whatever its direction.
    pub fn is_set_high(&self, gpio: &Gpio) -> (r: bool)
        requires
            valid_index(self.index()),
            gpio.wf(),
        ensures
            r == set_high_bit(gpio@[port_of(self.index()) as int], pin_of(self.index())),
    {
        let (_port, r, m) = self.block(gpio);
        r.podr & m != 0
    }

    /// Makes the pin an output.
    pub fn set_as_output(&self, gpio: &mut Gpio)
        requires
            valid_index(self.index()),
            old(gpio).wf(),
        ensures
            final(gpio)@ == with_port(
                old(gpio)@,
                port_of(self.index()),
                made_output(old(gpio)@[port_of(self.index()) as int], pin_of(self.index())),
            ),
    {
        let (port, r, m) = self.block(gpio);
        gpio.ports.set(port, PortRegisters { pdr: r.pdr | m, ..r });
    }

    /// Makes the pin an input.
    pub fn set_as_input(&self, gpio: &mut Gpio)
        requires
            valid_index(self.index()),
            old(gpio).wf(),
        ensures
            final(gpio)@ == with_port(
                old(gpio)@,
                port_of(self.index()),
                made_input(old(gpio)@[port_of(self.index()) as int], pin_of(self.index())),
            ),
    {
        let (port, r, m) = self.block(gpio);
        gpio.ports.set(port, PortRegisters { pdr: r.pdr & !m, ..r });
    }

    /// Applies a pull configuration to the pin. `Pull::Down` is approximated
    /// by an open-drain output driven low, since the port has no pull-down.
    pub fn set_pull_mode(&self, gpio: &mut Gpio, pull: Pull)
        requires
            valid_index(self.index()),
            old(gpio).wf(),
        ensures
            final(gpio)@ == with_port(
                old(gpio)@,
                port_of(self.index()),
                pulled(old(gpio)@[port_of(self.index()) as int], pin_of(self.index()), pull),
            ),
    {
        let (port, r, m) = self.block(gpio);
        let next = match pull {
            Pull::Floating => PortRegisters { pcr: r.pcr & !m, ..r },
            Pull::Up => PortRegisters { pcr: r.pcr | m, ..r },
            Pull::Down => PortRegisters { pcr: r.pcr & !m, podr: r.podr & !m, odr: r.odr | m, ..r },
        };
        gpio.ports.set(port, next);
    }
}

/// A pin that can be configured by an `Input` or `Output` driver, or
/// converted to an `AnyPin`.
pub trait Pin: Sized {
    /// The packed index `port * 16 + pin` of this pin.
    spec fn spec_index(&self) -> nat;

    /// The packed index of this pin.
    fn pin_port_num(&self) -> (r: u8)
        ensures
            r == self.spec_index(),
    ;

    /// Erases the pin's type, keeping its packed index.
    fn into_any(self) -> (r: AnyPin)
        ensures
            r.index() == self.spec_index(),
    ;

    /// The number of the pin within its port.
    fn pin(&self) -> (r: u8)
        ensures
            r == pin_of(self.spec_index()),
    {
        self.pin_port_num() % 16
    }
}

impl Pin for AnyPin {
    open spec fn spec_index(&self) -> nat {
        self.index()
    }

    fn pin_port_num(&self) -> (r: u8) {
        self.pin_port_num
    }

    fn into_any(self) -> (r: AnyPin) {
        self
    }
}

/// GPIO flexible pin: a pin with no fixed direction.
///
/// The output data bit stays as it was while the pin is not an output, so
/// the pin's level is remembered when it is made an output again.
pub struct Flex {
    pin: AnyPin,
}

impl Flex {
    /// The packed index of the pin.
    pub closed spec fn index(&self) -> nat {
        self.pin.index()
    }

    /// Takes ownership of a pin.
    pub fn new(pin: AnyPin) -> (r: Flex)
        ensures
            r.index() == pin.index(),
    {
        Flex { pin }
    }
}

/// GPIO output driver.
pub struct Output {
    pin: Flex,
}

impl Output {
    /// The packed index of the pin.
    pub closed spec fn index(&self) -> nat {
        self.pin.index()
    }

    /// The port number of the pin.
    pub open spec fn port(&self) -> nat {
        port_of(self.index())
    }

    /// The number of the pin within its port.
    pub open spec fn pin_number(&self) -> nat {
        pin_of(self.index())
    }

    /// The pin addresses an existing port.
    pub open spec fn wf(&self) -> bool {
        valid_index(self.index())
    }

    /// Makes `pin` an output, then drives it to `initial_output`. Only the
    /// pin's direction and output data bits change.
    pub fn new<P: Pin>(pin: P, initial_output: Level, gpio: &mut Gpio) -> (r: Output)
        requires
            valid_index(pin.spec_index()),
            old(gpio).wf(),
        ensures
            r.index() == pin.spec_index(),
            r.wf(),
            final(gpio)@ == with_port(
                old(gpio)@,
                r.port(),
                driven(made_output(old(gpio)@[r.port() as int], r.pin_number()), r.pin_number(), initial_output),
            ),
            final(gpio).wf(),
            set_high_bit(final(gpio)@[r.port() as int], r.pin_number()) == (initial_output == Level::High),
            bit(final(gpio)@[r.port() as int].pdr, r.pin_number()),
    {
        let out = Output { pin: Flex::new(pin.into_any()) };
        out.pin.pin.set_as_output(gpio);
        match initial_output {
            Level::High => out.set_high(gpio),
            Level::Low => out.set_low(gpio),
        }
        proof {
            lemma_made_output_bit(old(gpio)@[out.port() as int], out.pin_number());
            lemma_mask(out.pin_number());
            lemma_driven_bit(made_output(old(gpio)@[out.port() as int], out.pin_number()), out.pin_number());
        }
        out
    }

    /// Drives the pin high.
    pub fn set_high(&self, gpio: &mut Gpio)
        requires
            self.wf(),
            old(gpio).wf(),
        ensures
            final(gpio)@ == with_port(
                old(gpio)@,
                self.port(),
                driven_high(old(gpio)@[self.port() as int], self.pin_number()),
            ),
    {
        self.pin.pin.set_high(gpio);
    }

    /// Drives the pin low.
    pub fn set_low(&self, gpio: &mut Gpio)
        requires
            self.wf(),
            old(gpio).wf(),
        ensures
            final(gpio)@ == with_port(
                old(gpio)@,
                self.port(),
                driven_low(old(gpio)@[self.port() as int], self.pin_number()),
            ),
    {
        self.pin.pin.set_low(gpio);
    }

    /// Flips the driven level: drives the pin low if it is set high, and
    /// high otherwise.
    pub fn toggle(&mut self, gpio: &mut Gpio)
        requires
            old(self).wf(),
            old(gpio).wf(),
        ensures
            *final(self) == *old(self),
            final(gpio)@ == with_port(
                old(gpio)@,
                old(self).port(),
                toggled(old(gpio)@[old(self).port() as int], old(self).pin_number()),
            ),
            set_high_bit(final(gpio)@[old(self).port() as int], old(self).pin_number())
                == !set_high_bit(old(gpio)@[old(self).port() as int], old(self).pin_number()),
    {
        let ghost r = gpio@[self.port() as int];
        proof {
            lemma_mask(self.pin_number());
            lemma_toggle_drives(r, self.pin_number());
        }
        if self.is_set_high(gpio) {
            self.set_low(gpio);
        } else {
            self.set_high(gpio);
        }
    }

    /// Whether the pin is driven high.
    pub fn is_set_high(&self, gpio: &Gpio) -> (r: bool)
        requires
            self.wf(),
            gpio.wf(),
        ensures
            r == set_high_bit(gpio@[self.port() as int], self.pin_number()),
    {
        self.pin.pin.is_set_high(gpio)
    }

    /// Whether the pin is driven low; always the negation of `is_set_high`.
    pub fn is_set_low(&self, gpio: &Gpio) -> (r: bool)
        requires
            self.wf(),
            gpio.wf(),
        ensures
            r == !set_high_bit(gpio@[self.port() as int], self.pin_number()),
    {
        !self.is_set_high(gpio)
    }
}

/// GPIO input driver.
pub struct Input {
    pin: Flex,
    pull: Pull,
}

impl Input {
    /// The packed index of the pin.
    pub closed spec fn index(&self) -> nat {
        self.pin.index()
    }

    /// The pull configuration applied at construction.
    pub closed spec fn spec_pull(&self) -> Pull {
        self.pull
    }

    /// The port number of the pin.
    pub open spec fn port(&self) -> nat {
        port_of(self.index())
    }

    /// The number of the pin within its port.
    pub open spec fn pin_number(&self) -> nat {
        pin_of(self.index())
    }

    /// The pin addresses an existing port.
    pub open spec fn wf(&self) -> bool {
        valid_index(self.index())
    }

    /// Makes `pin` an input, then applies `pull`.
    pub fn new<P: Pin>(pin: P, pull: Pull, gpio: &mut Gpio) -> (r: Input)
        requires
            valid_index(pin.spec_index()),
            old(gpio).wf(),
        ensures
            r.index() == pin.spec_index(),
            r.spec_pull() == pull,
            r.wf(),
            final(gpio)@ == with_port(
                old(gpio)@,
                r.port(),
                pulled(made_input(old(gpio)@[r.port() as int], r.pin_number()), r.pin_number(), pull),
            ),
            final(gpio).wf(),
    {
        let input = Input { pin: Flex::new(pin.into_any()), pull };
        input.pin.pin.set_as_input(gpio);
        input.pin.pin.set_pull_mode(gpio, pull);
        input
    }

    /// The pull configuration applied at construction.
    pub fn pull(&self) -> (r: Pull)
        ensures
            r == self.spec_pull(),
    {
        self.pull
    }

    /// Whether the pin is high.
    pub fn is_high(&self, gpio: &Gpio) -> (r: bool)
        requires
            self.wf(),
            gpio.wf(),
        ensures
            r == level_high(gpio@[self.port() as int], self.pin_number()),
    {
        self.pin.pin.is_high(gpio)
    }

    /// Whether the pin is low; always the negation of `is_high`.
    pub fn is_low(&self, gpio: &Gpio) -> (r: bool)
        requires
            self.wf(),
            gpio.wf(),
        ensures
            r == !level_high(gpio@[self.port() as int], self.pin_number()),
    {
        !self.is_high(gpio)
    }
}

/// The mask of a pin in its port has exactly one bit set.
proof fn lemma_mask(pin: nat)
    requires
        pin < 16,
    ensures
        mask(pin) != 0,
{
    let p = pin as u16;
    assert(p < 16 ==> (1u16 << p) != 0) by (bit_vector);
}

/// Driving a pin high or low sets or clears its output data bit and leaves
/// its direction alone.
proof fn lemma_driven_bit(r: PortRegisters, pin: nat)
    requires
        pin < 16,
    ensures
        set_high_bit(driven_high(r, pin), pin),
        !set_high_bit(driven_low(r, pin), pin),
        driven_high(r, pin).pdr == r.pdr,
        driven_low(r, pin).pdr == r.pdr,
{
    let p = pin as u16;
    let v = r.podr;
    assert(p < 16 ==> ((v | (1u16 << p)) & (1u16 << p)) != 0) by (bit_vector);
    assert(p < 16 ==> ((v & !(1u16 << p)) & (1u16 << p)) == 0) by (bit_vector);
}

/// Making a pin an output sets its direction bit.
proof fn lemma_made_output_bit(r: PortRegisters, pin: nat)
    requires
        pin < 16,
    ensures
        bit(made_output(r, pin).pdr, pin),
{
    let p = pin as u16;
    let v = r.pdr;
    assert(p < 16 ==> ((v | (1u16 << p)) & (1u16 << p)) != 0) by (bit_vector);
}

/// Flipping a set bit is clearing it, and flipping a clear bit is setting it.
proof fn lemma_toggle_drives(r: PortRegisters, pin: nat)
    requires
        pin < 16,
    ensures
        set_high_bit(r, pin) ==> toggled(r, pin) == driven_low(r, pin),
        !set_high_bit(r, pin) ==> toggled(r, pin) == driven_high(r, pin),
        set_high_bit(toggled(r, pin), pin) == !set_high_bit(r, pin),
{
    let p = pin as u16;
    let v = r.podr;
    assert(p < 16 ==> ((v & (1u16 << p)) != 0 ==> (v ^ (1u16 << p)) == (v & !(1u16 << p))))
        by (bit_vector);
    assert(p < 16 ==> ((v & (1u16 << p)) == 0 ==> (v ^ (1u16 << p)) == (v | (1u16 << p))))
        by (bit_vector);
    assert(p < 16 ==> (((v ^ (1u16 << p)) & (1u16 << p)) != 0) == ((v & (1u16 << p)) == 0))
        by (bit_vector);
}

/// Toggling a pin twice gives back the register state it started from.
pub proof fn lemma_toggle_twice(g: Seq<PortRegisters>, index: nat)
    requires
        g.len() == PORT_COUNT,
        valid_index(index),
    ensures
        ({
            let port = port_of(index);
            let pin = pin_of(index);
            let once = with_port(g, port, toggled(g[port as int], pin));
            with_port(once, port, toggled(once[port as int], pin)) == g
        }),
{
    let port = port_of(index);
    let pin = pin_of(index);
    let p = pin as u16;
    let v = g[port as int].podr;
    assert(p < 16 ==> ((v ^ (1u16 << p)) ^ (1u16 << p)) == v) by (bit_vector);
    let once = with_port(g, port, toggled(g[port as int], pin));
    assert(with_port(once, port, toggled(once[port as int], pin)) =~= g);
}

} // verus!
