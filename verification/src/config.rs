//! Abstractions used to configure the MAX7301 hardware.

use vstd::prelude::*;

use crate::expander::Expander;
use crate::interface::BusOp;
use crate::interface::ExpanderInterface;

verus! {

/// A `PortMode` enumerates the three supported modes that each GPIO pin on
/// the MAX7301 may be configured to.
#[derive(Clone, Copy, Debug)]
pub enum PortMode {
    /// Push-pull logic output.
    Output,
    /// Floating logic input.
    InputFloating,
    /// Logic input with weak pull-up.
    InputPullup,
}

impl PortMode {
    /// The two-bit field value the device uses for this mode. The fourth
    /// encoding, `0b00`, is reserved by the device and never emitted; the
    /// builder repurposes it as a "pin not touched" sentinel.
    pub open spec fn spec_bits(self) -> u8 {
        match self {
            PortMode::Output => 0b01,
            PortMode::InputFloating => 0b10,
            PortMode::InputPullup => 0b11,
        }
    }
}

impl From<PortMode> for u8 {
    fn from(cfg: PortMode) -> (r: u8) {
        match cfg {
            PortMode::Output => 0b01,
            PortMode::InputFloating => 0b10,
            PortMode::InputPullup => 0b11,
        }
    }
}

impl vstd::std_specs::convert::FromSpecImpl<PortMode> for u8 {
    open spec fn obeys_from_spec() -> bool {
        true
    }

    open spec fn from_spec(cfg: PortMode) -> u8 {
        cfg.spec_bits()
    }
}

/// The recorded modes of one bank of 4 consecutive ports, two bits per pin at
/// offsets 0, 2, 4 and 6 in ascending pin order. A two-bit field that is zero
/// marks that pin as not addressed by the builder.
#[derive(Clone, Copy, Debug)]
pub struct BankConfig(pub u8);

/// How a bank's register must be transferred to the device: not at all, by a
/// blind write, or by a read-modify-write.
#[derive(Clone, Copy, Debug, PartialEq, Eq, Structural)]
pub enum BankConfigStatus {
    /// No pin of the bank was touched; no bus traffic is needed.
    Unchanged,
    /// Some but not all pins were touched; the register must be read, merged
    /// and written back.
    ReadModify,
    /// All four pins were touched; one blind write suffices.
    Overwrite,
}

/// The mask of two-bit fields of `v` that are still zero, i.e. the bits of the
/// current register value that a merge must preserve.
pub open spec fn spec_keep_mask(v: u8) -> u8 {
    (if v & 0x03 == 0 {
        0x03u8
    } else {
        0u8
    }) | (if v & 0x0C == 0 {
        0x0Cu8
    } else {
        0u8
    }) | (if v & 0x30 == 0 {
        0x30u8
    } else {
        0u8
    }) | (if v & 0xC0 == 0 {
        0xC0u8
    } else {
        0u8
    })
}

/// The value a read-modify-write stores: bits of `current` survive exactly
/// over the untouched two-bit fields, and the recorded mode bits cover the
/// rest.
pub open spec fn spec_merge(v: u8, current: u8) -> u8 {
    (current & spec_keep_mask(v)) | v
}

/// The classification `status` derives from the keep mask.
pub open spec fn spec_status(v: u8) -> BankConfigStatus {
    if spec_keep_mask(v) == 0xFF {
        BankConfigStatus::Unchanged
    } else if spec_keep_mask(v) == 0x00 {
        BankConfigStatus::Overwrite
    } else {
        BankConfigStatus::ReadModify
    }
}

impl Default for BankConfig {
    /// A fresh bank with every pin marked untouched.
    fn default() -> (r: Self)
        ensures
            r.0 == 0,
    {
        Self(0)
    }
}

impl BankConfig {
    /// Record `cfg` as the mode of the pin at `port_offset` within this bank.
    pub fn set_port(&mut self, port_offset: u8, cfg: PortMode)
        requires
            port_offset < 4,
        ensures
            final(self).0 == (old(self).0 & !(0x03u8 << (2 * port_offset))) | (cfg.spec_bits() << (
            2 * port_offset)),
    {
        let mask = !(0b11u8 << (port_offset * 2));
        let cfg_bits = u8::from(cfg) << (port_offset * 2);
        self.0 = self.0 & mask | cfg_bits;
    }

    /// The mask of register bits a merge keeps from the device.
    pub fn keep_mask(&self) -> (m: u8)
        ensures
            m == spec_keep_mask(self.0),
    {
        (if self.0 & 0x03 == 0 {
            0x03u8
        } else {
            0u8
        }) | (if self.0 & 0x0C == 0 {
            0x0Cu8
        } else {
            0u8
        }) | (if self.0 & 0x30 == 0 {
            0x30u8
        } else {
            0u8
        }) | (if self.0 & 0xC0 == 0 {
            0xC0u8
        } else {
            0u8
        })
    }

    /// Classify this bank by how it must reach the device.
    pub fn status(&self) -> (s: BankConfigStatus)
        ensures
            s == spec_status(self.0),
    {
        match self.keep_mask() {
            0xFF => BankConfigStatus::Unchanged,
            0x00 => BankConfigStatus::Overwrite,
            _ => BankConfigStatus::ReadModify,
        }
    }

    /// Merge the recorded modes over the register value the device currently
    /// holds.
    pub fn merge(&self, current: u8) -> (r: Self)
        ensures
            r.0 == spec_merge(self.0, current),
    {
        Self(current & self.keep_mask() | self.0)
    }
}

impl From<BankConfig> for u8 {
    fn from(cfg: BankConfig) -> (r: u8) {
        cfg.0
    }
}

impl vstd::std_specs::convert::FromSpecImpl<BankConfig> for u8 {
    open spec fn obeys_from_spec() -> bool {
        true
    }

    open spec fn from_spec(cfg: BankConfig) -> u8 {
        cfg.0
    }
}

/// The device's global configuration bits that this driver manages.
#[derive(Clone, Copy, Debug, PartialEq, Eq, Structural)]
pub struct ExpanderConfig {
    /// When `true` the device is in shutdown mode, every port forced to input
    /// and pull-ups disabled. This matches the device's state after reset.
    pub shutdown: bool,
    /// When `true` ports 24 through 31 are monitored for transitions.
    pub transition_detect: bool,
}

/// The configuration register byte: bit 0 is set for normal operation (i.e.
/// shutdown disabled) and bit 7 enables transition detection.
pub open spec fn spec_config_byte(c: ExpanderConfig) -> u8 {
    (if c.shutdown {
        0u8
    } else {
        0x01u8
    }) | (if c.transition_detect {
        0x80u8
    } else {
        0u8
    })
}

impl Default for ExpanderConfig {
    /// The device's post-reset state: shutdown enabled, transition detection
    /// disabled.
    fn default() -> (r: Self)
        ensures
            r.shutdown == true,
            r.transition_detect == false,
    {
        Self { shutdown: true, transition_detect: false }
    }
}

impl From<ExpanderConfig> for u8 {
    fn from(cfg: ExpanderConfig) -> (r: u8) {
        let shtd = if cfg.shutdown {
            0u8
        } else {
            0b00000001u8
        };
        let txnd = if cfg.transition_detect {
            0b10000000u8
        } else {
            0u8
        };
        shtd | txnd
    }
}

impl vstd::std_specs::convert::FromSpecImpl<ExpanderConfig> for u8 {
    open spec fn obeys_from_spec() -> bool {
        true
    }

    open spec fn from_spec(cfg: ExpanderConfig) -> u8 {
        spec_config_byte(cfg)
    }
}

/// The bank array after recording `mode` for one pin: the pin's two-bit
/// field in its bank is overwritten with the mode's encoding.
pub open spec fn spec_set_port(banks: Seq<BankConfig>, port: u8, mode: PortMode) -> Seq<
    BankConfig,
> {
    let b = port / 4 - 1;
    let o = port % 4;
    banks.update(
        b as int,
        BankConfig((banks[b as int].0 & !(0x03u8 << (2 * o))) | (mode.spec_bits() << (2 * o))),
    )
}

/// The bank array after recording `mode` for each listed pin in order.
pub open spec fn spec_set_ports(banks: Seq<BankConfig>, ports: Seq<u8>, mode: PortMode) -> Seq<
    BankConfig,
>
    decreases ports.len(),
{
    if ports.len() == 0 {
        banks
    } else {
        spec_set_port(spec_set_ports(banks, ports.drop_last(), mode), ports.last(), mode)
    }
}

/// The device address of the configuration register of bank `b`.
pub open spec fn bank_addr(b: int) -> u8 {
    (0x09 + b) as u8
}

/// The value a bank's register holds after commit, given the value `current`
/// it held before: untouched banks keep it, fully-touched banks are
/// overwritten, and partially-touched banks hold the merge.
pub open spec fn spec_bank_result(cfg: BankConfig, current: u8) -> u8 {
    match spec_status(cfg.0) {
        BankConfigStatus::Unchanged => current,
        BankConfigStatus::Overwrite => cfg.0,
        BankConfigStatus::ReadModify => spec_merge(cfg.0, current),
    }
}

/// The bus transactions commit issues for bank `b`, given the value `current`
/// its register held: none, one blind write, or a read followed by the merged
/// write.
pub open spec fn spec_bank_ops(b: int, cfg: BankConfig, current: u8) -> Seq<BusOp> {
    match spec_status(cfg.0) {
        BankConfigStatus::Unchanged => Seq::empty(),
        BankConfigStatus::Overwrite => seq![BusOp::Write { addr: bank_addr(b), value: cfg.0 }],
        BankConfigStatus::ReadModify => seq![
            BusOp::Read { addr: bank_addr(b) },
            BusOp::Write { addr: bank_addr(b), value: spec_merge(cfg.0, current) },
        ],
    }
}

/// The bus transactions commit issues for banks 0 through `n - 1`, in
/// ascending bank order, against the pre-commit register map `regs`.
pub open spec fn spec_commit_ops(banks: Seq<BankConfig>, regs: Map<u8, u8>, n: int) -> Seq<BusOp>
    decreases n,
{
    if n <= 0 {
        Seq::empty()
    } else {
        spec_commit_ops(banks, regs, n - 1) + spec_bank_ops(n - 1, banks[n - 1], regs[bank_addr(n - 1)])
    }
}

/// A `Configurator` accumulates a set of device configuration changes — port
/// modes and global configuration bits — and commits them to the device in as
/// few bus transactions as the recorded changes allow. One is obtained from
/// `Expander::configure`, mutated by chaining calls, and finished with
/// `commit`.
#[must_use]
pub struct Configurator<'e, EI: ExpanderInterface> {
    /// The expander being configured, borrowed exclusively for the build.
    pub expander: &'e mut Expander<EI>,
    /// Whether a global configuration bit was changed and the configuration
    /// register must be written on commit.
    pub expander_config_dirty: bool,
    /// The recorded modes of banks 0 through 6, covering ports 4 through 31.
    pub banks: [BankConfig; 7],
}

impl<'e, EI: ExpanderInterface> Configurator<'e, EI> {
    pub(crate) fn new(expander: &'e mut Expander<EI>) -> (c: Self)
        ensures
            *c.expander == *old(expander),
            *final(expander) == *final(c.expander),
            c.expander_config_dirty == false,
            forall|b: int| 0 <= b < 7 ==> c.banks[b].0 == 0,
    {
        Self { expander, expander_config_dirty: false, banks: [BankConfig(0); 7] }
    }

    /// Set the port mode of a single GPIO pin on the MAX7301 to `mode`.
    /// `port` is the port number as given in the device datasheet, in the
    /// range 4 through 31. A later call for the same pin overrides an earlier
    /// one.
    pub fn port(self, port: u8, mode: PortMode) -> (r: Self)
        requires
            4 <= port <= 31,
        ensures
            r.banks@ == spec_set_port(self.banks@, port, mode),
            r.expander_config_dirty == self.expander_config_dirty,
            *r.expander == *old(self.expander),
            *final(self.expander) == *final(r.expander),
    {
        let mut this = self;
        let (bank, offset) = port_bank_and_offset(port);
        let mut bc = this.banks[bank as usize];
        bc.set_port(offset, mode);
        this.banks[bank as usize] = bc;
        this
    }

    /// Set the port mode of every listed GPIO pin to `mode`. Each entry must
    /// be a port number in the range 4 through 31; pins are recorded in list
    /// order, so this is the same as calling `port` once per entry.
    pub fn ports(self, ports: &[u8], mode: PortMode) -> (r: Self)
        requires
            forall|i: int| 0 <= i < ports@.len() ==> 4 <= #[trigger] ports@[i] <= 31,
        ensures
            r.banks@ == spec_set_ports(self.banks@, ports@, mode),
            r.expander_config_dirty == self.expander_config_dirty,
            *r.expander == *old(self.expander),
            *final(self.expander) == *final(r.expander),
    {
        let ghost banks0 = self.banks@;
        let mut banks = self.banks;
        let mut i: usize = 0;
        while i < ports.len()
            invariant
                i <= ports@.len(),
                forall|j: int| 0 <= j < ports@.len() ==> 4 <= #[trigger] ports@[j] <= 31,
                banks@.len() == 7,
                banks@ == spec_set_ports(banks0, ports@.take(i as int), mode),
            decreases ports@.len() - i,
        {
            let port = ports[i];
            let (bank, offset) = port_bank_and_offset(port);
            let mut bc = banks[bank as usize];
            bc.set_port(offset, mode);
            banks[bank as usize] = bc;
            proof {
                assert(ports@.take(i + 1).drop_last() =~= ports@.take(i as int));
                assert(ports@.take(i + 1).last() == ports@[i as int]);
            }
            i = i + 1;
        }
        proof {
            assert(ports@.take(ports@.len() as int) =~= ports@);
        }
        let mut this = self;
        this.banks = banks;
        this
    }

    /// Set the MAX7301's shutdown bit. When `true` the device enters shutdown
    /// mode: every port is forced to input mode and pull-up current sources
    /// are disabled, while all registers keep their values and stay
    /// accessible. When `false` the device operates normally.
    pub fn shutdown(self, enable: bool) -> (r: Self)
        ensures
            r.banks == self.banks,
            r.expander_config_dirty == true,
            *r.expander == (Expander {
                iface: old(self.expander).iface,
                config: ExpanderConfig {
                    shutdown: enable,
                    transition_detect: old(self.expander).config.transition_detect,
                },
            }),
            *final(self.expander) == *final(r.expander),
    {
        let mut this = self;
        this.expander.config.shutdown = enable;
        this.expander_config_dirty = true;
        this
    }

    /// Set the MAX7301's transition detection control bit. When `true` ports
    /// 24 through 31 are monitored for changes, raising the interrupt pin
    /// when one is seen. Interrupts from this feature are not managed by this
    /// driver.
    pub fn detect_transitions(self, enable: bool) -> (r: Self)
        ensures
            r.banks == self.banks,
            r.expander_config_dirty == true,
            *r.expander == (Expander {
                iface: old(self.expander).iface,
                config: ExpanderConfig {
                    shutdown: old(self.expander).config.shutdown,
                    transition_detect: enable,
                },
            }),
            *final(self.expander) == *final(r.expander),
    {
        let mut this = self;
        this.expander.config.transition_detect = enable;
        this.expander_config_dirty = true;
        this
    }

    /// Commit the recorded changes to the MAX7301, minimizing bus traffic:
    /// untouched banks cost nothing, fully-specified banks are blindly
    /// written, partially-specified banks are read, merged and written, in
    /// ascending bank order; the global configuration register is written
    /// last and only if a global bit was changed.
    #[verifier::loop_isolation(false)]
    pub fn commit(self) -> (r: Result<(), EI::Error>)
        ensures
            r is Ok ==> ({
                let st0 = old(self.expander).iface.state();
                let stf = final(self.expander).iface.state();
                &&& stf.pins == st0.pins
                &&& forall|b: int|
                    0 <= b < 7 ==> stf.regs[#[trigger] bank_addr(b)] == spec_bank_result(
                        self.banks@[b],
                        st0.regs[bank_addr(b)],
                    )
                &&& (self.expander_config_dirty ==> stf.regs[0x04] == spec_config_byte(
                    old(self.expander).config,
                ))
                &&& (!self.expander_config_dirty ==> stf.regs[0x04] == st0.regs[0x04])
                &&& forall|a: u8|
                    !(0x09 <= a <= 0x0F) && a != 0x04 ==> stf.regs[a] == st0.regs[a]
                &&& final(self.expander).iface.ops() == old(self.expander).iface.ops()
                    + spec_commit_ops(self.banks@, st0.regs, 7) + (
                if self.expander_config_dirty {
                    seq![
                        BusOp::Write {
                            addr: 0x04u8,
                            value: spec_config_byte(old(self.expander).config),
                        },
                    ]
                } else {
                    Seq::<BusOp>::empty()
                })
            }),
            final(self.expander).config == old(self.expander).config,
            ((forall|b: int|
                0 <= b < 7 ==> #[trigger] spec_status(self.banks@[b].0)
                    == BankConfigStatus::Unchanged) && !self.expander_config_dirty) ==> r is Ok,
    {
        let Configurator { expander, expander_config_dirty, banks } = self;
        let ghost st0 = expander.iface.state();
        let ghost ops0 = expander.iface.ops();
        let ghost cfg0 = expander.config;
        let mut bank: u8 = 0;
        while bank < 7
            invariant
                bank <= 7,
                expander.iface.state().pins == st0.pins,
                forall|b: int|
                    bank <= b < 7 ==> expander.iface.state().regs[#[trigger] bank_addr(b)]
                        == st0.regs[bank_addr(b)],
                forall|b: int|
                    0 <= b < bank ==> expander.iface.state().regs[#[trigger] bank_addr(b)]
                        == spec_bank_result(banks@[b], st0.regs[bank_addr(b)]),
                forall|a: u8|
                    !(0x09 <= a <= 0x0F) ==> expander.iface.state().regs[a] == st0.regs[a],
                expander.iface.ops() == ops0 + spec_commit_ops(banks@, st0.regs, bank as int),
                expander.config == cfg0,
            decreases 7 - bank,
        {
            let bc = banks[bank as usize];
            match bc.status() {
                BankConfigStatus::Unchanged => {},
                BankConfigStatus::Overwrite => {
                    proof {
                        assert(spec_status(banks@[bank as int].0) == BankConfigStatus::Overwrite);
                    }
                    expander.write_bank_config(bank, bc)?;
                },
                BankConfigStatus::ReadModify => {
                    proof {
                        assert(spec_status(banks@[bank as int].0) == BankConfigStatus::ReadModify);
                    }
                    expander.read_modify_bank_config(bank, bc)?;
                },
            }
            proof {
                assert(expander.iface.ops() =~= ops0 + spec_commit_ops(
                    banks@,
                    st0.regs,
                    bank + 1 as int,
                ));
            }
            bank = bank + 1;
        }
        if expander_config_dirty {
            let cfg = expander.config;
            let r = expander.write_config(cfg);
            proof {
                if r is Ok {
                    assert(expander.iface.ops() =~= ops0 + spec_commit_ops(banks@, st0.regs, 7)
                        + seq![BusOp::Write { addr: 0x04u8, value: spec_config_byte(cfg0) }]);
                }
            }
            r
        } else {
            proof {
                assert(expander.iface.ops() =~= ops0 + spec_commit_ops(banks@, st0.regs, 7)
                    + Seq::<BusOp>::empty());
            }
            Ok(())
        }
    }
}

/// The two-bit field of `v` that stands for the pin at offset `j` of a bank.
pub open spec fn spec_field(v: u8, j: int) -> u8 {
    v & (0x03u8 << (2 * j))
}

/// For any bank record `v` and any current register value: the merged byte
/// agrees with the current value on every two-bit field the record leaves
/// zero, and carries the recorded bits on every other field.
pub proof fn lemma_merge_fields(v: u8, current: u8)
    ensures
        forall|j: int|
            0 <= j < 4 && spec_field(v, j) == 0 ==> #[trigger] spec_field(
                spec_merge(v, current),
                j,
            ) == spec_field(current, j),
        forall|j: int|
            0 <= j < 4 && spec_field(v, j) != 0 ==> #[trigger] spec_field(
                spec_merge(v, current),
                j,
            ) == spec_field(v, j),
{
    let k = spec_keep_mask(v);
    let m = spec_merge(v, current);
    assert forall|j: int| 0 <= j < 4 implies ((spec_field(v, j) == 0 ==> #[trigger] spec_field(
        m,
        j,
    ) == spec_field(current, j)) && (spec_field(v, j) != 0 ==> spec_field(m, j) == spec_field(
        v,
        j,
    ))) by {
        let ju = j as u8;
        assert((ju < 4 && k == ((if v & 0x03 == 0 {
            0x03u8
        } else {
            0u8
        }) | (if v & 0x0C == 0 {
            0x0Cu8
        } else {
            0u8
        }) | (if v & 0x30 == 0 {
            0x30u8
        } else {
            0u8
        }) | (if v & 0xC0 == 0 {
            0xC0u8
        } else {
            0u8
        }))) ==> (((v & (0x03u8 << (2 * ju)) == 0) ==> ((current & k | v) & (0x03u8 << (2 * ju))
            == current & (0x03u8 << (2 * ju)))) && ((v & (0x03u8 << (2 * ju)) != 0) ==> ((current
            & k | v) & (0x03u8 << (2 * ju)) == v & (0x03u8 << (2 * ju)))))) by (bit_vector);
        assert(0x03u8 << (2 * ju) == 0x03u8 << (2 * j));
    }
}

/// A bank's classification, read off its four fields: it is Unchanged
/// exactly when no field was touched, Overwrite exactly when all four were,
/// and ReadModify in every other case.
pub proof fn lemma_status_by_fields(v: u8)
    ensures
        (spec_status(v) == BankConfigStatus::Unchanged) == (forall|j: int|
            0 <= j < 4 ==> #[trigger] spec_field(v, j) == 0),
        (spec_status(v) == BankConfigStatus::Overwrite) == (forall|j: int|
            0 <= j < 4 ==> #[trigger] spec_field(v, j) != 0),
{
    let k = spec_keep_mask(v);
    assert((k == ((if v & 0x03 == 0 {
        0x03u8
    } else {
        0u8
    }) | (if v & 0x0C == 0 {
        0x0Cu8
    } else {
        0u8
    }) | (if v & 0x30 == 0 {
        0x30u8
    } else {
        0u8
    }) | (if v & 0xC0 == 0 {
        0xC0u8
    } else {
        0u8
    }))) ==> (((k == 0xFF) == (v & 0x03 == 0 && v & 0x0C == 0 && v & 0x30 == 0 && v & 0xC0 == 0))
        && ((k == 0x00) == (v & 0x03 != 0 && v & 0x0C != 0 && v & 0x30 != 0 && v & 0xC0
        != 0)))) by (bit_vector);
    assert(spec_field(v, 0) == v & 0x03 && spec_field(v, 1) == v & 0x0C && spec_field(v, 2) == v
        & 0x30 && spec_field(v, 3) == v & 0xC0) by {
        assert(0x03u8 << 0 == 0x03u8 && 0x03u8 << 2 == 0x0Cu8 && 0x03u8 << 4 == 0x30u8 && 0x03u8
            << 6 == 0xC0u8) by (bit_vector);
    }
    if forall|j: int| 0 <= j < 4 ==> #[trigger] spec_field(v, j) == 0 {
        assert(spec_field(v, 0) == 0 && spec_field(v, 1) == 0 && spec_field(v, 2) == 0
            && spec_field(v, 3) == 0);
    }
    if forall|j: int| 0 <= j < 4 ==> #[trigger] spec_field(v, j) != 0 {
        assert(spec_field(v, 0) != 0 && spec_field(v, 1) != 0 && spec_field(v, 2) != 0
            && spec_field(v, 3) != 0);
    }
}

/// Recording one port touches exactly one field of one bank: the field of
/// that port takes the mode's non-zero encoding, every other field of every
/// bank is left alone.
proof fn lemma_set_port_fields(banks: Seq<BankConfig>, port: u8, mode: PortMode, b: int, j: int)
    requires
        banks.len() == 7,
        4 <= port <= 31,
        0 <= b < 7,
        0 <= j < 4,
    ensures
        spec_set_port(banks, port, mode).len() == 7,
        port == 4 * b + 4 + j ==> spec_field(spec_set_port(banks, port, mode)[b].0, j) != 0,
        port != 4 * b + 4 + j ==> spec_field(spec_set_port(banks, port, mode)[b].0, j)
            == spec_field(banks[b].0, j),
{
    let pb = port / 4 - 1;
    let po = port % 4;
    let x = banks[pb as int].0;
    let m = mode.spec_bits();
    let new = (x & !(0x03u8 << (2 * po))) | (m << (2 * po));
    if pb == b {
        let ou = po as u8;
        let ju = j as u8;
        assert((ou < 4 && ju < 4 && (m == 1 || m == 2 || m == 3)) ==> ((ou == ju ==> ((x & !(
        0x03u8 << (2 * ou)) | (m << (2 * ou))) & (0x03u8 << (2 * ju)) != 0)) && (ou != ju ==> ((x
            & !(0x03u8 << (2 * ou)) | (m << (2 * ou))) & (0x03u8 << (2 * ju)) == x & (0x03u8 << (2
            * ju)))))) by (bit_vector);
        assert(port == 4 * b + 4 + j <==> po == j);
    } else {
        assert(port != 4 * b + 4 + j);
    }
}

/// After recording a list of ports on top of `banks`, a field is touched
/// exactly when it was touched before or its port appears in the list.
proof fn lemma_set_ports_touched(
    banks: Seq<BankConfig>,
    ports: Seq<u8>,
    mode: PortMode,
    b: int,
    j: int,
)
    requires
        banks.len() == 7,
        forall|i: int| 0 <= i < ports.len() ==> 4 <= #[trigger] ports[i] <= 31,
        0 <= b < 7,
        0 <= j < 4,
    ensures
        spec_set_ports(banks, ports, mode).len() == 7,
        spec_field(spec_set_ports(banks, ports, mode)[b].0, j) != 0 <==> (spec_field(banks[b].0, j)
            != 0 || ports.contains((4 * b + 4 + j) as u8)),
    decreases ports.len(),
{
    let c = (4 * b + 4 + j) as u8;
    if ports.len() == 0 {
        assert(!ports.contains(c));
    } else {
        let inner = spec_set_ports(banks, ports.drop_last(), mode);
        lemma_set_ports_touched(banks, ports.drop_last(), mode, b, j);
        lemma_set_port_fields(inner, ports.last(), mode, b, j);
        assert(ports.contains(c) <==> (ports.drop_last().contains(c) || ports.last() == c)) by {
            if ports.contains(c) {
                let i = choose|i: int| 0 <= i < ports.len() && ports[i] == c;
                if i < ports.len() - 1 {
                    assert(ports.drop_last()[i] == c);
                }
            }
            if ports.drop_last().contains(c) {
                let i = choose|i: int|
                    0 <= i < ports.drop_last().len() && ports.drop_last()[i] == c;
                assert(ports[i] == c);
            }
        }
    }
}

/// For any list of valid ports recorded on a fresh builder and any bank: the
/// bank stays Unchanged exactly when none of its four pins is listed, it is
/// Overwritten exactly when all four are, and it takes a ReadModify in every
/// other case. Together with `commit`'s contract this fixes exactly which
/// bus transactions a commit issues, in ascending bank order.
pub proof fn lemma_bank_classification(
    banks: Seq<BankConfig>,
    ports: Seq<u8>,
    mode: PortMode,
    b: int,
)
    requires
        banks.len() == 7,
        forall|i: int| 0 <= i < 7 ==> #[trigger] banks[i].0 == 0,
        forall|i: int| 0 <= i < ports.len() ==> 4 <= #[trigger] ports[i] <= 31,
        0 <= b < 7,
    ensures
        (spec_status(spec_set_ports(banks, ports, mode)[b].0) == BankConfigStatus::Unchanged) == (
        forall|j: int| 0 <= j < 4 ==> !ports.contains(#[trigger] ((4 * b + 4 + j) as u8))),
        (spec_status(spec_set_ports(banks, ports, mode)[b].0) == BankConfigStatus::Overwrite) == (
        forall|j: int| 0 <= j < 4 ==> ports.contains(#[trigger] ((4 * b + 4 + j) as u8))),
{
    lemma_set_ports_touched(banks, ports, mode, b, 0);
    let v = spec_set_ports(banks, ports, mode)[b].0;
    assert forall|j: int| 0 <= j < 4 implies (#[trigger] spec_field(v, j) != 0 <==> ports.contains(
        ((4 * b + 4 + j) as u8),
    )) by {
        lemma_set_ports_touched(banks, ports, mode, b, j);
        let ju = j as u8;
        assert((0u8 & (0x03u8 << (2 * ju))) == 0) by (bit_vector);
        assert(spec_field(banks[b].0, j) == 0);
    }
    lemma_status_by_fields(v);
    if spec_status(v) == BankConfigStatus::Unchanged {
        assert forall|j: int| 0 <= j < 4 implies !ports.contains(
            #[trigger] ((4 * b + 4 + j) as u8),
        ) by {
            assert(spec_field(v, j) == 0);
        }
    } else {
        assert(exists|j: int| 0 <= j < 4 && #[trigger] spec_field(v, j) != 0);
        let j0 = choose|j: int| 0 <= j < 4 && #[trigger] spec_field(v, j) != 0;
        assert(ports.contains(((4 * b + 4 + j0) as u8)));
        assert(!(forall|j: int| 0 <= j < 4 ==> !ports.contains(#[trigger] ((4 * b + 4 + j) as u8))));
    }
    if spec_status(v) == BankConfigStatus::Overwrite {
        assert forall|j: int| 0 <= j < 4 implies ports.contains(
            #[trigger] ((4 * b + 4 + j) as u8),
        ) by {
            assert(spec_field(v, j) != 0);
        }
    } else {
        assert(exists|j: int| 0 <= j < 4 && #[trigger] spec_field(v, j) == 0);
        let j0 = choose|j: int| 0 <= j < 4 && #[trigger] spec_field(v, j) == 0;
        assert(!ports.contains(((4 * b + 4 + j0) as u8)));
        assert(!(forall|j: int| 0 <= j < 4 ==> ports.contains(#[trigger] ((4 * b + 4 + j) as u8))));
    }
}

/// Split a port number into the bank that holds it and the pin's offset
/// within that bank. Banks 0 through 6 cover ports 4 through 31.
pub fn port_bank_and_offset(port: u8) -> (r: (u8, u8))
    requires
        4 <= port <= 31,
    ensures
        r.0 == port / 4 - 1,
        r.1 == port % 4,
        r.0 < 7,
        r.1 < 4,
{
    (crate::registers::valid_port(port) / 4 - 1, port % 4)
}

} // verus!
