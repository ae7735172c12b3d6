//! The UARTE transmitter as the transport sees it: the baud-rate register
//! encoding, and an in-memory model of the register file — configuration
//! registers, the start-transmit task, the started/ended events, and the
//! byte tape a probe would observe on the wire.

use vstd::prelude::*;

verus! {

/// The value the enable register holds when the UARTE peripheral is on.
pub const ENABLE_UARTE: u32 = 8;

/// Does the baud-rate table cover nominal rate `rate`?
pub open spec fn spec_baud_rate_supported(rate: u32) -> bool {
    ||| rate == 1_200
    ||| rate == 2_400
    ||| rate == 4_800
    ||| rate == 9_600
    ||| rate == 14_400
    ||| rate == 19_200
    ||| rate == 28_800
    ||| rate == 31_250
    ||| rate == 38_400
    ||| rate == 56_000
    ||| rate == 57_600
    ||| rate == 76_800
    ||| rate == 115_200
    ||| rate == 230_400
    ||| rate == 250_000
    ||| rate == 460_800
    ||| rate == 921_600
    ||| rate == 1_000_000
}

/// The register encoding of a supported nominal rate.
pub open spec fn spec_baud_rate(rate: u32) -> u32 {
    if rate == 1_200 {
        0x0004_F000
    } else if rate == 2_400 {
        0x0009_D000
    } else if rate == 4_800 {
        0x0013_B000
    } else if rate == 9_600 {
        0x0027_5000
    } else if rate == 14_400 {
        0x003A_F000
    } else if rate == 19_200 {
        0x004E_A000
    } else if rate == 28_800 {
        0x0075_C000
    } else if rate == 31_250 {
        0x0080_0000
    } else if rate == 38_400 {
        0x009D_0000
    } else if rate == 56_000 {
        0x00E5_0000
    } else if rate == 57_600 {
        0x00EB_0000
    } else if rate == 76_800 {
        0x013A_9000
    } else if rate == 115_200 {
        0x01D6_0000
    } else if rate == 230_400 {
        0x03B0_0000
    } else if rate == 250_000 {
        0x0400_0000
    } else if rate == 460_800 {
        0x0740_0000
    } else if rate == 921_600 {
        0x0F00_0000
    } else if rate == 1_000_000 {
        0x1000_0000
    } else {
        0
    }
}

/// Reports whether the baud-rate table covers nominal rate `rate`, so that a
/// configuration front end can reject an unsupported rate before it reaches
/// [`baud_rate`].
pub fn baud_rate_supported(rate: u32) -> (r: bool)
    ensures
        r == spec_baud_rate_supported(rate),
{
    match rate {
        1_200 | 2_400 | 4_800 | 9_600 | 14_400 | 19_200 | 28_800 | 31_250 | 38_400 | 56_000
            | 57_600 | 76_800 | 115_200 | 230_400 | 250_000 | 460_800 | 921_600 | 1_000_000 => {
            true
        },
        _ => false,
    }
}

/// Looks the register encoding of a nominal baud rate up in the fixed table
/// of eighteen supported standard rates. An unsupported rate is a
/// configuration error, never a runtime condition, so it is excluded here.
pub fn baud_rate(rate: u32) -> (r: u32)
    requires
        spec_baud_rate_supported(rate),
    ensures
        r == spec_baud_rate(rate),
{
    match rate {
        1_200 => 0x0004_F000,
        2_400 => 0x0009_D000,
        4_800 => 0x0013_B000,
        9_600 => 0x0027_5000,
        14_400 => 0x003A_F000,
        19_200 => 0x004E_A000,
        28_800 => 0x0075_C000,
        31_250 => 0x0080_0000,
        38_400 => 0x009D_0000,
        56_000 => 0x00E5_0000,
        57_600 => 0x00EB_0000,
        76_800 => 0x013A_9000,
        115_200 => 0x01D6_0000,
        230_400 => 0x03B0_0000,
        250_000 => 0x0400_0000,
        460_800 => 0x0740_0000,
        921_600 => 0x0F00_0000,
        1_000_000 => 0x1000_0000,
        _ => vstd::pervasive::unreached(),
    }
}

/// The modelled UARTE register file, plus the byte tape on the TX wire.
///
/// Each field stands for one register or bit field the transport touches. A
/// `connected` flag mirrors a PSEL register's connect bit (true when the line
/// is routed to a pin); `txd_ptr_buf` mirrors the TXD pointer register and is
/// true once it holds the transmit buffer's address. `wire` and
/// `starttx_count` are the observation side of the model: the bytes the DMA
/// engine has shipped, and how often the start-transmit task fired.
#[derive(Debug, PartialEq, Eq)]
pub struct Uarte {
    /// PSEL.TXD pin-number field.
    pub psel_txd_pin: u32,
    /// PSEL.TXD connect bit: the TX line is routed out.
    pub psel_txd_connected: bool,
    /// PSEL.RXD connect bit.
    pub psel_rxd_connected: bool,
    /// PSEL.RTS connect bit.
    pub psel_rts_connected: bool,
    /// PSEL.CTS connect bit.
    pub psel_cts_connected: bool,
    /// TXD.PTR register: true once it points at the transmit buffer.
    pub txd_ptr_buf: bool,
    /// BAUDRATE register.
    pub baudrate: u32,
    /// ENABLE register; [`ENABLE_UARTE`] means on.
    pub enable: u32,
    /// TXD.MAXCNT register: how many buffer bytes the next transmission ships.
    pub txd_maxcnt: u32,
    /// EVENTS_TXSTARTED: the transmitter has started.
    pub events_txstarted: bool,
    /// EVENTS_ENDTX: the last TX byte went out.
    pub events_endtx: bool,
    /// How often the start-transmit task has fired.
    pub starttx_count: usize,
    /// Every byte shipped so far, in wire order.
    pub wire: Vec<u8>,
}

/// The register model as contracts speak of it.
#[verifier::ext_equal]
pub ghost struct UarteState {
    pub psel_txd_pin: u32,
    pub psel_txd_connected: bool,
    pub psel_rxd_connected: bool,
    pub psel_rts_connected: bool,
    pub psel_cts_connected: bool,
    pub txd_ptr_buf: bool,
    pub baudrate: u32,
    pub enable: u32,
    pub txd_maxcnt: u32,
    pub events_txstarted: bool,
    pub events_endtx: bool,
    pub starttx_count: int,
    pub wire: Seq<u8>,
}

impl View for Uarte {
    type V = UarteState;

    open spec fn view(&self) -> UarteState {
        UarteState {
            psel_txd_pin: self.psel_txd_pin,
            psel_txd_connected: self.psel_txd_connected,
            psel_rxd_connected: self.psel_rxd_connected,
            psel_rts_connected: self.psel_rts_connected,
            psel_cts_connected: self.psel_cts_connected,
            txd_ptr_buf: self.txd_ptr_buf,
            baudrate: self.baudrate,
            enable: self.enable,
            txd_maxcnt: self.txd_maxcnt,
            events_txstarted: self.events_txstarted,
            events_endtx: self.events_endtx,
            starttx_count: self.starttx_count as int,
            wire: self.wire@,
        }
    }
}

/// The register file at reset: everything off, nothing routed, no event
/// raised, nothing on the wire.
pub open spec fn spec_uarte_reset() -> UarteState {
    UarteState {
        psel_txd_pin: 0,
        psel_txd_connected: false,
        psel_rxd_connected: false,
        psel_rts_connected: false,
        psel_cts_connected: false,
        txd_ptr_buf: false,
        baudrate: 0,
        enable: 0,
        txd_maxcnt: 0,
        events_txstarted: false,
        events_endtx: false,
        starttx_count: 0,
        wire: Seq::empty(),
    }
}

impl Uarte {
    /// A freshly powered peripheral model.
    pub fn reset() -> (r: Uarte)
        ensures
            r@ == spec_uarte_reset(),
    {
        let r = Uarte {
            psel_txd_pin: 0,
            psel_txd_connected: false,
            psel_rxd_connected: false,
            psel_rts_connected: false,
            psel_cts_connected: false,
            txd_ptr_buf: false,
            baudrate: 0,
            enable: 0,
            txd_maxcnt: 0,
            events_txstarted: false,
            events_endtx: false,
            starttx_count: 0,
            wire: Vec::new(),
        };
        assert(r@ =~= spec_uarte_reset());
        r
    }
}

} // verus!
