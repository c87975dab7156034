use crc16::CrcType;
use crc16::XMODEM;
use vstd::prelude::*;

verus! {

/// The register of the CRC-16/XMODEM computation after `msg` is fed into
/// register `crc`, as `crc16::XMODEM::update` computes it.
pub uninterp spec fn xmodem_update(crc: u16, msg: Seq<u8>) -> u16;

/// The CRC-16/XMODEM value that `crc16::XMODEM::get` reads out of register `crc`.
pub uninterp spec fn xmodem_get(crc: u16) -> u16;

/// The register after feeding `bytes` into a fresh register (which holds zero).
pub open spec fn xmodem_state(bytes: Seq<u8>) -> u16 {
    if bytes.len() == 0 {
        0
    } else {
        xmodem_update(0, bytes)
    }
}

/// CRC-16/XMODEM of a byte sequence: polynomial 0x1021, initial value zero,
/// no reflection, no final XOR.
pub open spec fn crc16_xmodem(bytes: Seq<u8>) -> u16 {
    xmodem_get(xmodem_state(bytes))
}

/// Relies on `crc16::XMODEM::init`: with initial value zero the register starts at zero.
#[verifier::external_body]
fn xmodem_init() -> (r: u16)
    ensures
        r == 0,
{
    <XMODEM as CrcType>::init()
}

/// Relies on `crc16::XMODEM::update`: the register is folded over the message one
/// byte at a time, so feeding two pieces in turn equals feeding them joined.
#[verifier::external_body]
fn xmodem_feed(crc: u16, msg: &[u8]) -> (r: u16)
    ensures
        r == xmodem_update(crc, msg@),
        forall|pre: Seq<u8>| #[trigger] xmodem_state(pre) == crc ==> r == xmodem_state(pre + msg@),
{
    <XMODEM as CrcType>::update(crc, msg)
}

/// Relies on `crc16::XMODEM::get`: reads the checksum out of the register.
#[verifier::external_body]
fn xmodem_finish(crc: u16) -> (r: u16)
    ensures
        r == xmodem_get(crc),
{
    <XMODEM as CrcType>::get(crc)
}

/// Relies on `crc16::State::<XMODEM>::calculate`: `get(update(init(), msg))` in one pass.
#[verifier::external_body]
fn xmodem_calculate(msg: &[u8]) -> (r: u16)
    ensures
        r == crc16_xmodem(msg@),
{
    crc16::State::<XMODEM>::calculate(msg)
}

/// CRC-16/XMODEM of `bytes` in one pass.
pub fn checksum(bytes: &[u8]) -> (r: u16)
    ensures
        r == crc16_xmodem(bytes@),
{
    xmodem_calculate(bytes)
}

/// An incremental CRC-16/XMODEM computation: bytes may be fed in pieces, and the
/// result is that of the whole sequence fed so far.
pub struct Crc16Xmodem {
    raw: u16,
    fed: Ghost<Seq<u8>>,
}

impl Crc16Xmodem {
    /// The bytes fed so far.
    pub closed spec fn consumed(&self) -> Seq<u8> {
        self.fed@
    }

    /// The register agrees with the bytes fed so far.
    pub closed spec fn wf(&self) -> bool {
        self.raw == xmodem_state(self.fed@)
    }

    /// A computation that has consumed nothing.
    pub fn new() -> (r: Crc16Xmodem)
        ensures
            r.wf(),
            r.consumed() == Seq::<u8>::empty(),
    {
        Crc16Xmodem { raw: xmodem_init(), fed: Ghost(Seq::empty()) }
    }

    /// Feeds `bytes` after those already consumed.
    pub fn update(&mut self, bytes: &[u8])
        requires
            old(self).wf(),
        ensures
            final(self).wf(),
            final(self).consumed() == old(self).consumed() + bytes@,
    {
        let ghost pre = self.fed@;
        self.raw = xmodem_feed(self.raw, bytes);
        self.fed = Ghost(pre + bytes@);
    }

    /// The checksum of everything consumed so far.
    pub fn finalize(&self) -> (r: u16)
        requires
            self.wf(),
        ensures
            r == crc16_xmodem(self.consumed()),
    {
        xmodem_finish(self.raw)
    }
}

} // verus!
