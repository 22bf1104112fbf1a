//! Encoding of the commands that are sent to the module.
//!
//! A command is `#`, the address of the module as two decimal digits, for a
//! read of one channel the channel as two decimal digits, and a carriage
//! return: `#AA\r` reads all channels, `#AACC\r` reads channel `CC`.
use crate::error::Error;
use crate::literal::{is_digit, ZERO};
use vstd::prelude::*;

verus! {

/// The byte that opens every command, `#`.
pub const START: u8 = 0x23;

/// The byte that closes every command, a carriage return.
pub const END: u8 = 0x0d;

/// The highest address of a module: the protocol has two digits for it.
pub const MAX_ADDR: u8 = 99;

/// The highest channel of a module.
pub const MAX_CHAN: u8 = 15;

/// `n` as two decimal digits, with a leading `0` below ten.
pub open spec fn two_digits(n: u8) -> Seq<u8> {
    seq![(ZERO + n / 10) as u8, (ZERO + n % 10) as u8]
}

/// The command to the module at `addr`: a read of all channels where `chan`
/// is `None`, a read of that channel otherwise.
pub open spec fn frame(addr: u8, chan: Option<u8>) -> Seq<u8> {
    let selector = match chan {
        Some(c) => two_digits(c),
        None => Seq::empty(),
    };
    seq![START] + two_digits(addr) + selector + seq![END]
}

/// What encoding gives: the command, or the reason why there is none. The
/// channel is looked at before the address.
pub open spec fn encode_spec(addr: u8, chan: Option<u8>) -> Result<Seq<u8>, Error> {
    if chan is Some && chan->0 > MAX_CHAN {
        Err(Error::ChanError)
    } else if addr > MAX_ADDR {
        Err(Error::AddrError)
    } else {
        Ok(frame(addr, chan))
    }
}

/// Encodes the command to the module at `addr`.
///
/// A channel above 15 is refused with `ChanError`, and then an address above
/// 99 with `AddrError`. Otherwise the bytes of the command come back.
pub fn encode(addr: u8, chan: Option<u8>) -> (r: Result<Vec<u8>, Error>)
    ensures
        match r {
            Ok(bytes) => encode_spec(addr, chan) == Ok::<Seq<u8>, Error>(bytes@),
            Err(e) => encode_spec(addr, chan) == Err::<Seq<u8>, Error>(e),
        },
{
    if let Some(c) = chan {
        if c > MAX_CHAN {
            return Err(Error::ChanError);
        }
    }
    if addr > MAX_ADDR {
        return Err(Error::AddrError);
    }
    let mut bytes: Vec<u8> = Vec::new();
    bytes.push(START);
    bytes.push(ZERO + addr / 10);
    bytes.push(ZERO + addr % 10);
    if let Some(c) = chan {
        bytes.push(ZERO + c / 10);
        bytes.push(ZERO + c % 10);
    }
    bytes.push(END);
    assert(bytes@ =~= frame(addr, chan));
    Ok(bytes)
}

/// The number that two decimal digits stand for.
pub open spec fn two_digit_value(tens: u8, units: u8) -> int {
    10 * (tens - ZERO) + (units - ZERO)
}

/// For every address up to 99 the command that reads all channels has four
/// bytes: `#`, two digits that stand for the address, and a carriage return.
pub proof fn lemma_read_all_frame(addr: u8)
    requires
        addr <= MAX_ADDR,
    ensures
        encode_spec(addr, None) == Ok::<Seq<u8>, Error>(frame(addr, None)),
        frame(addr, None).len() == 4,
        frame(addr, None)[0] == START,
        is_digit(frame(addr, None)[1]),
        is_digit(frame(addr, None)[2]),
        two_digit_value(frame(addr, None)[1], frame(addr, None)[2]) == addr,
        frame(addr, None)[3] == END,
{
}

/// An address of 100 or more is refused as out of range, whatever is to be
/// read: a read of all channels with `AddrError`.
pub proof fn lemma_address_refused(addr: u8, chan: Option<u8>)
    requires
        addr > MAX_ADDR,
    ensures
        encode_spec(addr, chan) is Err,
        encode_spec(addr, chan)->Err_0.is_range(),
        encode_spec(addr, None) == Err::<Seq<u8>, Error>(Error::AddrError),
{
}

/// For every channel up to 15, and every address up to 99, the command that
/// reads the channel has six bytes: `#`, two digits that stand for the
/// address, two digits that stand for the channel, and a carriage return.
pub proof fn lemma_read_one_frame(addr: u8, chan: u8)
    requires
        addr <= MAX_ADDR,
        chan <= MAX_CHAN,
    ensures
        encode_spec(addr, Some(chan)) == Ok::<Seq<u8>, Error>(frame(addr, Some(chan))),
        frame(addr, Some(chan)).len() == 6,
        frame(addr, Some(chan))[0] == START,
        is_digit(frame(addr, Some(chan))[1]),
        is_digit(frame(addr, Some(chan))[2]),
        two_digit_value(frame(addr, Some(chan))[1], frame(addr, Some(chan))[2]) == addr,
        is_digit(frame(addr, Some(chan))[3]),
        is_digit(frame(addr, Some(chan))[4]),
        two_digit_value(frame(addr, Some(chan))[3], frame(addr, Some(chan))[4]) == chan,
        frame(addr, Some(chan))[5] == END,
{
}

/// A channel of 16 or more is refused with `ChanError`, whatever the
/// address.
pub proof fn lemma_channel_refused(addr: u8, chan: u8)
    requires
        chan > MAX_CHAN,
    ensures
        encode_spec(addr, Some(chan)) == Err::<Seq<u8>, Error>(Error::ChanError),
{
}

/// Nothing but a channel or an address out of range keeps a command from
/// being encoded.
pub proof fn lemma_refused_only_out_of_range(addr: u8, chan: Option<u8>)
    ensures
        encode_spec(addr, chan) is Err <==> addr > MAX_ADDR || (chan is Some && chan->0 > MAX_CHAN),
        encode_spec(addr, chan) is Err ==> encode_spec(addr, chan)->Err_0.is_range(),
{
}

} // verus!
