//! Points in chain time and spans of it, with the block they are measured
//! against.  The comparisons are those of `cw_utils`, which this module calls.

use vstd::prelude::*;
use crate::text::{decimal, zero_padded};

verus! {

/// Nanoseconds in a second.
pub const NANOS_PER_SECOND: u64 = 1_000_000_000;

/// The block a message is executed in.
pub struct BlockInfo {
    pub height: u64,
    /// Block time in nanoseconds since the UNIX epoch.
    pub time_nanos: u64,
    pub chain_id: String,
}

/// When something expires.
#[derive(PartialEq, Eq, Structural, Clone, Copy, Debug)]
pub enum Expiration {
    /// Expires once the block height reaches this height.
    AtHeight(u64),
    /// Expires once the block time (nanoseconds) reaches this time.
    AtTime(u64),
    /// Never expires.
    Never,
}

/// A span of chain time.
#[derive(PartialEq, Eq, Structural, Clone, Copy, Debug)]
pub enum Duration {
    /// A number of blocks.
    Height(u64),
    /// A number of seconds.
    Time(u64),
}

/// Whether `e` has expired in `block`.
pub open spec fn spec_is_expired(e: Expiration, block: BlockInfo) -> bool {
    match e {
        Expiration::AtHeight(h) => block.height >= h,
        Expiration::AtTime(t) => block.time_nanos >= t,
        Expiration::Never => false,
    }
}

/// Whether `d` can be added to the time of `block` without overflow.
pub open spec fn after_fits(d: Duration, block: BlockInfo) -> bool {
    match d {
        Duration::Height(h) => block.height + h <= u64::MAX,
        Duration::Time(t) => t * 1_000_000_000 <= u64::MAX && block.time_nanos + t * 1_000_000_000
            <= u64::MAX,
    }
}

/// The point `d` after `block`.
pub open spec fn spec_after(d: Duration, block: BlockInfo) -> Expiration {
    match d {
        Duration::Height(h) => Expiration::AtHeight((block.height + h) as u64),
        Duration::Time(t) => Expiration::AtTime((block.time_nanos + t * 1_000_000_000) as u64),
    }
}

/// How `cw_utils` writes an expiration.
pub open spec fn expiration_text_of(e: Expiration) -> Seq<char> {
    match e {
        Expiration::AtHeight(h) => "expiration height: "@ + decimal(h as nat),
        Expiration::AtTime(t) => "expiration time: "@ + decimal((t / 1_000_000_000) as nat) + "."@
            + zero_padded((t % 1_000_000_000) as nat, 9),
        Expiration::Never => "expiration: never"@,
    }
}

/// `cw_utils::Expiration::is_expired`: a height expiration has passed once
/// the block height reaches it, a time expiration once the block time
/// reaches it, and `Never` never passes.
#[verifier::external_body]
pub(crate) fn is_expired(e: &Expiration, block: &BlockInfo) -> (r: bool)
    ensures
        r == spec_is_expired(*e, *block),
{
    let cw = match e {
        Expiration::AtHeight(h) => cw_utils::Expiration::AtHeight(*h),
        Expiration::AtTime(t) => cw_utils::Expiration::AtTime(cosmwasm_std::Timestamp::from_nanos(*t)),
        Expiration::Never => cw_utils::Expiration::Never {},
    };
    let b = cosmwasm_std::BlockInfo { height: block.height, time: cosmwasm_std::Timestamp::from_nanos(block.time_nanos), chain_id: block.chain_id.clone() };
    cw.is_expired(&b)
}

/// `cw_utils::Duration::after`: a height span added to the block height,
/// or a span of seconds added to the block time.  The addition panics on
/// overflow, which the precondition rules out.
#[verifier::external_body]
pub(crate) fn after(d: &Duration, block: &BlockInfo) -> (r: Expiration)
    requires
        after_fits(*d, *block),
    ensures
        r == spec_after(*d, *block),
{
    let cw = match d {
        Duration::Height(h) => cw_utils::Duration::Height(*h),
        Duration::Time(t) => cw_utils::Duration::Time(*t),
    };
    let b = cosmwasm_std::BlockInfo { height: block.height, time: cosmwasm_std::Timestamp::from_nanos(block.time_nanos), chain_id: block.chain_id.clone() };
    match cw.after(&b) {
        cw_utils::Expiration::AtHeight(h) => Expiration::AtHeight(h),
        cw_utils::Expiration::AtTime(t) => Expiration::AtTime(t.nanos()),
        cw_utils::Expiration::Never {} => Expiration::Never,
    }
}

/// The `Display` text of `cw_utils::Expiration`: "expiration height: H",
/// "expiration time: S.NNNNNNNNN" (seconds, then nanoseconds padded to
/// nine digits) or "expiration: never".
#[verifier::external_body]
pub(crate) fn expiration_text(e: &Expiration) -> (r: String)
    ensures
        r@ == expiration_text_of(*e),
{
    let cw = match e {
        Expiration::AtHeight(h) => cw_utils::Expiration::AtHeight(*h),
        Expiration::AtTime(t) => cw_utils::Expiration::AtTime(cosmwasm_std::Timestamp::from_nanos(*t)),
        Expiration::Never => cw_utils::Expiration::Never {},
    };
    cw.to_string()
}

} // verus!
