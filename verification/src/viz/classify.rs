//! Lee–Ready style trade classification against the last NBBO (stream trades carry no
//! aggressor flag).

use vstd::prelude::*;

verus! {

/// Midpoint of the quote as computed in tick space: `bid.saturating_add(ask) / 2`.
pub open spec fn spec_mid(bid_ticks: u64, ask_ticks: u64) -> int {
    if bid_ticks + ask_ticks > u64::MAX {
        u64::MAX as int / 2
    } else {
        (bid_ticks + ask_ticks) / 2
    }
}

/// Tick test: sign of the move from the previous trade price, scaled by `sz`.
/// Without a previous trade the trade stays unclassified (0).
pub open spec fn spec_tick_test(trade_px_ticks: u64, sz: int, last_trade_px: Option<u64>) -> int {
    match last_trade_px {
        None => 0,
        Some(prev) => if trade_px_ticks > prev {
            sz
        } else if trade_px_ticks < prev {
            -sz
        } else {
            0
        },
    }
}

/// The share count as a signed volume: the size itself, saturated at `i64::MAX` so that a
/// buyer-initiated trade is always positive and a seller-initiated one negative.
pub open spec fn spec_signed_size(trade_sz: u64) -> int {
    if trade_sz > i64::MAX {
        i64::MAX as int
    } else {
        trade_sz as int
    }
}

/// Signed volume and updated last trade price of the Lee–Ready rule.
///
/// Zero-size trades and crossed or locked quotes (`bid >= ask`) are skipped: signed volume 0 and
/// the last trade price is left as it was. Otherwise a trade above the midpoint is a buy (+size),
/// below is a sell (−size), and at the midpoint the tick test decides; the last trade price
/// becomes the trade price.
pub open spec fn spec_lee_ready(
    trade_px_ticks: u64,
    trade_sz: u64,
    bid_ticks: u64,
    ask_ticks: u64,
    last_trade_px: Option<u64>,
) -> (int, Option<u64>) {
    if trade_sz == 0 || bid_ticks >= ask_ticks {
        (0, last_trade_px)
    } else {
        let mid = spec_mid(bid_ticks, ask_ticks);
        let sz = spec_signed_size(trade_sz);
        let signed = if trade_px_ticks > mid {
            sz
        } else if trade_px_ticks < mid {
            -sz
        } else {
            spec_tick_test(trade_px_ticks, sz, last_trade_px)
        };
        (signed, Some(trade_px_ticks))
    }
}

/// Signed share count: buyer-initiated positive, seller-initiated negative. Sizes above
/// `i64::MAX` count as `i64::MAX`.
///
/// `last_trade_px` is the previous trade price in the same tick space as `trade_px_ticks`.
/// Returns the updated last trade price (`Some(trade_px_ticks)` after a classified trade).
pub fn lee_ready_signed_volume(
    trade_px_ticks: u64,
    trade_sz: u64,
    bid_ticks: u64,
    ask_ticks: u64,
    last_trade_px: Option<u64>,
) -> (r: (i64, Option<u64>))
    ensures
        r.0 as int == spec_lee_ready(trade_px_ticks, trade_sz, bid_ticks, ask_ticks, last_trade_px).0,
        r.1 == spec_lee_ready(trade_px_ticks, trade_sz, bid_ticks, ask_ticks, last_trade_px).1,
{
    if trade_sz == 0 {
        return (0, last_trade_px);
    }
    if bid_ticks >= ask_ticks {
        return (0, last_trade_px);
    }
    let mid = bid_ticks.saturating_add(ask_ticks) / 2;
    let sz: i64 = if trade_sz > i64::MAX as u64 { i64::MAX } else { trade_sz as i64 };
    let signed = if trade_px_ticks > mid {
        sz
    } else if trade_px_ticks < mid {
        -sz
    } else {
        tick_test(trade_px_ticks, sz, last_trade_px)
    };
    (signed, Some(trade_px_ticks))
}

fn tick_test(trade_px_ticks: u64, sz: i64, last_trade_px: Option<u64>) -> (r: i64)
    requires
        sz > i64::MIN,
    ensures
        r == spec_tick_test(trade_px_ticks, sz as int, last_trade_px),
{
    let prev = match last_trade_px {
        None => return 0,
        Some(p) => p,
    };
    if trade_px_ticks > prev {
        sz
    } else if trade_px_ticks < prev {
        -sz
    } else {
        0
    }
}

/// A classified trade moves the last trade price to the trade's price, and its signed volume is
/// the size, its negation, or zero; a skipped trade changes nothing.
pub proof fn law_lee_ready_outcome(
    trade_px_ticks: u64,
    trade_sz: u64,
    bid_ticks: u64,
    ask_ticks: u64,
    last_trade_px: Option<u64>,
)
    ensures
        ({
            let (signed, last) = spec_lee_ready(
                trade_px_ticks,
                trade_sz,
                bid_ticks,
                ask_ticks,
                last_trade_px,
            );
            &&& (trade_sz == 0 || bid_ticks >= ask_ticks) ==> signed == 0 && last == last_trade_px
            &&& (trade_sz != 0 && bid_ticks < ask_ticks) ==> last == Some(trade_px_ticks)
            &&& signed == 0 || signed == spec_signed_size(trade_sz) || signed == -spec_signed_size(
                trade_sz,
            )
        }),
{
}

/// With a sane quote, the classification is antisymmetric in price around the midpoint:
/// trades strictly above the midpoint are buys and trades strictly below are sells, whatever
/// the previous trade was.
pub proof fn law_lee_ready_quote_rule(
    trade_px_ticks: u64,
    trade_sz: u64,
    bid_ticks: u64,
    ask_ticks: u64,
    last_trade_px: Option<u64>,
)
    requires
        trade_sz != 0,
        bid_ticks < ask_ticks,
        trade_px_ticks != spec_mid(bid_ticks, ask_ticks),
    ensures
        spec_lee_ready(trade_px_ticks, trade_sz, bid_ticks, ask_ticks, last_trade_px).0 == if trade_px_ticks
            > spec_mid(bid_ticks, ask_ticks) {
            spec_signed_size(trade_sz)
        } else {
            -spec_signed_size(trade_sz)
        },
{
}

/// Buyer-initiated trades count positive and seller-initiated ones negative: with a sane
/// quote, a non-empty trade strictly above the midpoint has positive signed volume equal to its
/// size (capped at `i64::MAX`), and one strictly below has the negated value.
pub proof fn law_lee_ready_sign(
    trade_px_ticks: u64,
    trade_sz: u64,
    bid_ticks: u64,
    ask_ticks: u64,
    last_trade_px: Option<u64>,
)
    requires
        trade_sz > 0,
        bid_ticks < ask_ticks,
    ensures
        trade_px_ticks > spec_mid(bid_ticks, ask_ticks) ==> spec_lee_ready(
            trade_px_ticks,
            trade_sz,
            bid_ticks,
            ask_ticks,
            last_trade_px,
        ).0 > 0,
        trade_px_ticks < spec_mid(bid_ticks, ask_ticks) ==> spec_lee_ready(
            trade_px_ticks,
            trade_sz,
            bid_ticks,
            ask_ticks,
            last_trade_px,
        ).0 < 0,
        trade_sz <= i64::MAX ==> spec_signed_size(trade_sz) == trade_sz,
{
}

} // verus!
