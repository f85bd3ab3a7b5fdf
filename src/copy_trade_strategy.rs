use vstd::prelude::*;
use crate::scanner::{
    AccountKey, CopyTradeOpportunity, FetchOutcome, Market, TradeRecord, in_band, scan_actor,
    scan_records, to_opportunity,
};

verus! {

/// Configuration of the copy-trade path.
pub struct CopyTradeStrategy {
    pub tracked_traders: Vec<AccountKey>,
    pub trade_threshold: u64,
    pub max_trade_amount: u64,
    pub polling_interval_ms: u64,
}

/// The opportunities that `trades` give, paired with the markets resolved
/// for them; a trade out of the band or without a market gives none.
pub open spec fn opportunities_of(
    trader: AccountKey,
    trades: Seq<TradeRecord>,
    markets: Seq<Option<Market>>,
    lo: u64,
    hi: u64,
) -> Seq<CopyTradeOpportunity>
    decreases trades.len(),
{
    if trades.len() == 0 || markets.len() == 0 {
        Seq::empty()
    } else {
        let prev = opportunities_of(trader, trades.drop_last(), markets.drop_last(), lo, hi);
        let t = trades.last();
        let m = markets.last();
        if in_band(t.quantity, lo, hi) && m.is_some() {
            prev.push(CopyTradeOpportunity { trader, market: m.unwrap(), trade: t })
        } else {
            prev
        }
    }
}

impl CopyTradeStrategy {
    pub fn new(
        tracked_traders: Vec<AccountKey>,
        trade_threshold: u64,
        max_trade_amount: u64,
        polling_interval_ms: u64,
    ) -> (r: CopyTradeStrategy)
        ensures
            r.tracked_traders@ == tracked_traders@,
            r.trade_threshold == trade_threshold,
            r.max_trade_amount == max_trade_amount,
            r.polling_interval_ms == polling_interval_ms,
    {
        CopyTradeStrategy { tracked_traders, trade_threshold, max_trade_amount, polling_interval_ms }
    }

    /// The decoded orders of `trader` over the fetches of its recent
    /// signatures, skipping each fetch that failed or timed out.
    pub fn get_recent_trades(&self, trader: AccountKey, outcomes: &Vec<FetchOutcome>) -> (r: Vec<TradeRecord>)
        ensures
            r@ == scan_records(trader, outcomes@),
    {
        scan_actor(trader, outcomes)
    }

    /// The copy-trade opportunities of `trader`, where `markets[i]` is the
    /// resolution of the market of `trades[i]` (`None` when it failed).
    pub fn find_opportunities(
        &self,
        trader: AccountKey,
        trades: &Vec<TradeRecord>,
        markets: &Vec<Option<Market>>,
    ) -> (r: Vec<CopyTradeOpportunity>)
        requires
            trades@.len() == markets@.len(),
        ensures
            r@ == opportunities_of(trader, trades@, markets@, self.trade_threshold, self.max_trade_amount),
    {
        let mut r: Vec<CopyTradeOpportunity> = Vec::new();
        let mut i: usize = 0;
        while i < trades.len()
            invariant
                i <= trades@.len(),
                trades@.len() == markets@.len(),
                r@ == opportunities_of(
                    trader,
                    trades@.subrange(0, i as int),
                    markets@.subrange(0, i as int),
                    self.trade_threshold,
                    self.max_trade_amount,
                ),
            decreases trades@.len() - i,
        {
            proof {
                assert(trades@.subrange(0, i as int + 1).drop_last() =~= trades@.subrange(0, i as int));
                assert(markets@.subrange(0, i as int + 1).drop_last() =~= markets@.subrange(0, i as int));
            }
            match to_opportunity(trader, trades[i], markets[i], self.trade_threshold, self.max_trade_amount) {
                Some(o) => r.push(o),
                None => {},
            }
            i = i + 1;
        }
        proof {
            assert(trades@.subrange(0, trades@.len() as int) =~= trades@);
            assert(markets@.subrange(0, markets@.len() as int) =~= markets@);
        }
        r
    }
}

/// No trade whose quantity lies outside the band becomes an opportunity.
pub proof fn lemma_opportunities_in_band(
    trader: AccountKey,
    trades: Seq<TradeRecord>,
    markets: Seq<Option<Market>>,
    lo: u64,
    hi: u64,
)
    ensures
        forall|k: int| 0 <= k < opportunities_of(trader, trades, markets, lo, hi).len()
            ==> in_band(#[trigger] opportunities_of(trader, trades, markets, lo, hi)[k].trade.quantity, lo, hi),
    decreases trades.len(),
{
    if trades.len() > 0 && markets.len() > 0 {
        lemma_opportunities_in_band(trader, trades.drop_last(), markets.drop_last(), lo, hi);
    }
}

} // verus!
