use vstd::prelude::*;

verus! {

/// A 32-byte ledger account address.
#[derive(Clone, Copy, Debug, PartialEq, Eq, Hash)]
pub struct AccountKey(pub [u8; 32]);

#[derive(Clone, Copy, Debug, PartialEq, Eq, Structural)]
pub enum Side {
    Bid,
    Ask,
}

#[derive(Clone, Copy, Debug, PartialEq, Eq, Structural)]
pub enum OrderType {
    Limit,
    ImmediateOrCancel,
    PostOnly,
}

#[derive(Clone, Copy, Debug, PartialEq, Eq, Structural)]
pub enum OrderStatus {
    Open,
    Filled,
}

/// An order placed by a tracked actor, as decoded from the ledger.
#[derive(Clone, Copy, Debug)]
pub struct TradeRecord {
    pub actor: AccountKey,
    pub market: AccountKey,
    pub side: Side,
    pub order_type: OrderType,
    pub price: u64,
    pub quantity: u64,
    pub status: OrderStatus,
}

/// A market as resolved by the venue.
#[derive(Clone, Copy, Debug)]
pub struct Market {
    pub address: AccountKey,
    pub base_mint: AccountKey,
    pub quote_mint: AccountKey,
}

/// A trade of a tracked actor worth mirroring.
#[derive(Clone, Copy, Debug)]
pub struct CopyTradeOpportunity {
    pub trader: AccountKey,
    pub market: Market,
    pub trade: TradeRecord,
}

/// One instruction of a fetched transaction: the market account it names
/// first, and its data.
#[derive(Clone, Debug)]
pub struct RawInstruction {
    pub market: AccountKey,
    pub data: Vec<u8>,
}

/// What fetching one transaction signature gave.
#[derive(Clone, Debug)]
pub enum FetchOutcome {
    Fetched(Vec<RawInstruction>),
    Missing,
    TimedOut,
    TransportFailed,
}

/// Why an instruction is not an order placement.
#[derive(Clone, Copy, Debug, PartialEq, Eq, Structural)]
pub enum DecodeError {
    TooShort,
    NotNewOrder,
    BadSide,
    BadOrderType,
}

/// First byte of an order-placement instruction.
pub const NEW_ORDER_TAG: u8 = 10;

/// Length of an order-placement instruction: tag, side, order type, then
/// price and quantity as little-endian `u64`.
pub const NEW_ORDER_LEN: usize = 19;

/// The little-endian `u64` in bytes `off .. off + 8` of `s`.
pub open spec fn le_u64_at(s: Seq<u8>, off: int) -> int {
    s[off] + s[off + 1] * 0x100 + s[off + 2] * 0x1_0000 + s[off + 3] * 0x100_0000
        + s[off + 4] * 0x1_0000_0000 + s[off + 5] * 0x100_0000_0000
        + s[off + 6] * 0x1_0000_0000_0000 + s[off + 7] * 0x100_0000_0000_0000
}

pub open spec fn side_of(b: u8) -> Option<Side> {
    if b == 0 {
        Some(Side::Bid)
    } else if b == 1 {
        Some(Side::Ask)
    } else {
        None
    }
}

pub open spec fn order_type_of(b: u8) -> Option<OrderType> {
    if b == 0 {
        Some(OrderType::Limit)
    } else if b == 1 {
        Some(OrderType::ImmediateOrCancel)
    } else if b == 2 {
        Some(OrderType::PostOnly)
    } else {
        None
    }
}

/// The decoding of an instruction: either its error, or the record.
pub open spec fn decode_spec(actor: AccountKey, market: AccountKey, d: Seq<u8>) -> Result<TradeRecord, DecodeError> {
    if d.len() == 0 {
        Err(DecodeError::TooShort)
    } else if d[0] != NEW_ORDER_TAG {
        Err(DecodeError::NotNewOrder)
    } else if d.len() < NEW_ORDER_LEN {
        Err(DecodeError::TooShort)
    } else if side_of(d[1]).is_none() {
        Err(DecodeError::BadSide)
    } else if order_type_of(d[2]).is_none() {
        Err(DecodeError::BadOrderType)
    } else {
        Ok(TradeRecord {
            actor,
            market,
            side: side_of(d[1]).unwrap(),
            order_type: order_type_of(d[2]).unwrap(),
            price: le_u64_at(d, 3) as u64,
            quantity: le_u64_at(d, 11) as u64,
            status: OrderStatus::Filled,
        })
    }
}

fn read_u64_le(d: &Vec<u8>, off: usize) -> (r: u64)
    requires
        off + 8 <= d@.len(),
    ensures
        r == le_u64_at(d@, off as int),
{
    let n = d.len();
    assert(off + 8 <= n);
    d[off] as u64 + d[off + 1] as u64 * 0x100 + d[off + 2] as u64 * 0x1_0000
        + d[off + 3] as u64 * 0x100_0000 + d[off + 4] as u64 * 0x1_0000_0000
        + d[off + 5] as u64 * 0x100_0000_0000 + d[off + 6] as u64 * 0x1_0000_0000_0000
        + d[off + 7] as u64 * 0x100_0000_0000_0000
}

/// Decodes an order-placement instruction of `actor`.
pub fn decode_order(actor: AccountKey, ins: &RawInstruction) -> (r: Result<TradeRecord, DecodeError>)
    ensures
        r == decode_spec(actor, ins.market, ins.data@),
{
    let d = &ins.data;
    if d.len() == 0 {
        return Err(DecodeError::TooShort);
    }
    if d[0] != NEW_ORDER_TAG {
        return Err(DecodeError::NotNewOrder);
    }
    if d.len() < NEW_ORDER_LEN {
        return Err(DecodeError::TooShort);
    }
    let side = if d[1] == 0 {
        Side::Bid
    } else if d[1] == 1 {
        Side::Ask
    } else {
        return Err(DecodeError::BadSide);
    };
    let order_type = if d[2] == 0 {
        OrderType::Limit
    } else if d[2] == 1 {
        OrderType::ImmediateOrCancel
    } else if d[2] == 2 {
        OrderType::PostOnly
    } else {
        return Err(DecodeError::BadOrderType);
    };
    let price = read_u64_le(d, 3);
    let quantity = read_u64_le(d, 11);
    Ok(TradeRecord {
        actor,
        market: ins.market,
        side,
        order_type,
        price,
        quantity,
        status: OrderStatus::Filled,
    })
}

/// `quantity` lies within `[trade_threshold, max_trade_amount]`.
pub open spec fn in_band(quantity: u64, trade_threshold: u64, max_trade_amount: u64) -> bool {
    trade_threshold <= quantity <= max_trade_amount
}

/// The decodable orders among `instrs`, in instruction order.
pub open spec fn tx_records(actor: AccountKey, instrs: Seq<RawInstruction>) -> Seq<TradeRecord>
    decreases instrs.len(),
{
    if instrs.len() == 0 {
        Seq::empty()
    } else {
        let prev = tx_records(actor, instrs.drop_last());
        match decode_spec(actor, instrs.last().market, instrs.last().data@) {
            Ok(t) => prev.push(t),
            Err(_) => prev,
        }
    }
}

/// What one fetch contributes: the decodable orders of a fetched transaction,
/// nothing otherwise.
pub open spec fn outcome_records(actor: AccountKey, o: FetchOutcome) -> Seq<TradeRecord> {
    match o {
        FetchOutcome::Fetched(instrs) => tx_records(actor, instrs@),
        _ => Seq::empty(),
    }
}

/// The decodable orders over a run of fetches, in the order of the signatures.
pub open spec fn scan_records(actor: AccountKey, outcomes: Seq<FetchOutcome>) -> Seq<TradeRecord>
    decreases outcomes.len(),
{
    if outcomes.len() == 0 {
        Seq::empty()
    } else {
        scan_records(actor, outcomes.drop_last()) + outcome_records(actor, outcomes.last())
    }
}

/// The orders in one fetched transaction; instructions that do not decode
/// are skipped.
pub fn scan_transaction(actor: AccountKey, instrs: &Vec<RawInstruction>) -> (r: Vec<TradeRecord>)
    ensures
        r@ == tx_records(actor, instrs@),
{
    let mut r: Vec<TradeRecord> = Vec::new();
    let mut i: usize = 0;
    while i < instrs.len()
        invariant
            i <= instrs@.len(),
            r@ == tx_records(actor, instrs@.subrange(0, i as int)),
        decreases instrs@.len() - i,
    {
        proof {
            assert(instrs@.subrange(0, i as int + 1).drop_last() =~= instrs@.subrange(0, i as int));
        }
        match decode_order(actor, &instrs[i]) {
            Ok(t) => r.push(t),
            Err(_) => {},
        }
        i = i + 1;
    }
    proof {
        assert(instrs@.subrange(0, instrs@.len() as int) =~= instrs@);
    }
    r
}

/// The orders of a tracked actor over the fetches of its recent
/// signatures, in signature order. A signature whose fetch timed out, failed
/// or found nothing is skipped, and the scan goes on with the next one.
pub fn scan_actor(actor: AccountKey, outcomes: &Vec<FetchOutcome>) -> (r: Vec<TradeRecord>)
    ensures
        r@ == scan_records(actor, outcomes@),
{
    let mut r: Vec<TradeRecord> = Vec::new();
    let mut i: usize = 0;
    while i < outcomes.len()
        invariant
            i <= outcomes@.len(),
            r@ == scan_records(actor, outcomes@.subrange(0, i as int)),
        decreases outcomes@.len() - i,
    {
        proof {
            assert(outcomes@.subrange(0, i as int + 1).drop_last() =~= outcomes@.subrange(0, i as int));
        }
        match &outcomes[i] {
            FetchOutcome::Fetched(instrs) => {
                let mut found = scan_transaction(actor, instrs);
                r.append(&mut found);
            },
            _ => {
                proof {
                    assert(r@ + Seq::<TradeRecord>::empty() =~= r@);
                }
            },
        }
        i = i + 1;
    }
    proof {
        assert(outcomes@.subrange(0, outcomes@.len() as int) =~= outcomes@);
    }
    r
}

/// Scanning a run of fetches is scanning its two parts in turn.
pub proof fn lemma_scan_split(actor: AccountKey, a: Seq<FetchOutcome>, b: Seq<FetchOutcome>)
    ensures
        scan_records(actor, a + b) == scan_records(actor, a) + scan_records(actor, b),
    decreases b.len(),
{
    if b.len() == 0 {
        assert(a + b =~= a);
        assert(scan_records(actor, a) + scan_records(actor, b) =~= scan_records(actor, a));
    } else {
        assert((a + b).drop_last() =~= a + b.drop_last());
        assert((a + b).last() == b.last());
        lemma_scan_split(actor, a, b.drop_last());
        assert(scan_records(actor, a + b) =~= scan_records(actor, a) + scan_records(actor, b));
    }
}

/// A signature whose fetch timed out contributes nothing, and the
/// signatures after it are scanned as if it were not there.
pub proof fn lemma_timeout_skipped(actor: AccountKey, before: Seq<FetchOutcome>, after: Seq<FetchOutcome>)
    ensures
        scan_records(actor, before + seq![FetchOutcome::TimedOut] + after)
            == scan_records(actor, before) + scan_records(actor, after),
{
    let t = seq![FetchOutcome::TimedOut];
    lemma_scan_split(actor, before + t, after);
    lemma_scan_split(actor, before, t);
    assert(t.drop_last() =~= Seq::<FetchOutcome>::empty());
    assert(t.last() == FetchOutcome::TimedOut);
    assert(scan_records(actor, t.drop_last()) == Seq::<TradeRecord>::empty());
    assert(outcome_records(actor, t.last()) == Seq::<TradeRecord>::empty());
    assert(scan_records(actor, t) =~= Seq::<TradeRecord>::empty());
    assert(scan_records(actor, before) + Seq::<TradeRecord>::empty() =~= scan_records(actor, before));
}

/// A copy-trade opportunity for `trade` when its quantity is in the band and
/// its market was resolved; `None` otherwise.
pub fn to_opportunity(
    trader: AccountKey,
    trade: TradeRecord,
    market: Option<Market>,
    trade_threshold: u64,
    max_trade_amount: u64,
) -> (r: Option<CopyTradeOpportunity>)
    ensures
        r == (if in_band(trade.quantity, trade_threshold, max_trade_amount) && market.is_some() {
            Some(CopyTradeOpportunity { trader, market: market.unwrap(), trade })
        } else {
            None::<CopyTradeOpportunity>
        }),
{
    if trade_threshold <= trade.quantity && trade.quantity <= max_trade_amount {
        match market {
            Some(m) => Some(CopyTradeOpportunity { trader, market: m, trade }),
            None => None,
        }
    } else {
        None
    }
}

} // verus!
