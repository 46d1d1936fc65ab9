//! Plain-value domain model: identifiers, amounts, the DLC record and the
//! per-contract domain events.
//!
//! Every type here is `Copy` and carries whole numbers only: transactions
//! appear as their identifiers, amounts as whole dollars or satoshis, and
//! rates in basis points. The cryptographic construction of the transactions
//! themselves is outside this engine.

use vstd::prelude::*;

pub mod cfd;

verus! {

/// Unique identifier of a contract, assigned when an order is accepted.
#[derive(Clone, Copy, PartialEq, Eq, Structural, Debug)]
pub struct OrderId(pub u64);

/// Seconds since the Unix epoch.
#[derive(Clone, Copy, PartialEq, Eq, Structural, Debug)]
pub struct Timestamp(pub u64);

/// Network identity of the counterparty.
#[derive(Clone, Copy, PartialEq, Eq, Structural, Debug)]
pub struct Identity(pub u64);

/// Identifier of an on-chain transaction.
#[derive(Clone, Copy, PartialEq, Eq, Structural, Debug)]
pub struct Txid(pub u64);

/// Identifier of an oracle price announcement: the second, on a full hour,
/// at which the oracle attests to the price.
#[derive(Clone, Copy, PartialEq, Eq, Structural, Debug)]
pub struct BitMexPriceEventId(pub u64);

/// An amount in whole US dollars.
#[derive(Clone, Copy, PartialEq, Eq, Structural, Debug)]
pub struct Usd(pub u64);

/// A price in whole US dollars per Bitcoin.
#[derive(Clone, Copy, PartialEq, Eq, Structural, Debug)]
pub struct Price(pub u64);

/// A leverage multiple; always at least 1 for a well-formed contract.
#[derive(Clone, Copy, PartialEq, Eq, Structural, Debug)]
pub struct Leverage(pub u32);

/// A funding rate in basis points per 24-hour funding period.
/// Positive means the long side pays the short side.
#[derive(Clone, Copy, PartialEq, Eq, Structural, Debug)]
pub struct FundingRate(pub i32);

/// A number of contracts (one contract is one dollar of notional).
#[derive(Clone, Copy, PartialEq, Eq, Structural, Debug)]
pub struct Contracts(pub u64);

/// A fee balance in satoshis; positive means this party owes the
/// counterparty.
#[derive(Clone, Copy, PartialEq, Eq, Structural, Debug)]
pub struct Fees(pub i128);

/// Which side of the price this party's position is on.
#[derive(Clone, Copy, PartialEq, Eq, Structural, Debug)]
pub enum Position {
    Long,
    Short,
}

impl Position {
    /// The counterparty's position.
    pub fn counter_position(&self) -> (p: Position)
        ensures
            p == self.spec_counter_position(),
    {
        match self {
            Position::Long => Position::Short,
            Position::Short => Position::Long,
        }
    }

    pub open spec fn spec_counter_position(self) -> Position {
        match self {
            Position::Long => Position::Short,
            Position::Short => Position::Long,
        }
    }
}

/// The role this daemon plays for a contract.
#[derive(Clone, Copy, PartialEq, Eq, Structural, Debug)]
pub enum Role {
    Maker,
    Taker,
}

/// Whether the taker holds the long side of the contract, given this
/// party's role and position.
pub open spec fn spec_taker_is_long(role: Role, position: Position) -> bool {
    match role {
        Role::Taker => position == Position::Long,
        Role::Maker => position == Position::Short,
    }
}

/// The leverages of the long and the short side. The taker trades with the
/// agreed leverage; the maker always trades with leverage 1.
pub fn long_and_short_leverage(taker_leverage: Leverage, role: Role, position: Position) -> (r: (
    Leverage,
    Leverage,
))
    ensures
        spec_taker_is_long(role, position) ==> r == (taker_leverage, Leverage(1)),
        !spec_taker_is_long(role, position) ==> r == (Leverage(1), taker_leverage),
{
    let taker_is_long = match role {
        Role::Taker => matches!(position, Position::Long),
        Role::Maker => matches!(position, Position::Short),
    };
    if taker_is_long {
        (taker_leverage, Leverage(1))
    } else {
        (Leverage(1), taker_leverage)
    }
}

/// Satoshis in one Bitcoin.
pub const SATS_PER_BTC: u64 = 100_000_000;

/// Basis points in one whole (10_000) times hours in one funding period
/// (24): the divisor turning `margin * rate_bps * hours` into satoshis.
pub const FUNDING_FEE_DIVISOR: u64 = 240_000;

/// The stored terms cannot yield a fee.
#[derive(Clone, Copy, PartialEq, Eq, Structural, Debug)]
pub enum FeeError {
    /// A price or leverage of zero.
    InvalidTerms,
    /// The amount does not fit the fee's range.
    Overflow,
}

/// The margin a party locks up, in satoshis: notional divided by price
/// and leverage.
pub open spec fn spec_margin_sats(price: Price, quantity: Usd, leverage: Leverage) -> int {
    (quantity.0 * SATS_PER_BTC) / (price.0 * leverage.0)
}

/// The margin a party locks up, in satoshis: notional divided by price
/// and leverage.
///
/// Fails with `InvalidTerms` exactly when price or leverage is zero, and
/// with `Overflow` exactly when the margin exceeds `u64::MAX` satoshis.
pub fn margin_sats(price: Price, quantity: Usd, leverage: Leverage) -> (r: Result<u64, FeeError>)
    ensures
        price.0 == 0 || leverage.0 == 0 ==> r == Err::<u64, FeeError>(FeeError::InvalidTerms),
        price.0 > 0 && leverage.0 > 0 && spec_margin_sats(price, quantity, leverage) > u64::MAX
            ==> r == Err::<u64, FeeError>(FeeError::Overflow),
        price.0 > 0 && leverage.0 > 0 && spec_margin_sats(price, quantity, leverage) <= u64::MAX
            ==> r == Ok::<u64, FeeError>(spec_margin_sats(price, quantity, leverage) as u64),
        price.0 > 0 && leverage.0 > 0 ==> spec_margin_sats(price, quantity, leverage) >= 0,
{
    proof {
        assert(quantity.0 * SATS_PER_BTC <= u64::MAX * (SATS_PER_BTC as int)) by (nonlinear_arith)
            requires
                quantity.0 <= u64::MAX,
        ;
        assert(price.0 * leverage.0 <= u64::MAX * (u32::MAX as int)) by (nonlinear_arith)
            requires
                price.0 <= u64::MAX,
                leverage.0 <= u32::MAX,
        ;
    }
    let num: u128 = (quantity.0 as u128) * (SATS_PER_BTC as u128);
    let den: u128 = (price.0 as u128) * (leverage.0 as u128);
    if den == 0 {
        proof {
            assert(price.0 == 0 || leverage.0 == 0) by (nonlinear_arith)
                requires
                    (price.0 as int) * (leverage.0 as int) == 0,
            ;
        }
        return Err(FeeError::InvalidTerms);
    }
    proof {
        assert(price.0 > 0 && leverage.0 > 0) by (nonlinear_arith)
            requires
                (price.0 as u128) * (leverage.0 as u128) != 0,
        ;
    }
    let q = num / den;
    if q > u64::MAX as u128 {
        Err(FeeError::Overflow)
    } else {
        Ok(q as u64)
    }
}

/// The funding fee owed for one funding period: the paying side's margin
/// times the rate, prorated over the charged hours, plus which side pays.
#[derive(Clone, Copy, PartialEq, Eq, Structural, Debug)]
pub struct FundingFee {
    /// The fee amount in satoshis.
    pub sats: u64,
    /// True when the long side pays the short side (non-negative rate).
    pub long_pays: bool,
}

/// The magnitude of the funding rate, in basis points.
pub open spec fn spec_rate_abs(rate: FundingRate) -> int {
    if rate.0 >= 0 {
        rate.0 as int
    } else {
        -(rate.0 as int)
    }
}

/// The funding fee in satoshis: the payer's margin times the rate's
/// magnitude times the charged hours, divided by basis points per whole
/// and hours per funding period.
pub open spec fn spec_funding_fee_sats(
    price: Price,
    quantity: Usd,
    payer_leverage: Leverage,
    rate: FundingRate,
    hours: u32,
) -> int {
    spec_margin_sats(price, quantity, payer_leverage) * spec_rate_abs(rate) * hours
        / (FUNDING_FEE_DIVISOR as int)
}

/// Compute the initial funding fee from stored terms. The paying side is
/// the long side for a non-negative rate and the short side otherwise;
/// the payer's margin is charged.
///
/// Deterministic in its arguments; fails exactly when the payer's margin
/// cannot be computed or an amount exceeds `u64::MAX` satoshis.
pub fn funding_fee(
    price: Price,
    quantity: Usd,
    long_leverage: Leverage,
    short_leverage: Leverage,
    rate: FundingRate,
    hours: u32,
) -> (r: Result<FundingFee, FeeError>)
    ensures
        ({
            let payer_leverage = if rate.0 >= 0 {
                long_leverage
            } else {
                short_leverage
            };
            &&& (price.0 == 0 || payer_leverage.0 == 0 ==> r == Err::<FundingFee, FeeError>(
                FeeError::InvalidTerms,
            ))
            &&& (r matches Ok(f) ==> {
                &&& price.0 > 0
                &&& payer_leverage.0 > 0
                &&& spec_margin_sats(price, quantity, payer_leverage) <= u64::MAX
                &&& spec_funding_fee_sats(price, quantity, payer_leverage, rate, hours)
                    <= u64::MAX
                &&& f.sats == spec_funding_fee_sats(price, quantity, payer_leverage, rate, hours)
                &&& f.long_pays == (rate.0 >= 0)
            })
            &&& (price.0 > 0 && payer_leverage.0 > 0 && spec_margin_sats(
                price,
                quantity,
                payer_leverage,
            ) <= u64::MAX && spec_funding_fee_sats(price, quantity, payer_leverage, rate, hours)
                <= u64::MAX ==> r is Ok)
        }),
{
    let payer_leverage = if rate.0 >= 0 {
        long_leverage
    } else {
        short_leverage
    };
    let margin = match margin_sats(price, quantity, payer_leverage) {
        Ok(m) => m,
        Err(e) => {
            return Err(e);
        },
    };
    let rate_abs: u32 = if rate.0 >= 0 {
        rate.0 as u32
    } else {
        (-(rate.0 as i64)) as u32
    };
    proof {
        assert((margin as int) * (rate_abs as int) <= 0xffff_ffff_ffff_ffff * 0x8000_0000) by (
        nonlinear_arith)
            requires
                margin <= 0xffff_ffff_ffff_ffffu64,
                rate_abs <= 0x8000_0000u32,
        ;
        assert((margin as int) * (rate_abs as int) * (hours as int) <= 0xffff_ffff_ffff_ffff
            * 0x8000_0000 * 0xffff_ffff) by (nonlinear_arith)
            requires
                margin <= 0xffff_ffff_ffff_ffffu64,
                rate_abs <= 0x8000_0000u32,
                hours <= 0xffff_ffffu32,
        ;
    }
    let product: u128 = (margin as u128) * (rate_abs as u128) * (hours as u128);
    let sats = product / (FUNDING_FEE_DIVISOR as u128);
    if sats > u64::MAX as u128 {
        return Err(FeeError::Overflow);
    }
    Ok(FundingFee { sats: sats as u64, long_pays: rate.0 >= 0 })
}

/// The final fee balance of this party's account, in satoshis; positive
/// means this party owes the counterparty.
///
/// The taker owes the opening fee; the funding fee is owed by whichever
/// side the rate charges.
pub open spec fn spec_fee_balance(
    position: Position,
    role: Role,
    opening_fee_sats: u64,
    funding: FundingFee,
) -> int {
    (if role is Taker {
        opening_fee_sats as int
    } else {
        -(opening_fee_sats as int)
    }) + (if (funding.long_pays && position is Long) || (!funding.long_pays
        && position is Short) {
        funding.sats as int
    } else {
        -(funding.sats as int)
    })
}

/// Settle the opening fee and the funding fee into one balance for this
/// party.
pub fn fee_account_balance(
    position: Position,
    role: Role,
    opening_fee_sats: u64,
    funding: FundingFee,
) -> (r: Fees)
    ensures
        r.0 == spec_fee_balance(position, role, opening_fee_sats, funding),
{
    let opening: i128 = match role {
        Role::Taker => opening_fee_sats as i128,
        Role::Maker => -(opening_fee_sats as i128),
    };
    let we_pay_funding = match position {
        Position::Long => funding.long_pays,
        Position::Short => !funding.long_pays,
    };
    let funding_component: i128 = if we_pay_funding {
        funding.sats as i128
    } else {
        -(funding.sats as i128)
    };
    Fees(opening + funding_component)
}

/// The discreet-log-contract record backing an open contract, reduced to
/// the plain values the lifecycle engine reads: transaction identifiers,
/// both parties' margins, and the oracle event the settlement waits on.
/// Exactly one `Dlc` is live per open contract; a rollover replaces it
/// wholesale.
#[derive(Clone, Copy, PartialEq, Eq, Structural, Debug)]
pub struct Dlc {
    /// Transaction locking both margins into the joint output.
    pub lock_tx: Txid,
    /// Pre-signed transaction template starting unilateral closure.
    pub commit_tx: Txid,
    /// Fallback transaction returning the margins after the refund timelock.
    pub refund_tx: Txid,
    /// Oracle price event that settles this contract.
    pub settlement_event_id: BitMexPriceEventId,
    /// The maker's locked margin, in satoshis.
    pub maker_margin_sats: u64,
    /// The taker's locked margin, in satoshis.
    pub taker_margin_sats: u64,
    /// Block height after which the refund transaction becomes valid.
    pub refund_timelock: u64,
}

/// Everything that can happen to a contract, as recorded in its event log.
#[derive(Clone, Copy, PartialEq, Eq, Structural, Debug)]
pub enum EventKind {
    ContractSetupStarted,
    ContractSetupCompleted { dlc: Dlc },
    ContractSetupFailed,
    OfferRejected,
    RolloverStarted,
    RolloverAccepted,
    RolloverRejected,
    RolloverCompleted { dlc: Dlc },
    RolloverFailed,
    CollaborativeSettlementStarted { proposed_price: Price },
    CollaborativeSettlementProposalAccepted,
    CollaborativeSettlementCompleted { spend_tx: Txid, script: u64, price: Price },
    CollaborativeSettlementRejected,
    CollaborativeSettlementFailed,
    CollaborativeSettlementConfirmed,
    LockConfirmed,
    LockConfirmedAfterFinality,
    CommitConfirmed,
    CetConfirmed,
    RefundConfirmed,
    RevokeConfirmed,
    ManualCommit { tx: Txid },
    RefundTimelockExpired { refund_tx: Txid },
    CetTimelockExpiredPriorOracleAttestation,
    CetTimelockExpiredPostOracleAttestation { cet: Txid },
    OracleAttestedPriorCetTimelock { commit_tx: Option<Txid>, timelocked_cet: Txid },
    OracleAttestedPostCetTimelock { cet: Txid },
}

impl EventKind {
    /// The stable name under which this kind of event is recorded in an
    /// archived event log.
    pub open spec fn spec_name(self) -> Seq<char> {
        match self {
            EventKind::ContractSetupStarted => "ContractSetupStarted"@,
            EventKind::ContractSetupCompleted { .. } => "ContractSetupCompleted"@,
            EventKind::ContractSetupFailed => "ContractSetupFailed"@,
            EventKind::OfferRejected => "OfferRejected"@,
            EventKind::RolloverStarted => "RolloverStarted"@,
            EventKind::RolloverAccepted => "RolloverAccepted"@,
            EventKind::RolloverRejected => "RolloverRejected"@,
            EventKind::RolloverCompleted { .. } => "RolloverCompleted"@,
            EventKind::RolloverFailed => "RolloverFailed"@,
            EventKind::CollaborativeSettlementStarted { .. } => "CollaborativeSettlementStarted"@,
            EventKind::CollaborativeSettlementProposalAccepted => "CollaborativeSettlementProposalAccepted"@,
            EventKind::CollaborativeSettlementCompleted { .. } => "CollaborativeSettlementCompleted"@,
            EventKind::CollaborativeSettlementRejected => "CollaborativeSettlementRejected"@,
            EventKind::CollaborativeSettlementFailed => "CollaborativeSettlementFailed"@,
            EventKind::CollaborativeSettlementConfirmed => "CollaborativeSettlementConfirmed"@,
            EventKind::LockConfirmed => "LockConfirmed"@,
            EventKind::LockConfirmedAfterFinality => "LockConfirmedAfterFinality"@,
            EventKind::CommitConfirmed => "CommitConfirmed"@,
            EventKind::CetConfirmed => "CetConfirmed"@,
            EventKind::RefundConfirmed => "RefundConfirmed"@,
            EventKind::RevokeConfirmed => "RevokeConfirmed"@,
            EventKind::ManualCommit { .. } => "ManualCommit"@,
            EventKind::RefundTimelockExpired { .. } => "RefundTimelockExpired"@,
            EventKind::CetTimelockExpiredPriorOracleAttestation => "CetTimelockExpiredPriorOracleAttestation"@,
            EventKind::CetTimelockExpiredPostOracleAttestation { .. } => "CetTimelockExpiredPostOracleAttestation"@,
            EventKind::OracleAttestedPriorCetTimelock { .. } => "OracleAttestedPriorCetTimelock"@,
            EventKind::OracleAttestedPostCetTimelock { .. } => "OracleAttestedPostCetTimelock"@,
        }
    }

    /// The stable name under which this kind of event is recorded in an
    /// archived event log.
    pub fn name(&self) -> (s: String)
        ensures
            s@ == self.spec_name(),
    {
        match self {
            EventKind::ContractSetupStarted => String::from_str("ContractSetupStarted"),
            EventKind::ContractSetupCompleted { .. } => String::from_str("ContractSetupCompleted"),
            EventKind::ContractSetupFailed => String::from_str("ContractSetupFailed"),
            EventKind::OfferRejected => String::from_str("OfferRejected"),
            EventKind::RolloverStarted => String::from_str("RolloverStarted"),
            EventKind::RolloverAccepted => String::from_str("RolloverAccepted"),
            EventKind::RolloverRejected => String::from_str("RolloverRejected"),
            EventKind::RolloverCompleted { .. } => String::from_str("RolloverCompleted"),
            EventKind::RolloverFailed => String::from_str("RolloverFailed"),
            EventKind::CollaborativeSettlementStarted { .. } => String::from_str(
                "CollaborativeSettlementStarted",
            ),
            EventKind::CollaborativeSettlementProposalAccepted => String::from_str(
                "CollaborativeSettlementProposalAccepted",
            ),
            EventKind::CollaborativeSettlementCompleted { .. } => String::from_str(
                "CollaborativeSettlementCompleted",
            ),
            EventKind::CollaborativeSettlementRejected => String::from_str(
                "CollaborativeSettlementRejected",
            ),
            EventKind::CollaborativeSettlementFailed => String::from_str(
                "CollaborativeSettlementFailed",
            ),
            EventKind::CollaborativeSettlementConfirmed => String::from_str(
                "CollaborativeSettlementConfirmed",
            ),
            EventKind::LockConfirmed => String::from_str("LockConfirmed"),
            EventKind::LockConfirmedAfterFinality => String::from_str("LockConfirmedAfterFinality"),
            EventKind::CommitConfirmed => String::from_str("CommitConfirmed"),
            EventKind::CetConfirmed => String::from_str("CetConfirmed"),
            EventKind::RefundConfirmed => String::from_str("RefundConfirmed"),
            EventKind::RevokeConfirmed => String::from_str("RevokeConfirmed"),
            EventKind::ManualCommit { .. } => String::from_str("ManualCommit"),
            EventKind::RefundTimelockExpired { .. } => String::from_str("RefundTimelockExpired"),
            EventKind::CetTimelockExpiredPriorOracleAttestation => String::from_str(
                "CetTimelockExpiredPriorOracleAttestation",
            ),
            EventKind::CetTimelockExpiredPostOracleAttestation { .. } => String::from_str(
                "CetTimelockExpiredPostOracleAttestation",
            ),
            EventKind::OracleAttestedPriorCetTimelock { .. } => String::from_str(
                "OracleAttestedPriorCetTimelock",
            ),
            EventKind::OracleAttestedPostCetTimelock { .. } => String::from_str(
                "OracleAttestedPostCetTimelock",
            ),
        }
    }
}

/// A domain event: something that happened to one contract at one time.
/// Events are immutable once persisted.
#[derive(Clone, Copy, PartialEq, Eq, Structural, Debug)]
pub struct CfdEvent {
    pub timestamp: Timestamp,
    pub id: OrderId,
    pub event: EventKind,
}

impl CfdEvent {
    pub fn new(timestamp: Timestamp, id: OrderId, event: EventKind) -> (e: CfdEvent)
        ensures
            e == (CfdEvent { timestamp, id, event }),
    {
        CfdEvent { timestamp, id, event }
    }
}

} // verus!
