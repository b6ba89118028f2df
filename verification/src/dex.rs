//! The instructions of the exchange program: opening a market and placing an order.
use crate::instruction::{le_bytes, readonly, writable, AccountMetaView, Address, InstructionView};
use crate::programs::{raw_view, RawInstruction, RENT_SYSVAR_ID};
use serum_dex::error::DexError;
use serum_dex::instruction::{initialize_market, new_order};
use solana_sdk::pubkey::Pubkey;
use vstd::prelude::*;

verus! {

/// `serum_dex::error::DexError`, the error type of the exchange's instruction builders.
#[verifier::external_type_specification]
#[verifier::external_body]
pub struct ExDexError(DexError);

/// Which side of the book an order is on.
#[derive(Clone, Copy, Debug, PartialEq, Eq)]
pub enum Side {
    /// Buys the base token.
    Bid,
    /// Sells the base token.
    Ask,
}

impl Side {
    /// The number of this side in an encoded order.
    pub open spec fn spec_code(self) -> u8 {
        match self {
            Side::Bid => 0,
            Side::Ask => 1,
        }
    }

    /// The number of this side in an encoded order.
    pub fn code(self) -> (code: u8)
        ensures
            code == self.spec_code(),
    {
        match self {
            Side::Bid => 0,
            Side::Ask => 1,
        }
    }
}

/// How long an order stays and what it may match.
#[derive(Clone, Copy, Debug, PartialEq, Eq)]
pub enum OrderType {
    /// Matches what it can and rests on the book.
    Limit,
    /// Matches what it can and is cancelled.
    ImmediateOrCancel,
    /// Only rests on the book.
    PostOnly,
}

impl OrderType {
    /// The number of this order type in an encoded order.
    pub open spec fn spec_code(self) -> u8 {
        match self {
            OrderType::Limit => 0,
            OrderType::ImmediateOrCancel => 1,
            OrderType::PostOnly => 2,
        }
    }

    /// The number of this order type in an encoded order.
    pub fn code(self) -> (code: u8)
        ensures
            code == self.spec_code(),
    {
        match self {
            OrderType::Limit => 0,
            OrderType::ImmediateOrCancel => 1,
            OrderType::PostOnly => 2,
        }
    }
}

/// What happens when an order meets another one of the same owner.
#[derive(Clone, Copy, Debug, PartialEq, Eq)]
pub enum SelfTradeBehavior {
    /// Both orders shrink.
    DecrementTake,
    /// The resting order is cancelled.
    CancelProvide,
    /// The transaction fails.
    AbortTransaction,
}

impl SelfTradeBehavior {
    /// The number of this behavior in an encoded order.
    pub open spec fn spec_code(self) -> u8 {
        match self {
            SelfTradeBehavior::DecrementTake => 0,
            SelfTradeBehavior::CancelProvide => 1,
            SelfTradeBehavior::AbortTransaction => 2,
        }
    }

    /// The number of this behavior in an encoded order.
    pub fn code(self) -> (code: u8)
        ensures
            code == self.spec_code(),
    {
        match self {
            SelfTradeBehavior::DecrementTake => 0,
            SelfTradeBehavior::CancelProvide => 1,
            SelfTradeBehavior::AbortTransaction => 2,
        }
    }
}

/// The authorities of a new market, in order. A later one counts only behind the earlier ones.
pub open spec fn market_authorities(
    authority: Option<Address>,
    prune_authority: Option<Address>,
    consume_events_authority: Option<Address>,
) -> Seq<AccountMetaView> {
    match (authority, prune_authority, consume_events_authority) {
        (Some(a), Some(p), Some(c)) => seq![
            readonly(a@, false),
            readonly(p@, false),
            readonly(c@, false),
        ],
        (Some(a), Some(p), None) => seq![readonly(a@, false), readonly(p@, false)],
        (Some(a), None, _) => seq![readonly(a@, false)],
        (None, _, _) => Seq::empty(),
    }
}

/// The exchange's instruction to open a market: version 0, instruction 0, the two lot sizes, a
/// fee rate of 0, the nonce of the vault signer, and the dust threshold of the quote token.
pub open spec fn initialize_market_instruction(
    market: Seq<u8>,
    program_id: Seq<u8>,
    coin_mint: Seq<u8>,
    pc_mint: Seq<u8>,
    coin_vault: Seq<u8>,
    pc_vault: Seq<u8>,
    authorities: Seq<AccountMetaView>,
    bids: Seq<u8>,
    asks: Seq<u8>,
    req_q: Seq<u8>,
    event_q: Seq<u8>,
    coin_lot_size: u64,
    pc_lot_size: u64,
    vault_signer_nonce: u64,
    pc_dust_threshold: u64,
) -> InstructionView {
    InstructionView {
        program_id,
        accounts: seq![
            writable(market, false),
            writable(req_q, false),
            writable(event_q, false),
            writable(bids, false),
            writable(asks, false),
            writable(coin_vault, false),
            writable(pc_vault, false),
            readonly(coin_mint, false),
            readonly(pc_mint, false),
            readonly(RENT_SYSVAR_ID@, false),
        ] + authorities,
        data: seq![0u8] + le_bytes(0, 4) + le_bytes(coin_lot_size as nat, 8) + le_bytes(
            pc_lot_size as nat,
            8,
        ) + le_bytes(0, 2) + le_bytes(vault_signer_nonce as nat, 8) + le_bytes(
            pc_dust_threshold as nat,
            8,
        ),
    }
}

/// The exchange's instruction to place an order: version 0, instruction 10, the side, the price,
/// the two quantities, the self-trade behavior, the order type, the client's own number for the
/// order, and how many orders it may match.
pub open spec fn new_order_instruction(
    market: Seq<u8>,
    open_orders: Seq<u8>,
    request_queue: Seq<u8>,
    event_queue: Seq<u8>,
    bids: Seq<u8>,
    asks: Seq<u8>,
    order_payer: Seq<u8>,
    owner: Seq<u8>,
    coin_vault: Seq<u8>,
    pc_vault: Seq<u8>,
    token_program: Seq<u8>,
    rent_sysvar: Seq<u8>,
    referral: Option<Address>,
    program_id: Seq<u8>,
    side: u8,
    limit_price: u64,
    max_coin_qty: u64,
    order_type: u8,
    client_order_id: u64,
    self_trade_behavior: u8,
    limit: u16,
    max_native_pc_qty_including_fees: u64,
) -> InstructionView {
    InstructionView {
        program_id,
        accounts: seq![
            writable(market, false),
            writable(open_orders, false),
            writable(request_queue, false),
            writable(event_queue, false),
            writable(bids, false),
            writable(asks, false),
            writable(order_payer, false),
            readonly(owner, true),
            writable(coin_vault, false),
            writable(pc_vault, false),
            readonly(token_program, false),
            readonly(rent_sysvar, false),
        ] + match referral {
            Some(account) => seq![readonly(account@, false)],
            None => Seq::empty(),
        },
        data: seq![0u8] + le_bytes(10, 4) + le_bytes(side as nat, 4) + le_bytes(
            limit_price as nat,
            8,
        ) + le_bytes(max_coin_qty as nat, 8) + le_bytes(
            max_native_pc_qty_including_fees as nat,
            8,
        ) + le_bytes(self_trade_behavior as nat, 4) + le_bytes(order_type as nat, 4) + le_bytes(
            client_order_id as nat,
            8,
        ) + le_bytes(limit as nat, 2),
    }
}

/// `serum_dex::instruction::initialize_market`: always the instruction that
/// [`initialize_market_instruction`] describes. `keys` are market, program, the two mints, the
/// two vaults, bids, asks, request queue and event queue.
#[verifier::external_body]
pub(crate) fn build_initialize_market(
    keys: [Address; 10],
    authority: Option<Address>,
    prune_authority: Option<Address>,
    consume_events_authority: Option<Address>,
    coin_lot_size: u64,
    pc_lot_size: u64,
    vault_signer_nonce: u64,
    pc_dust_threshold: u64,
) -> (result: Result<RawInstruction, DexError>)
    ensures
        result is Ok,
        raw_view(result->Ok_0) == initialize_market_instruction(
            keys@[0]@,
            keys@[1]@,
            keys@[2]@,
            keys@[3]@,
            keys@[4]@,
            keys@[5]@,
            market_authorities(authority, prune_authority, consume_events_authority),
            keys@[6]@,
            keys@[7]@,
            keys@[8]@,
            keys@[9]@,
            coin_lot_size,
            pc_lot_size,
            vault_signer_nonce,
            pc_dust_threshold,
        ),
{
    let [market, program, coin_mint, pc_mint, coin, pc, bids, asks, req_q, event_q] =
        &keys.map(Pubkey::from);
    initialize_market(
        market, program, coin_mint, pc_mint, coin, pc, authority.map(Pubkey::from).as_ref(),
        prune_authority.map(Pubkey::from).as_ref(),
        consume_events_authority.map(Pubkey::from).as_ref(), bids, asks, req_q, event_q,
        coin_lot_size, pc_lot_size, vault_signer_nonce, pc_dust_threshold,
    ).map(|i| (
        i.program_id.to_bytes(),
        i.accounts.iter().map(|m| (m.pubkey.to_bytes(), m.is_signer, m.is_writable)).collect(),
        i.data,
    ))
}

/// `serum_dex::instruction::new_order`: always the instruction that [`new_order_instruction`]
/// describes. `keys` are market, open orders, request queue, event queue, bids, asks, order
/// payer, owner, the two vaults, token program, rent sysvar and program.
#[verifier::external_body]
pub(crate) fn build_new_order(
    keys: [Address; 13],
    referral: Option<Address>,
    side: u8,
    limit_price: u64,
    max_coin_qty: u64,
    order_type: u8,
    client_order_id: u64,
    self_trade: u8,
    limit: u16,
    max_pc: u64,
) -> (result: Result<RawInstruction, DexError>)
    requires
        side < 2,
        order_type < 3,
        self_trade < 3,
        limit_price > 0,
        max_coin_qty > 0,
        max_pc > 0,
    ensures
        result is Ok,
        raw_view(result->Ok_0) == new_order_instruction(
            keys@[0]@,
            keys@[1]@,
            keys@[2]@,
            keys@[3]@,
            keys@[4]@,
            keys@[5]@,
            keys@[6]@,
            keys@[7]@,
            keys@[8]@,
            keys@[9]@,
            keys@[10]@,
            keys@[11]@,
            referral,
            keys@[12]@,
            side,
            limit_price,
            max_coin_qty,
            order_type,
            client_order_id,
            self_trade,
            limit,
            max_pc,
        ),
{
    let [market, orders, requests, events, bids, asks, payer, owner, coin, pc, token, rent, dex] =
        &keys.map(Pubkey::from);
    new_order(
        market, orders, requests, events, bids, asks, payer, owner, coin, pc, token, rent,
        referral.map(Pubkey::from).as_ref(), dex, side.try_into().unwrap(),
        limit_price.try_into().unwrap(), max_coin_qty.try_into().unwrap(),
        order_type.try_into().unwrap(), client_order_id, self_trade.try_into().unwrap(), limit,
        max_pc.try_into().unwrap()
    ).map(|i| (
        i.program_id.to_bytes(),
        i.accounts.iter().map(|m| (m.pubkey.to_bytes(), m.is_signer, m.is_writable)).collect(),
        i.data
    ))
}

/// Bids are side 0 and asks side 1; limit orders are type 0, immediate-or-cancel 1, post-only 2;
/// and the behaviors are 0 to decrement, 1 to cancel what was there, 2 to abort.
pub proof fn law_order_codes(
    side: Side,
    order_type: OrderType,
    self_trade_behavior: SelfTradeBehavior,
    side_code: u8,
    order_type_code: u8,
    self_trade_code: u8,
)
    requires
        call_ensures(Side::code, (side,), side_code),
        call_ensures(OrderType::code, (order_type,), order_type_code),
        call_ensures(SelfTradeBehavior::code, (self_trade_behavior,), self_trade_code),
    ensures
        side is Bid <==> side_code == 0,
        side is Ask <==> side_code == 1,
        order_type is Limit <==> order_type_code == 0,
        order_type is ImmediateOrCancel <==> order_type_code == 1,
        order_type is PostOnly <==> order_type_code == 2,
        self_trade_behavior is DecrementTake <==> self_trade_code == 0,
        self_trade_behavior is CancelProvide <==> self_trade_code == 1,
        self_trade_behavior is AbortTransaction <==> self_trade_code == 2,
{
}

} // verus!
