//! Opening a market on the exchange and buying from it.
use crate::dex::{
    build_initialize_market, build_new_order, initialize_market_instruction,
    new_order_instruction, OrderType, SelfTradeBehavior, Side,
};
use crate::instruction::{
    instruction_bytes, instructions_view, lemma_instruction_bytes_len, lemma_le_bytes_len,
    metas_view, readonly, writable, AccountMeta, AccountMetaView, Address, Instruction,
    InstructionView,
};
use crate::message::{
    address_count, fits_message, lemma_ordered_no_duplicates, ordered, MAX_DATA_LEN,
};
use crate::programs::{
    from_raw, into_raw, new_unique_nine, new_with_bincode, raw_metas, rent_sysvar_id,
    token_program_id, RENT_SYSVAR_ID, TOKEN_PROGRAM_ID,
};
use crate::signing::{
    is_signed, public_half, transactions_view, Keypair, SignedTransaction, TransactionView,
};
use serum_dex::error::DexError;
use vstd::prelude::*;

verus! {

/// Why a market transaction was not built.
#[derive(Debug)]
pub enum MarketError {
    /// The exchange's instruction builder failed.
    Dex(DexError),
}

/// An instruction of `program_id` that carries another instruction, encoded, as its data.
pub open spec fn carrying_instruction(
    program_id: Seq<u8>,
    inner: InstructionView,
    accounts: Seq<AccountMetaView>,
) -> InstructionView {
    InstructionView { program_id, accounts, data: instruction_bytes(inner) }
}

/// Wraps an instruction into one of `program_id` that names `accounts`.
pub fn carry_instruction(
    program_id: &Address,
    inner: Instruction,
    accounts: &Vec<AccountMeta>,
) -> (outer: Instruction)
    ensures
        outer@ == carrying_instruction(program_id@, inner@, metas_view(accounts@)),
{
    from_raw(new_with_bincode(program_id, into_raw(inner), raw_metas(accounts)))
}

/// The instruction that opens a market: the exchange's own instruction, without authorities,
/// carried by one that names every account read only and has the payer sign.
pub open spec fn init_liquidity_instruction(
    payer: Seq<u8>,
    dex_program_id: Seq<u8>,
    market: Seq<u8>,
    base_mint: Seq<u8>,
    quote_mint: Seq<u8>,
    base_vault: Seq<u8>,
    quote_vault: Seq<u8>,
    bids: Seq<u8>,
    asks: Seq<u8>,
    request_queue: Seq<u8>,
    event_queue: Seq<u8>,
    base_lot_size: u64,
    quote_lot_size: u64,
    vault_signer_nonce: u64,
    dust_threshold: u64,
) -> InstructionView {
    carrying_instruction(
        dex_program_id,
        initialize_market_instruction(
            market,
            dex_program_id,
            base_mint,
            quote_mint,
            base_vault,
            quote_vault,
            Seq::empty(),
            bids,
            asks,
            request_queue,
            event_queue,
            base_lot_size,
            quote_lot_size,
            vault_signer_nonce,
            dust_threshold,
        ),
        seq![
            readonly(market, false),
            readonly(dex_program_id, false),
            readonly(base_mint, false),
            readonly(quote_mint, false),
            readonly(base_vault, false),
            readonly(quote_vault, false),
            readonly(payer, true),
            readonly(bids, false),
            readonly(asks, false),
            readonly(request_queue, false),
            readonly(event_queue, false),
            readonly(RENT_SYSVAR_ID@, false),
            readonly(TOKEN_PROGRAM_ID@, false),
        ],
    )
}

/// Builds the instruction that opens a market.
pub fn build_init_liquidity_instruction(
    payer: &Address,
    dex_program_id: &Address,
    market_pubkey: &Address,
    base_mint: &Address,
    quote_mint: &Address,
    base_vault: &Address,
    quote_vault: &Address,
    bids_pubkey: &Address,
    asks_pubkey: &Address,
    request_queue_pubkey: &Address,
    event_queue_pubkey: &Address,
    base_lot_size: u64,
    quote_lot_size: u64,
    vault_signer_nonce: u64,
    dust_threshold: u64,
) -> (instruction: Result<Instruction, MarketError>)
    ensures
        instruction is Ok,
        instruction->Ok_0@ == init_liquidity_instruction(
            payer@,
            dex_program_id@,
            market_pubkey@,
            base_mint@,
            quote_mint@,
            base_vault@,
            quote_vault@,
            bids_pubkey@,
            asks_pubkey@,
            request_queue_pubkey@,
            event_queue_pubkey@,
            base_lot_size,
            quote_lot_size,
            vault_signer_nonce,
            dust_threshold,
        ),
{
    let mut accounts: Vec<AccountMeta> = Vec::new();
    accounts.push(AccountMeta::new_readonly(*market_pubkey, false));
    accounts.push(AccountMeta::new_readonly(*dex_program_id, false));
    accounts.push(AccountMeta::new_readonly(*base_mint, false));
    accounts.push(AccountMeta::new_readonly(*quote_mint, false));
    accounts.push(AccountMeta::new_readonly(*base_vault, false));
    accounts.push(AccountMeta::new_readonly(*quote_vault, false));
    accounts.push(AccountMeta::new_readonly(*payer, true));
    accounts.push(AccountMeta::new_readonly(*bids_pubkey, false));
    accounts.push(AccountMeta::new_readonly(*asks_pubkey, false));
    accounts.push(AccountMeta::new_readonly(*request_queue_pubkey, false));
    accounts.push(AccountMeta::new_readonly(*event_queue_pubkey, false));
    accounts.push(AccountMeta::new_readonly(rent_sysvar_id(), false));
    accounts.push(AccountMeta::new_readonly(token_program_id(), false));
    let keys: [Address; 10] = [
        *market_pubkey,
        *dex_program_id,
        *base_mint,
        *quote_mint,
        *base_vault,
        *quote_vault,
        *bids_pubkey,
        *asks_pubkey,
        *request_queue_pubkey,
        *event_queue_pubkey,
    ];
    let built = build_initialize_market(
        keys,
        None,
        None,
        None,
        base_lot_size,
        quote_lot_size,
        vault_signer_nonce,
        dust_threshold,
    );
    match built {
        Ok(raw) => {
            let outer = carry_instruction(dex_program_id, from_raw(raw), &accounts);
            assert(outer@ =~= init_liquidity_instruction(
                payer@,
                dex_program_id@,
                market_pubkey@,
                base_mint@,
                quote_mint@,
                base_vault@,
                quote_vault@,
                bids_pubkey@,
                asks_pubkey@,
                request_queue_pubkey@,
                event_queue_pubkey@,
                base_lot_size,
                quote_lot_size,
                vault_signer_nonce,
                dust_threshold,
            ));
            Ok(outer)
        },
        Err(e) => Err(MarketError::Dex(e)),
    }
}

/// One instruction fits in a message if its data fits and it names few enough accounts.
proof fn lemma_single_fits(instruction: InstructionView)
    requires
        instruction.accounts.len() < 126,
        instruction.data.len() <= MAX_DATA_LEN,
    ensures
        fits_message(seq![instruction]),
{
    reveal_with_fuel(address_count, 2);
    assert(seq![instruction].drop_last().len() == 0);
}

/// A list of one instruction has one view.
proof fn lemma_single_view(instructions: Seq<Instruction>)
    requires
        instructions.len() == 1,
    ensures
        instructions_view(instructions) == seq![instructions[0]@],
{
    assert(instructions_view(instructions) =~= seq![instructions[0]@]);
}

/// Builds and signs the transaction that opens a market.
pub fn create_init_liquidity_tx(
    payer_keypair: &Keypair,
    dex_program_id: &Address,
    market_pubkey: &Address,
    base_mint: &Address,
    quote_mint: &Address,
    base_vault: &Address,
    quote_vault: &Address,
    bids_pubkey: &Address,
    asks_pubkey: &Address,
    request_queue_pubkey: &Address,
    event_queue_pubkey: &Address,
    base_lot_size: u64,
    quote_lot_size: u64,
    vault_signer_nonce: u64,
    dust_threshold: u64,
    recent_blockhash: &Address,
) -> (transaction: Result<SignedTransaction, MarketError>)
    ensures
        transaction is Ok,
        is_signed(
            transaction->Ok_0@,
            payer_keypair@,
            recent_blockhash@,
            seq![
                init_liquidity_instruction(
                    public_half(payer_keypair@),
                    dex_program_id@,
                    market_pubkey@,
                    base_mint@,
                    quote_mint@,
                    base_vault@,
                    quote_vault@,
                    bids_pubkey@,
                    asks_pubkey@,
                    request_queue_pubkey@,
                    event_queue_pubkey@,
                    base_lot_size,
                    quote_lot_size,
                    vault_signer_nonce,
                    dust_threshold,
                ),
            ],
        ),
{
    let payer = payer_keypair.pubkey();
    let built = build_init_liquidity_instruction(
        &payer,
        dex_program_id,
        market_pubkey,
        base_mint,
        quote_mint,
        base_vault,
        quote_vault,
        bids_pubkey,
        asks_pubkey,
        request_queue_pubkey,
        event_queue_pubkey,
        base_lot_size,
        quote_lot_size,
        vault_signer_nonce,
        dust_threshold,
    );
    match built {
        Ok(instruction) => {
            let mut instructions: Vec<Instruction> = Vec::new();
            instructions.push(instruction);
            proof {
                let inner = initialize_market_instruction(
                    market_pubkey@,
                    dex_program_id@,
                    base_mint@,
                    quote_mint@,
                    base_vault@,
                    quote_vault@,
                    Seq::empty(),
                    bids_pubkey@,
                    asks_pubkey@,
                    request_queue_pubkey@,
                    event_queue_pubkey@,
                    base_lot_size,
                    quote_lot_size,
                    vault_signer_nonce,
                    dust_threshold,
                );
                lemma_le_bytes_len(0, 4);
                lemma_le_bytes_len(0, 2);
                lemma_le_bytes_len(base_lot_size as nat, 8);
                lemma_le_bytes_len(quote_lot_size as nat, 8);
                lemma_le_bytes_len(vault_signer_nonce as nat, 8);
                lemma_le_bytes_len(dust_threshold as nat, 8);
                lemma_instruction_bytes_len(inner);
                lemma_single_view(instructions@);
                lemma_single_fits(instructions@[0]@);
            }
            Ok(payer_keypair.sign(instructions, recent_blockhash))
        },
        Err(e) => Err(e),
    }
}

/// The accounts that the transaction of an order names: the market's own, writable, and then
/// the payer and the open-orders account, which both sign, and two that are only read.
pub open spec fn purchase_accounts(
    payer: Seq<u8>,
    market: Seq<u8>,
    open_orders: Seq<u8>,
    request_queue: Seq<u8>,
    event_queue: Seq<u8>,
    bids: Seq<u8>,
    asks: Seq<u8>,
    base_vault: Seq<u8>,
    quote_vault: Seq<u8>,
) -> Seq<AccountMetaView> {
    seq![
        writable(market, false),
        writable(open_orders, false),
        writable(request_queue, false),
        writable(event_queue, false),
        writable(bids, false),
        writable(asks, false),
        writable(base_vault, false),
        writable(quote_vault, false),
        readonly(payer, true),
        readonly(open_orders, true),
        readonly(TOKEN_PROGRAM_ID@, false),
        readonly(RENT_SYSVAR_ID@, false),
    ]
}

/// The instruction that places an order: the exchange's own instruction, with the payer as owner
/// of the open-orders account, carried by one that names the [`purchase_accounts`].
pub open spec fn purchase_instruction(
    payer: Seq<u8>,
    market: Seq<u8>,
    open_orders: Seq<u8>,
    request_queue: Seq<u8>,
    event_queue: Seq<u8>,
    bids: Seq<u8>,
    asks: Seq<u8>,
    base_vault: Seq<u8>,
    quote_vault: Seq<u8>,
    dex_program_id: Seq<u8>,
    side: Side,
    limit_price: u64,
    max_coin_qty: u64,
    max_native_pc_qty_including_fees: u64,
    order_type: OrderType,
    client_order_id: u64,
    self_trade_behavior: SelfTradeBehavior,
    limit: u16,
    srm_account_referral: Option<Address>,
) -> InstructionView {
    carrying_instruction(
        dex_program_id,
        new_order_instruction(
            market,
            open_orders,
            request_queue,
            event_queue,
            bids,
            asks,
            payer,
            payer,
            base_vault,
            quote_vault,
            TOKEN_PROGRAM_ID@,
            RENT_SYSVAR_ID@,
            srm_account_referral,
            dex_program_id,
            side.spec_code(),
            limit_price,
            max_coin_qty,
            order_type.spec_code(),
            client_order_id,
            self_trade_behavior.spec_code(),
            limit,
            max_native_pc_qty_including_fees,
        ),
        purchase_accounts(
            payer,
            market,
            open_orders,
            request_queue,
            event_queue,
            bids,
            asks,
            base_vault,
            quote_vault,
        ),
    )
}

/// Builds the instruction that places an order. Price and quantities are not zero.
pub fn build_purchase_instruction(
    payer: &Address,
    market_pubkey: &Address,
    open_orders_pubkey: &Address,
    request_queue_pubkey: &Address,
    event_queue_pubkey: &Address,
    bids_pubkey: &Address,
    asks_pubkey: &Address,
    base_vault: &Address,
    quote_vault: &Address,
    dex_program_id: &Address,
    side: Side,
    limit_price: u64,
    max_coin_qty: u64,
    max_native_pc_qty_including_fees: u64,
    order_type: OrderType,
    client_order_id: u64,
    self_trade_behavior: SelfTradeBehavior,
    limit: u16,
    srm_account_referral: Option<Address>,
) -> (instruction: Result<Instruction, MarketError>)
    requires
        limit_price > 0,
        max_coin_qty > 0,
        max_native_pc_qty_including_fees > 0,
    ensures
        instruction is Ok,
        instruction->Ok_0@ == purchase_instruction(
            payer@,
            market_pubkey@,
            open_orders_pubkey@,
            request_queue_pubkey@,
            event_queue_pubkey@,
            bids_pubkey@,
            asks_pubkey@,
            base_vault@,
            quote_vault@,
            dex_program_id@,
            side,
            limit_price,
            max_coin_qty,
            max_native_pc_qty_including_fees,
            order_type,
            client_order_id,
            self_trade_behavior,
            limit,
            srm_account_referral,
        ),
{
    let token_program = token_program_id();
    let rent_sysvar = rent_sysvar_id();
    let mut accounts: Vec<AccountMeta> = Vec::new();
    accounts.push(AccountMeta::new(*market_pubkey, false));
    accounts.push(AccountMeta::new(*open_orders_pubkey, false));
    accounts.push(AccountMeta::new(*request_queue_pubkey, false));
    accounts.push(AccountMeta::new(*event_queue_pubkey, false));
    accounts.push(AccountMeta::new(*bids_pubkey, false));
    accounts.push(AccountMeta::new(*asks_pubkey, false));
    accounts.push(AccountMeta::new(*base_vault, false));
    accounts.push(AccountMeta::new(*quote_vault, false));
    accounts.push(AccountMeta::new_readonly(*payer, true));
    accounts.push(AccountMeta::new_readonly(*open_orders_pubkey, true));
    accounts.push(AccountMeta::new_readonly(token_program, false));
    accounts.push(AccountMeta::new_readonly(rent_sysvar, false));
    assert(metas_view(accounts@) =~= purchase_accounts(
        payer@,
        market_pubkey@,
        open_orders_pubkey@,
        request_queue_pubkey@,
        event_queue_pubkey@,
        bids_pubkey@,
        asks_pubkey@,
        base_vault@,
        quote_vault@,
    ));
    let keys: [Address; 13] = [
        *market_pubkey,
        *open_orders_pubkey,
        *request_queue_pubkey,
        *event_queue_pubkey,
        *bids_pubkey,
        *asks_pubkey,
        *payer,
        *payer,
        *base_vault,
        *quote_vault,
        token_program,
        rent_sysvar,
        *dex_program_id,
    ];
    let built = build_new_order(
        keys,
        srm_account_referral,
        side.code(),
        limit_price,
        max_coin_qty,
        order_type.code(),
        client_order_id,
        self_trade_behavior.code(),
        limit,
        max_native_pc_qty_including_fees,
    );
    match built {
        Ok(raw) => Ok(carry_instruction(dex_program_id, from_raw(raw), &accounts)),
        Err(e) => Err(MarketError::Dex(e)),
    }
}

/// Builds and signs the transaction that places an order.
///
/// The open-orders account has to sign, and no key but the payer's is there to sign with: so the
/// open-orders account is the payer's own.
pub fn create_purchase_tx(
    payer_keypair: &Keypair,
    market_pubkey: &Address,
    open_orders_pubkey: &Address,
    request_queue_pubkey: &Address,
    event_queue_pubkey: &Address,
    bids_pubkey: &Address,
    asks_pubkey: &Address,
    base_vault: &Address,
    quote_vault: &Address,
    dex_program_id: &Address,
    side: Side,
    limit_price: u64,
    max_coin_qty: u64,
    max_native_pc_qty_including_fees: u64,
    order_type: OrderType,
    client_order_id: u64,
    self_trade_behavior: SelfTradeBehavior,
    limit: u16,
    recent_blockhash: &Address,
    srm_account_referral: Option<Address>,
) -> (transaction: Result<SignedTransaction, MarketError>)
    requires
        limit_price > 0,
        max_coin_qty > 0,
        max_native_pc_qty_including_fees > 0,
        open_orders_pubkey@ == public_half(payer_keypair@),
    ensures
        transaction is Ok,
        is_signed(
            transaction->Ok_0@,
            payer_keypair@,
            recent_blockhash@,
            seq![
                purchase_instruction(
                    public_half(payer_keypair@),
                    market_pubkey@,
                    open_orders_pubkey@,
                    request_queue_pubkey@,
                    event_queue_pubkey@,
                    bids_pubkey@,
                    asks_pubkey@,
                    base_vault@,
                    quote_vault@,
                    dex_program_id@,
                    side,
                    limit_price,
                    max_coin_qty,
                    max_native_pc_qty_including_fees,
                    order_type,
                    client_order_id,
                    self_trade_behavior,
                    limit,
                    srm_account_referral,
                ),
            ],
        ),
{
    let payer = payer_keypair.pubkey();
    let built = build_purchase_instruction(
        &payer,
        market_pubkey,
        open_orders_pubkey,
        request_queue_pubkey,
        event_queue_pubkey,
        bids_pubkey,
        asks_pubkey,
        base_vault,
        quote_vault,
        dex_program_id,
        side,
        limit_price,
        max_coin_qty,
        max_native_pc_qty_including_fees,
        order_type,
        client_order_id,
        self_trade_behavior,
        limit,
        srm_account_referral,
    );
    match built {
        Ok(instruction) => {
            let mut instructions: Vec<Instruction> = Vec::new();
            instructions.push(instruction);
            proof {
                let inner = new_order_instruction(
                    market_pubkey@,
                    open_orders_pubkey@,
                    request_queue_pubkey@,
                    event_queue_pubkey@,
                    bids_pubkey@,
                    asks_pubkey@,
                    payer@,
                    payer@,
                    base_vault@,
                    quote_vault@,
                    TOKEN_PROGRAM_ID@,
                    RENT_SYSVAR_ID@,
                    srm_account_referral,
                    dex_program_id@,
                    side.spec_code(),
                    limit_price,
                    max_coin_qty,
                    order_type.spec_code(),
                    client_order_id,
                    self_trade_behavior.spec_code(),
                    limit,
                    max_native_pc_qty_including_fees,
                );
                lemma_le_bytes_len(10, 4);
                lemma_le_bytes_len(side.spec_code() as nat, 4);
                lemma_le_bytes_len(limit_price as nat, 8);
                lemma_le_bytes_len(max_coin_qty as nat, 8);
                lemma_le_bytes_len(max_native_pc_qty_including_fees as nat, 8);
                lemma_le_bytes_len(self_trade_behavior.spec_code() as nat, 4);
                lemma_le_bytes_len(order_type.spec_code() as nat, 4);
                lemma_le_bytes_len(client_order_id as nat, 8);
                lemma_le_bytes_len(limit as nat, 2);
                lemma_instruction_bytes_len(inner);
                lemma_single_view(instructions@);
                lemma_single_fits(instructions@[0]@);
            }
            Ok(payer_keypair.sign(instructions, recent_blockhash))
        },
        Err(e) => Err(e),
    }
}

/// Lot size of the base token in a new market.
pub const BASE_LOT_SIZE: u64 = 100;

/// Lot size of the quote token in a new market.
pub const QUOTE_LOT_SIZE: u64 = 10;

/// Nonce of the vault signer of a new market.
pub const VAULT_SIGNER_NONCE: u64 = 0;

/// Dust threshold of a new market.
pub const DUST_THRESHOLD: u64 = 1000;

/// Limit price of the first order.
pub const LIMIT_PRICE: u64 = 100;

/// The most base lots that the first order buys.
pub const MAX_COIN_QTY: u64 = 1000;

/// The most quote tokens that the first order spends, fees included.
pub const MAX_NATIVE_PC_QTY_INCLUDING_FEES: u64 = 1000;

/// The client's number for the first order.
pub const CLIENT_ORDER_ID: u64 = 0;

/// How many orders the first order may match.
pub const MATCH_LIMIT: u16 = 10;

/// The accounts of a new market and of the first order on it.
#[derive(Clone, Copy, Debug, PartialEq, Eq)]
pub struct MarketKeys {
    pub market: Address,
    pub quote_mint: Address,
    pub base_vault: Address,
    pub quote_vault: Address,
    pub bids: Address,
    pub asks: Address,
    pub request_queue: Address,
    pub event_queue: Address,
    pub open_orders: Address,
}

/// An address of the counting kind: all but its first eight bytes are zero.
pub open spec fn is_counted(address: Seq<u8>) -> bool {
    forall|i: int| 8 <= i < 32 ==> #[trigger] address[i] == 0
}

/// The addresses of a new market and of the first order on it, in the order in which they are
/// drawn.
pub open spec fn market_addresses(keys: MarketKeys) -> Seq<Seq<u8>> {
    seq![
        keys.market@,
        keys.quote_mint@,
        keys.base_vault@,
        keys.quote_vault@,
        keys.bids@,
        keys.asks@,
        keys.request_queue@,
        keys.event_queue@,
        keys.open_orders@,
    ]
}

/// The addresses are nine different ones of the counting kind, each before the ones drawn later.
pub open spec fn are_fresh(keys: MarketKeys) -> bool {
    &&& market_addresses(keys).no_duplicates()
    &&& ordered(market_addresses(keys))
    &&& forall|i: int| 0 <= i < 9 ==> is_counted(#[trigger] market_addresses(keys)[i])
}

/// Nine addresses that the process has not handed out before. Which ones they are depends on how
/// many it has handed out.
pub fn fresh_market_keys() -> (keys: MarketKeys)
    ensures
        are_fresh(keys),
{
    let drawn = new_unique_nine();
    let keys = MarketKeys {
        market: drawn[0],
        quote_mint: drawn[1],
        base_vault: drawn[2],
        quote_vault: drawn[3],
        bids: drawn[4],
        asks: drawn[5],
        request_queue: drawn[6],
        event_queue: drawn[7],
        open_orders: drawn[8],
    };
    proof {
        assert(market_addresses(keys) =~= Seq::new(9, |i: int| drawn@[i]@));
        lemma_ordered_no_duplicates(market_addresses(keys));
    }
    keys
}

/// The instruction that opens a new market for `base_mint`.
pub open spec fn opening_instruction(
    payer: Seq<u8>,
    base_mint: Seq<u8>,
    dex_program_id: Seq<u8>,
    keys: MarketKeys,
) -> InstructionView {
    init_liquidity_instruction(
        payer,
        dex_program_id,
        keys.market@,
        base_mint,
        keys.quote_mint@,
        keys.base_vault@,
        keys.quote_vault@,
        keys.bids@,
        keys.asks@,
        keys.request_queue@,
        keys.event_queue@,
        BASE_LOT_SIZE,
        QUOTE_LOT_SIZE,
        VAULT_SIGNER_NONCE,
        DUST_THRESHOLD,
    )
}

/// The instruction of the first order on a new market: a limit bid without a referral.
pub open spec fn first_order_instruction(
    payer: Seq<u8>,
    dex_program_id: Seq<u8>,
    keys: MarketKeys,
) -> InstructionView {
    purchase_instruction(
        payer,
        keys.market@,
        keys.open_orders@,
        keys.request_queue@,
        keys.event_queue@,
        keys.bids@,
        keys.asks@,
        keys.base_vault@,
        keys.quote_vault@,
        dex_program_id,
        Side::Bid,
        LIMIT_PRICE,
        MAX_COIN_QTY,
        MAX_NATIVE_PC_QTY_INCLUDING_FEES,
        OrderType::Limit,
        CLIENT_ORDER_ID,
        SelfTradeBehavior::DecrementTake,
        MATCH_LIMIT,
        None,
    )
}

/// The bundle is two transactions that the payer signed: one opens the market for a token, and
/// then one buys from it.
pub open spec fn is_market_bundle(
    bundle: Seq<TransactionView>,
    keypair: Seq<u8>,
    base_mint: Seq<u8>,
    dex_program_id: Seq<u8>,
    keys: MarketKeys,
    blockhash: Seq<u8>,
) -> bool {
    let payer = public_half(keypair);
    let opening = opening_instruction(payer, base_mint, dex_program_id, keys);
    let order = first_order_instruction(payer, dex_program_id, keys);
    &&& bundle.len() == 2
    &&& is_signed(bundle[0], keypair, blockhash, seq![opening])
    &&& is_signed(bundle[1], keypair, blockhash, seq![order])
}

/// Builds the bundle that opens a market for a token and then buys from it: two transactions, in
/// this order. The open-orders account is the payer's own.
pub fn initialize_and_purchase_token(
    payer_keypair: &Keypair,
    token_mint_address: &Address,
    dex_program_id: &Address,
    keys: &MarketKeys,
    recent_blockhash: &Address,
) -> (bundle: Result<Vec<SignedTransaction>, MarketError>)
    requires
        keys.open_orders@ == public_half(payer_keypair@),
    ensures
        bundle is Ok,
        is_market_bundle(
            transactions_view(bundle->Ok_0@),
            payer_keypair@,
            token_mint_address@,
            dex_program_id@,
            *keys,
            recent_blockhash@,
        ),
{
    let opening = create_init_liquidity_tx(
        payer_keypair,
        dex_program_id,
        &keys.market,
        token_mint_address,
        &keys.quote_mint,
        &keys.base_vault,
        &keys.quote_vault,
        &keys.bids,
        &keys.asks,
        &keys.request_queue,
        &keys.event_queue,
        BASE_LOT_SIZE,
        QUOTE_LOT_SIZE,
        VAULT_SIGNER_NONCE,
        DUST_THRESHOLD,
        recent_blockhash,
    );
    let purchase = create_purchase_tx(
        payer_keypair,
        &keys.market,
        &keys.open_orders,
        &keys.request_queue,
        &keys.event_queue,
        &keys.bids,
        &keys.asks,
        &keys.base_vault,
        &keys.quote_vault,
        dex_program_id,
        Side::Bid,
        LIMIT_PRICE,
        MAX_COIN_QTY,
        MAX_NATIVE_PC_QTY_INCLUDING_FEES,
        OrderType::Limit,
        CLIENT_ORDER_ID,
        SelfTradeBehavior::DecrementTake,
        MATCH_LIMIT,
        recent_blockhash,
        None,
    );
    match (opening, purchase) {
        (Ok(opening), Ok(purchase)) => {
            let mut bundle: Vec<SignedTransaction> = Vec::new();
            bundle.push(opening);
            bundle.push(purchase);
            assert(transactions_view(bundle@) =~= seq![opening@, purchase@]);
            Ok(bundle)
        },
        (Err(e), _) => Err(e),
        (_, Err(e)) => Err(e),
    }
}

/// Whether two addresses are the same.
pub fn same_address(a: &Address, b: &Address) -> (same: bool)
    ensures
        same <==> a@ == b@,
{
    let mut i: usize = 0;
    while i < 32
        invariant
            i <= 32,
            forall|j: int| 0 <= j < i ==> a@[j] == b@[j],
        decreases 32 - i,
    {
        if a[i] != b[i] {
            assert(a@[i as int] != b@[i as int]);
            return false;
        }
        i += 1;
    }
    assert(a@ =~= b@);
    true
}

/// Builds the bundle that opens a market for a token and then buys from it. No bundle comes out
/// where the open-orders account is not the payer's own, for then nobody can sign the order.
pub fn try_initialize_and_purchase_token(
    payer_keypair: &Keypair,
    token_mint_address: &Address,
    dex_program_id: &Address,
    keys: &MarketKeys,
    recent_blockhash: &Address,
) -> (bundle: Option<Vec<SignedTransaction>>)
    ensures
        bundle is Some <==> keys.open_orders@ == public_half(payer_keypair@),
        bundle matches Some(transactions) ==> is_market_bundle(
            transactions_view(transactions@),
            payer_keypair@,
            token_mint_address@,
            dex_program_id@,
            *keys,
            recent_blockhash@,
        ),
{
    let payer = payer_keypair.pubkey();
    if !same_address(&keys.open_orders, &payer) {
        return None;
    }
    let built = initialize_and_purchase_token(
        payer_keypair,
        token_mint_address,
        dex_program_id,
        keys,
        recent_blockhash,
    );
    match built {
        Ok(transactions) => Some(transactions),
        Err(_) => None,
    }
}

/// Picks fresh addresses for a market and builds the bundle that opens it and buys from it, if
/// the picked open-orders account is the payer's own.
pub fn initialize_and_purchase_with_fresh_keys(
    payer_keypair: &Keypair,
    token_mint_address: &Address,
    dex_program_id: &Address,
    recent_blockhash: &Address,
) -> (picked: (MarketKeys, Option<Vec<SignedTransaction>>))
    ensures
        are_fresh(picked.0),
        picked.1 is Some <==> picked.0.open_orders@ == public_half(payer_keypair@),
        picked.1 matches Some(transactions) ==> is_market_bundle(
            transactions_view(transactions@),
            payer_keypair@,
            token_mint_address@,
            dex_program_id@,
            picked.0,
            recent_blockhash@,
        ),
{
    let keys = fresh_market_keys();
    let bundle = try_initialize_and_purchase_token(
        payer_keypair,
        token_mint_address,
        dex_program_id,
        &keys,
        recent_blockhash,
    );
    (keys, bundle)
}

} // verus!
