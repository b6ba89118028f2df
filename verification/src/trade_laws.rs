//! What the transactions of a market say, read from the bytes that are signed: every account and
//! every number that was asked for stands in its own place.
use crate::dex::{
    initialize_market_instruction, new_order_instruction, OrderType, SelfTradeBehavior, Side,
};
use crate::instruction::{
    law_view_well_formed, le_bytes, metas_view, readonly, writable, AccountMeta, Address,
    Instruction, InstructionView,
};
use crate::market::{
    are_fresh, build_init_liquidity_instruction, build_purchase_instruction,
    carry_instruction, create_init_liquidity_tx, create_purchase_tx, first_order_instruction,
    fresh_market_keys, init_liquidity_instruction, initialize_and_purchase_token,
    initialize_and_purchase_with_fresh_keys, is_counted, is_market_bundle, market_addresses,
    opening_instruction, purchase_accounts, purchase_instruction, same_address,
    try_initialize_and_purchase_token, MarketError, MarketKeys,
};
use crate::market_laws::{law_opening_changes_only_payer, lemma_single_names};
use crate::message::{compact_len, may_write, message_says, names_writable, precedes};
use crate::programs::{RENT_SYSVAR_ID, TOKEN_PROGRAM_ID};
use crate::reading::{
    call_account, calls_start, carried_account, carried_flags, law_carried_reads_back, le_number,
    lemma_le_number_widths, lemma_message_front, lemma_single_call, listed, named_at,
};
use crate::signing::{
    ed25519_signature, law_signed_transaction_is_fixed, lemma_keypair_len, public_half,
    transactions_view, Keypair, SignedTransaction,
};
use crate::text::big_endian;
use vstd::prelude::*;

verus! {

/// The numbers of an order, read from the data of the exchange's instruction.
proof fn lemma_order_data(
    data: Seq<u8>,
    side: u8,
    limit_price: u64,
    max_coin_qty: u64,
    max_native_pc_qty_including_fees: u64,
    self_trade_behavior: u8,
    order_type: u8,
    client_order_id: u64,
    limit: u16,
)
    requires
        data == seq![0u8] + le_bytes(10, 4) + le_bytes(side as nat, 4) + le_bytes(
            limit_price as nat,
            8,
        ) + le_bytes(max_coin_qty as nat, 8) + le_bytes(
            max_native_pc_qty_including_fees as nat,
            8,
        ) + le_bytes(self_trade_behavior as nat, 4) + le_bytes(order_type as nat, 4) + le_bytes(
            client_order_id as nat,
            8,
        ) + le_bytes(limit as nat, 2),
    ensures
        data.len() == 51,
        data[0] == 0,
        le_number(data.subrange(1, 5)) == 10,
        le_number(data.subrange(5, 9)) == side,
        le_number(data.subrange(9, 17)) == limit_price,
        le_number(data.subrange(17, 25)) == max_coin_qty,
        le_number(data.subrange(25, 33)) == max_native_pc_qty_including_fees,
        le_number(data.subrange(33, 37)) == self_trade_behavior,
        le_number(data.subrange(37, 41)) == order_type,
        le_number(data.subrange(41, 49)) == client_order_id,
        le_number(data.subrange(49, 51)) == limit,
{
    lemma_le_number_widths();
    assert(le_number(le_bytes(10u8 as nat, 4)) == 10);
    assert(data.subrange(1, 5) =~= le_bytes(10, 4));
    assert(data.subrange(5, 9) =~= le_bytes(side as nat, 4));
    assert(data.subrange(9, 17) =~= le_bytes(limit_price as nat, 8));
    assert(data.subrange(17, 25) =~= le_bytes(max_coin_qty as nat, 8));
    assert(data.subrange(25, 33) =~= le_bytes(max_native_pc_qty_including_fees as nat, 8));
    assert(data.subrange(33, 37) =~= le_bytes(self_trade_behavior as nat, 4));
    assert(data.subrange(37, 41) =~= le_bytes(order_type as nat, 4));
    assert(data.subrange(41, 49) =~= le_bytes(client_order_id as nat, 8));
    assert(data.subrange(49, 51) =~= le_bytes(limit as nat, 2));
}

/// The numbers of a new market, read from the data of the exchange's instruction.
proof fn lemma_opening_data(
    data: Seq<u8>,
    base_lot_size: u64,
    quote_lot_size: u64,
    vault_signer_nonce: u64,
    dust_threshold: u64,
)
    requires
        data == seq![0u8] + le_bytes(0, 4) + le_bytes(base_lot_size as nat, 8) + le_bytes(
            quote_lot_size as nat,
            8,
        ) + le_bytes(0, 2) + le_bytes(vault_signer_nonce as nat, 8) + le_bytes(
            dust_threshold as nat,
            8,
        ),
    ensures
        data.len() == 39,
        data[0] == 0,
        le_number(data.subrange(1, 5)) == 0,
        le_number(data.subrange(5, 13)) == base_lot_size,
        le_number(data.subrange(13, 21)) == quote_lot_size,
        le_number(data.subrange(21, 23)) == 0,
        le_number(data.subrange(23, 31)) == vault_signer_nonce,
        le_number(data.subrange(31, 39)) == dust_threshold,
{
    lemma_le_number_widths();
    assert(le_number(le_bytes(0u8 as nat, 4)) == 0);
    assert(le_number(le_bytes(0u16 as nat, 2)) == 0);
    assert(data.subrange(1, 5) =~= le_bytes(0, 4));
    assert(data.subrange(5, 13) =~= le_bytes(base_lot_size as nat, 8));
    assert(data.subrange(13, 21) =~= le_bytes(quote_lot_size as nat, 8));
    assert(data.subrange(21, 23) =~= le_bytes(0, 2));
    assert(data.subrange(23, 31) =~= le_bytes(vault_signer_nonce as nat, 8));
    assert(data.subrange(31, 39) =~= le_bytes(dust_threshold as nat, 8));
}

/// What an order carries, read from the bytes.
proof fn lemma_order_carried(
    carried: Seq<u8>,
    payer: Seq<u8>,
    market: Seq<u8>,
    open_orders: Seq<u8>,
    request_queue: Seq<u8>,
    event_queue: Seq<u8>,
    bids: Seq<u8>,
    asks: Seq<u8>,
    base_vault: Seq<u8>,
    quote_vault: Seq<u8>,
    dex_program_id: Seq<u8>,
    side: Side,
    limit_price: u64,
    max_coin_qty: u64,
    max_native_pc_qty_including_fees: u64,
    order_type: OrderType,
    client_order_id: u64,
    self_trade_behavior: SelfTradeBehavior,
    limit: u16,
    srm_account_referral: Option<Address>,
)
    requires
        payer.len() == 32,
        market.len() == 32,
        open_orders.len() == 32,
        request_queue.len() == 32,
        event_queue.len() == 32,
        bids.len() == 32,
        asks.len() == 32,
        base_vault.len() == 32,
        quote_vault.len() == 32,
        dex_program_id.len() == 32,
        carried == purchase_instruction(
            payer,
            market,
            open_orders,
            request_queue,
            event_queue,
            bids,
            asks,
            base_vault,
            quote_vault,
            dex_program_id,
            side,
            limit_price,
            max_coin_qty,
            max_native_pc_qty_including_fees,
            order_type,
            client_order_id,
            self_trade_behavior,
            limit,
            srm_account_referral,
        ).data,
    ensures
        ({
            let count = if srm_account_referral is Some {
                13int
            } else {
                12int
            };
            let data = carried.skip(48 + 34 * count);
            &&& carried.len() == 99 + 34 * count
            &&& carried.take(32) == dex_program_id
            &&& le_number(carried.subrange(32, 40)) == count
            &&& carried_account(carried, 0) == market
            &&& carried_account(carried, 1) == open_orders
            &&& carried_account(carried, 2) == request_queue
            &&& carried_account(carried, 3) == event_queue
            &&& carried_account(carried, 4) == bids
            &&& carried_account(carried, 5) == asks
            &&& carried_account(carried, 6) == payer
            &&& carried_account(carried, 7) == payer
            &&& carried_account(carried, 8) == base_vault
            &&& carried_account(carried, 9) == quote_vault
            &&& carried_account(carried, 10) == TOKEN_PROGRAM_ID@
            &&& carried_account(carried, 11) == RENT_SYSVAR_ID@
            &&& carried_flags(carried, 0) == (0u8, 1u8)
            &&& carried_flags(carried, 1) == (0u8, 1u8)
            &&& carried_flags(carried, 2) == (0u8, 1u8)
            &&& carried_flags(carried, 3) == (0u8, 1u8)
            &&& carried_flags(carried, 4) == (0u8, 1u8)
            &&& carried_flags(carried, 5) == (0u8, 1u8)
            &&& carried_flags(carried, 6) == (0u8, 1u8)
            &&& carried_flags(carried, 7) == (1u8, 0u8)
            &&& carried_flags(carried, 8) == (0u8, 1u8)
            &&& carried_flags(carried, 9) == (0u8, 1u8)
            &&& carried_flags(carried, 10) == (0u8, 0u8)
            &&& carried_flags(carried, 11) == (0u8, 0u8)
            &&& srm_account_referral matches Some(referral) ==> carried_account(carried, 12)
                == referral@ && carried_flags(carried, 12) == (0u8, 0u8)
            &&& le_number(carried.subrange(40 + 34 * count, 48 + 34 * count)) == 51
            &&& data.len() == 51
            &&& data[0] == 0
            &&& le_number(data.subrange(1, 5)) == 10
            &&& le_number(data.subrange(5, 9)) == (match side {
                Side::Bid => 0nat,
                Side::Ask => 1nat,
            })
            &&& le_number(data.subrange(9, 17)) == limit_price
            &&& le_number(data.subrange(17, 25)) == max_coin_qty
            &&& le_number(data.subrange(25, 33)) == max_native_pc_qty_including_fees
            &&& le_number(data.subrange(33, 37)) == (match self_trade_behavior {
                SelfTradeBehavior::DecrementTake => 0nat,
                SelfTradeBehavior::CancelProvide => 1nat,
                SelfTradeBehavior::AbortTransaction => 2nat,
            })
            &&& le_number(data.subrange(37, 41)) == (match order_type {
                OrderType::Limit => 0nat,
                OrderType::ImmediateOrCancel => 1nat,
                OrderType::PostOnly => 2nat,
            })
            &&& le_number(data.subrange(41, 49)) == client_order_id
            &&& le_number(data.subrange(49, 51)) == limit
        }),
{
    let inner = new_order_instruction(
        market,
        open_orders,
        request_queue,
        event_queue,
        bids,
        asks,
        payer,
        payer,
        base_vault,
        quote_vault,
        TOKEN_PROGRAM_ID@,
        RENT_SYSVAR_ID@,
        srm_account_referral,
        dex_program_id,
        side.spec_code(),
        limit_price,
        max_coin_qty,
        order_type.spec_code(),
        client_order_id,
        self_trade_behavior.spec_code(),
        limit,
        max_native_pc_qty_including_fees,
    );
    lemma_order_data(
        inner.data,
        side.spec_code(),
        limit_price,
        max_coin_qty,
        max_native_pc_qty_including_fees,
        self_trade_behavior.spec_code(),
        order_type.spec_code(),
        client_order_id,
        limit,
    );
    law_carried_reads_back(inner);
    assert(inner.accounts.len() == if srm_account_referral is Some { 13int } else { 12int });
}

/// What the opening of a market carries, read from the bytes.
proof fn lemma_opening_carried(
    carried: Seq<u8>,
    payer: Seq<u8>,
    dex_program_id: Seq<u8>,
    market: Seq<u8>,
    base_mint: Seq<u8>,
    quote_mint: Seq<u8>,
    base_vault: Seq<u8>,
    quote_vault: Seq<u8>,
    bids: Seq<u8>,
    asks: Seq<u8>,
    request_queue: Seq<u8>,
    event_queue: Seq<u8>,
    base_lot_size: u64,
    quote_lot_size: u64,
    vault_signer_nonce: u64,
    dust_threshold: u64,
)
    requires
        payer.len() == 32,
        dex_program_id.len() == 32,
        market.len() == 32,
        base_mint.len() == 32,
        quote_mint.len() == 32,
        base_vault.len() == 32,
        quote_vault.len() == 32,
        bids.len() == 32,
        asks.len() == 32,
        request_queue.len() == 32,
        event_queue.len() == 32,
        carried == init_liquidity_instruction(
            payer,
            dex_program_id,
            market,
            base_mint,
            quote_mint,
            base_vault,
            quote_vault,
            bids,
            asks,
            request_queue,
            event_queue,
            base_lot_size,
            quote_lot_size,
            vault_signer_nonce,
            dust_threshold,
        ).data,
    ensures
        ({
            let data = carried.skip(388);
            &&& carried.len() == 427
            &&& carried.take(32) == dex_program_id
            &&& le_number(carried.subrange(32, 40)) == 10
            &&& carried_account(carried, 0) == market
            &&& carried_account(carried, 1) == request_queue
            &&& carried_account(carried, 2) == event_queue
            &&& carried_account(carried, 3) == bids
            &&& carried_account(carried, 4) == asks
            &&& carried_account(carried, 5) == base_vault
            &&& carried_account(carried, 6) == quote_vault
            &&& carried_account(carried, 7) == base_mint
            &&& carried_account(carried, 8) == quote_mint
            &&& carried_account(carried, 9) == RENT_SYSVAR_ID@
            &&& carried_flags(carried, 0) == (0u8, 1u8)
            &&& carried_flags(carried, 1) == (0u8, 1u8)
            &&& carried_flags(carried, 2) == (0u8, 1u8)
            &&& carried_flags(carried, 3) == (0u8, 1u8)
            &&& carried_flags(carried, 4) == (0u8, 1u8)
            &&& carried_flags(carried, 5) == (0u8, 1u8)
            &&& carried_flags(carried, 6) == (0u8, 1u8)
            &&& carried_flags(carried, 7) == (0u8, 0u8)
            &&& carried_flags(carried, 8) == (0u8, 0u8)
            &&& carried_flags(carried, 9) == (0u8, 0u8)
            &&& le_number(carried.subrange(380, 388)) == 39
            &&& data.len() == 39
            &&& data[0] == 0
            &&& le_number(data.subrange(1, 5)) == 0
            &&& le_number(data.subrange(5, 13)) == base_lot_size
            &&& le_number(data.subrange(13, 21)) == quote_lot_size
            &&& le_number(data.subrange(21, 23)) == 0
            &&& le_number(data.subrange(23, 31)) == vault_signer_nonce
            &&& le_number(data.subrange(31, 39)) == dust_threshold
        }),
{
    let inner = initialize_market_instruction(
        market,
        dex_program_id,
        base_mint,
        quote_mint,
        base_vault,
        quote_vault,
        Seq::empty(),
        bids,
        asks,
        request_queue,
        event_queue,
        base_lot_size,
        quote_lot_size,
        vault_signer_nonce,
        dust_threshold,
    );
    lemma_opening_data(
        inner.data,
        base_lot_size,
        quote_lot_size,
        vault_signer_nonce,
        dust_threshold,
    );
    law_carried_reads_back(inner);
    assert(inner.accounts.len() == 10);
}

/// What the message of an order says, read from the bytes.
#[verifier::spinoff_prover]
#[verifier::rlimit(40)]
proof fn lemma_order_message(
    message: Seq<u8>,
    blockhash: Seq<u8>,
    payer: Seq<u8>,
    market: Seq<u8>,
    open_orders: Seq<u8>,
    request_queue: Seq<u8>,
    event_queue: Seq<u8>,
    bids: Seq<u8>,
    asks: Seq<u8>,
    base_vault: Seq<u8>,
    quote_vault: Seq<u8>,
    dex_program_id: Seq<u8>,
    side: Side,
    limit_price: u64,
    max_coin_qty: u64,
    max_native_pc_qty_including_fees: u64,
    order_type: OrderType,
    client_order_id: u64,
    self_trade_behavior: SelfTradeBehavior,
    limit: u16,
    srm_account_referral: Option<Address>,
)
    requires
        blockhash.len() == 32,
        payer.len() == 32,
        market.len() == 32,
        open_orders.len() == 32,
        request_queue.len() == 32,
        event_queue.len() == 32,
        bids.len() == 32,
        asks.len() == 32,
        base_vault.len() == 32,
        quote_vault.len() == 32,
        dex_program_id.len() == 32,
        message_says(
            message,
            payer,
            blockhash,
            seq![
                purchase_instruction(
                    payer,
                    market,
                    open_orders,
                    request_queue,
                    event_queue,
                    bids,
                    asks,
                    base_vault,
                    quote_vault,
                    dex_program_id,
                    side,
                    limit_price,
                    max_coin_qty,
                    max_native_pc_qty_including_fees,
                    order_type,
                    client_order_id,
                    self_trade_behavior,
                    limit,
                    srm_account_referral,
                ),
            ],
        ),
    ensures
        ({
            let at = calls_start(message);
            let count = if srm_account_referral is Some {
                13int
            } else {
                12int
            };
            &&& message[0] == 1
            &&& message[1] == 0
            &&& listed(message, 0) == payer
            &&& message.subrange(at - 32, at) == blockhash
            &&& message[at] == 1
            &&& named_at(message, at + 1) == dex_program_id
            &&& message[at + 2] == 12
            &&& call_account(message, 0) == market
            &&& call_account(message, 1) == open_orders
            &&& call_account(message, 2) == request_queue
            &&& call_account(message, 3) == event_queue
            &&& call_account(message, 4) == bids
            &&& call_account(message, 5) == asks
            &&& call_account(message, 6) == base_vault
            &&& call_account(message, 7) == quote_vault
            &&& call_account(message, 8) == payer
            &&& call_account(message, 9) == open_orders
            &&& call_account(message, 10) == TOKEN_PROGRAM_ID@
            &&& call_account(message, 11) == RENT_SYSVAR_ID@
            &&& forall|i: int|
                0 <= i < message[3] ==> (i < message[3] - message[2] <==> seq![
                    payer,
                    market,
                    open_orders,
                    request_queue,
                    event_queue,
                    bids,
                    asks,
                    base_vault,
                    quote_vault,
                ].contains(#[trigger] listed(message, i)))
            &&& message.len() == at + 17 + 99 + 34 * count
        }),
        ({
            let count = if srm_account_referral is Some {
                13int
            } else {
                12int
            };
            message.skip(message.len() - 99 - 34 * count) == purchase_instruction(
                payer,
                market,
                open_orders,
                request_queue,
                event_queue,
                bids,
                asks,
                base_vault,
                quote_vault,
                dex_program_id,
                side,
                limit_price,
                max_coin_qty,
                max_native_pc_qty_including_fees,
                order_type,
                client_order_id,
                self_trade_behavior,
                limit,
                srm_account_referral,
            ).data
        }),
{
    let instruction = purchase_instruction(
        payer,
        market,
        open_orders,
        request_queue,
        event_queue,
        bids,
        asks,
        base_vault,
        quote_vault,
        dex_program_id,
        side,
        limit_price,
        max_coin_qty,
        max_native_pc_qty_including_fees,
        order_type,
        client_order_id,
        self_trade_behavior,
        limit,
        srm_account_referral,
    );
    let count = if srm_account_referral is Some {
                13int
            } else {
                12int
            };
    assert(instruction.data.len() == 99 + 34 * count) by {
        lemma_order_carried(
            instruction.data,
            payer,
            market,
            open_orders,
            request_queue,
            event_queue,
            bids,
            asks,
            base_vault,
            quote_vault,
            dex_program_id,
            side,
            limit_price,
            max_coin_qty,
            max_native_pc_qty_including_fees,
            order_type,
            client_order_id,
            self_trade_behavior,
            limit,
            srm_account_referral,
        );
    }
    lemma_single_call(message, payer, blockhash, instruction);
    assert(compact_len(instruction.data.len()).len() == 2);
    let keys = lemma_message_front(message, payer, blockhash, seq![instruction]);
    let accounts = instruction.accounts;
    assert(accounts[0].pubkey == market);
    assert(accounts[1].pubkey == open_orders);
    assert(accounts[2].pubkey == request_queue);
    assert(accounts[3].pubkey == event_queue);
    assert(accounts[4].pubkey == bids);
    assert(accounts[5].pubkey == asks);
    assert(accounts[6].pubkey == base_vault);
    assert(accounts[7].pubkey == quote_vault);
    assert(accounts[8].pubkey == payer);
    assert(accounts[9].pubkey == open_orders);
    assert(accounts[10].pubkey == TOKEN_PROGRAM_ID@);
    assert(accounts[11].pubkey == RENT_SYSVAR_ID@);
    lemma_order_writable(
        message,
        blockhash,
        payer,
        market,
        open_orders,
        request_queue,
        event_queue,
        bids,
        asks,
        base_vault,
        quote_vault,
        dex_program_id,
        side,
        limit_price,
        max_coin_qty,
        max_native_pc_qty_including_fees,
        order_type,
        client_order_id,
        self_trade_behavior,
        limit,
        srm_account_referral,
    );
}

/// Which of the accounts that the message of an order lists may be changed.
proof fn lemma_order_writable(
    message: Seq<u8>,
    blockhash: Seq<u8>,
    payer: Seq<u8>,
    market: Seq<u8>,
    open_orders: Seq<u8>,
    request_queue: Seq<u8>,
    event_queue: Seq<u8>,
    bids: Seq<u8>,
    asks: Seq<u8>,
    base_vault: Seq<u8>,
    quote_vault: Seq<u8>,
    dex_program_id: Seq<u8>,
    side: Side,
    limit_price: u64,
    max_coin_qty: u64,
    max_native_pc_qty_including_fees: u64,
    order_type: OrderType,
    client_order_id: u64,
    self_trade_behavior: SelfTradeBehavior,
    limit: u16,
    srm_account_referral: Option<Address>,
)
    requires
        blockhash.len() == 32,
        message_says(
            message,
            payer,
            blockhash,
            seq![
                purchase_instruction(
                    payer,
                    market,
                    open_orders,
                    request_queue,
                    event_queue,
                    bids,
                    asks,
                    base_vault,
                    quote_vault,
                    dex_program_id,
                    side,
                    limit_price,
                    max_coin_qty,
                    max_native_pc_qty_including_fees,
                    order_type,
                    client_order_id,
                    self_trade_behavior,
                    limit,
                    srm_account_referral,
                ),
            ],
        ),
    ensures
        forall|i: int|
                0 <= i < message[3] ==> (i < message[3] - message[2] <==> seq![
                    payer,
                    market,
                    open_orders,
                    request_queue,
                    event_queue,
                    bids,
                    asks,
                    base_vault,
                    quote_vault,
                ].contains(#[trigger] listed(message, i))),
{
    let instruction = purchase_instruction(
        payer,
        market,
        open_orders,
        request_queue,
        event_queue,
        bids,
        asks,
        base_vault,
        quote_vault,
        dex_program_id,
        side,
        limit_price,
        max_coin_qty,
        max_native_pc_qty_including_fees,
        order_type,
        client_order_id,
        self_trade_behavior,
        limit,
        srm_account_referral,
    );
    let keys = lemma_message_front(message, payer, blockhash, seq![instruction]);
    let changed = seq![
        payer,
        market,
        open_orders,
        request_queue,
        event_queue,
        bids,
        asks,
        base_vault,
        quote_vault,
    ];
    assert forall|i: int| 0 <= i < message[3] implies (i < message[3] - message[2]
        <==> changed.contains(#[trigger] listed(message, i))) by {
        assert(listed(message, i) == keys[i]);
        lemma_order_changes(
            instruction,
            payer,
            market,
            open_orders,
            request_queue,
            event_queue,
            bids,
            asks,
            base_vault,
            quote_vault,
            keys[i],
        );
    }
}

/// Which accounts an order may change: the payer's, and those named first, up to the vaults.
proof fn lemma_order_changes(
    instruction: InstructionView,
    payer: Seq<u8>,
    market: Seq<u8>,
    open_orders: Seq<u8>,
    request_queue: Seq<u8>,
    event_queue: Seq<u8>,
    bids: Seq<u8>,
    asks: Seq<u8>,
    base_vault: Seq<u8>,
    quote_vault: Seq<u8>,
    key: Seq<u8>,
)
    requires
        instruction.accounts == purchase_accounts(
            payer,
            market,
            open_orders,
            request_queue,
            event_queue,
            bids,
            asks,
            base_vault,
            quote_vault,
        ),
    ensures
        may_write(payer, seq![instruction], key) <==> seq![
            payer,
            market,
            open_orders,
            request_queue,
            event_queue,
            bids,
            asks,
            base_vault,
            quote_vault,
        ].contains(key),
{
    let accounts = instruction.accounts;
    let changed = seq![
        payer,
        market,
        open_orders,
        request_queue,
        event_queue,
        bids,
        asks,
        base_vault,
        quote_vault,
    ];
    lemma_single_names(instruction, key);
    assert(changed[0] == payer);
    if names_writable(instruction, key) {
        let j = choose|j: int|
            0 <= j < accounts.len() && (#[trigger] accounts[j]).pubkey == key
                && accounts[j].is_writable;
        assert(j < 8);
        assert(changed[j + 1] == key);
    }
    if changed.contains(key) && key != payer {
        let j = choose|j: int| 0 <= j < changed.len() && changed[j] == key;
        assert(j > 0);
        assert(accounts[j - 1].pubkey == key && accounts[j - 1].is_writable);
    }
}

/// What the message that opens a market says, read from the bytes.
#[verifier::spinoff_prover]
#[verifier::rlimit(40)]
proof fn lemma_opening_message(
    message: Seq<u8>,
    blockhash: Seq<u8>,
    payer: Seq<u8>,
    dex_program_id: Seq<u8>,
    market: Seq<u8>,
    base_mint: Seq<u8>,
    quote_mint: Seq<u8>,
    base_vault: Seq<u8>,
    quote_vault: Seq<u8>,
    bids: Seq<u8>,
    asks: Seq<u8>,
    request_queue: Seq<u8>,
    event_queue: Seq<u8>,
    base_lot_size: u64,
    quote_lot_size: u64,
    vault_signer_nonce: u64,
    dust_threshold: u64,
)
    requires
        blockhash.len() == 32,
        payer.len() == 32,
        dex_program_id.len() == 32,
        market.len() == 32,
        base_mint.len() == 32,
        quote_mint.len() == 32,
        base_vault.len() == 32,
        quote_vault.len() == 32,
        bids.len() == 32,
        asks.len() == 32,
        request_queue.len() == 32,
        event_queue.len() == 32,
        message_says(
            message,
            payer,
            blockhash,
            seq![
                init_liquidity_instruction(
                    payer,
                    dex_program_id,
                    market,
                    base_mint,
                    quote_mint,
                    base_vault,
                    quote_vault,
                    bids,
                    asks,
                    request_queue,
                    event_queue,
                    base_lot_size,
                    quote_lot_size,
                    vault_signer_nonce,
                    dust_threshold,
                ),
            ],
        ),
    ensures
        ({
            let at = calls_start(message);
            &&& message[0] == 1
            &&& message[1] == 0
            &&& message[2] == message[3] - 1
            &&& listed(message, 0) == payer
            &&& message.subrange(at - 32, at) == blockhash
            &&& message[at] == 1
            &&& named_at(message, at + 1) == dex_program_id
            &&& message[at + 2] == 13
            &&& call_account(message, 0) == market
            &&& call_account(message, 1) == dex_program_id
            &&& call_account(message, 2) == base_mint
            &&& call_account(message, 3) == quote_mint
            &&& call_account(message, 4) == base_vault
            &&& call_account(message, 5) == quote_vault
            &&& call_account(message, 6) == payer
            &&& call_account(message, 7) == bids
            &&& call_account(message, 8) == asks
            &&& call_account(message, 9) == request_queue
            &&& call_account(message, 10) == event_queue
            &&& call_account(message, 11) == RENT_SYSVAR_ID@
            &&& call_account(message, 12) == TOKEN_PROGRAM_ID@
            &&& message.len() == at + 18 + 427
        }),
        message.skip(message.len() - 427) == init_liquidity_instruction(
            payer,
            dex_program_id,
            market,
            base_mint,
            quote_mint,
            base_vault,
            quote_vault,
            bids,
            asks,
            request_queue,
            event_queue,
            base_lot_size,
            quote_lot_size,
            vault_signer_nonce,
            dust_threshold,
        ).data,
{
    let instruction = init_liquidity_instruction(
        payer,
        dex_program_id,
        market,
        base_mint,
        quote_mint,
        base_vault,
        quote_vault,
        bids,
        asks,
        request_queue,
        event_queue,
        base_lot_size,
        quote_lot_size,
        vault_signer_nonce,
        dust_threshold,
    );
    lemma_opening_carried(
        instruction.data,
        payer,
        dex_program_id,
        market,
        base_mint,
        quote_mint,
        base_vault,
        quote_vault,
        bids,
        asks,
        request_queue,
        event_queue,
        base_lot_size,
        quote_lot_size,
        vault_signer_nonce,
        dust_threshold,
    );
    lemma_single_call(message, payer, blockhash, instruction);
    assert(compact_len(instruction.data.len()).len() == 2);
    let keys = lemma_message_front(message, payer, blockhash, seq![instruction]);
    law_opening_changes_only_payer(
        message,
        blockhash,
        payer,
        dex_program_id,
        market,
        base_mint,
        quote_mint,
        base_vault,
        quote_vault,
        bids,
        asks,
        request_queue,
        event_queue,
        base_lot_size,
        quote_lot_size,
        vault_signer_nonce,
        dust_threshold,
    );
}

/// An order reads back from the message that is signed for it: payer, block hash, program and
/// accounts, and in the instruction that it carries every account and every number, each in its own
/// place.
#[verifier::spinoff_prover]
#[verifier::rlimit(40)]
pub proof fn law_order_reads_back(
    payer_keypair: &Keypair,
    market_pubkey: &Address,
    open_orders_pubkey: &Address,
    request_queue_pubkey: &Address,
    event_queue_pubkey: &Address,
    bids_pubkey: &Address,
    asks_pubkey: &Address,
    base_vault: &Address,
    quote_vault: &Address,
    dex_program_id: &Address,
    side: Side,
    limit_price: u64,
    max_coin_qty: u64,
    max_native_pc_qty_including_fees: u64,
    order_type: OrderType,
    client_order_id: u64,
    self_trade_behavior: SelfTradeBehavior,
    limit: u16,
    recent_blockhash: &Address,
    srm_account_referral: Option<Address>,
    transaction: Result<SignedTransaction, MarketError>,
)
    requires
        call_ensures(
            create_purchase_tx,
            (
                payer_keypair,
                market_pubkey,
                open_orders_pubkey,
                request_queue_pubkey,
                event_queue_pubkey,
                bids_pubkey,
                asks_pubkey,
                base_vault,
                quote_vault,
                dex_program_id,
                side,
                limit_price,
                max_coin_qty,
                max_native_pc_qty_including_fees,
                order_type,
                client_order_id,
                self_trade_behavior,
                limit,
                recent_blockhash,
                srm_account_referral,
            ),
            transaction,
        ),
    ensures
        transaction is Ok,
        transaction->Ok_0.signatures@.len() == 1,
        transaction->Ok_0.signatures@[0]@ == ed25519_signature(
            payer_keypair@,
            transaction->Ok_0.message@,
        ),
        ({
            let message = transaction->Ok_0.message@;
            let at = calls_start(message);
            let count = if srm_account_referral is Some {
                13int
            } else {
                12int
            };
            &&& message[0] == 1
            &&& message[1] == 0
            &&& listed(message, 0) == payer_keypair@.subrange(32, 64)
            &&& message.subrange(at - 32, at) == recent_blockhash@
            &&& message[at] == 1
            &&& named_at(message, at + 1) == dex_program_id@
            &&& message[at + 2] == 12
            &&& call_account(message, 0) == market_pubkey@
            &&& call_account(message, 1) == open_orders_pubkey@
            &&& call_account(message, 2) == request_queue_pubkey@
            &&& call_account(message, 3) == event_queue_pubkey@
            &&& call_account(message, 4) == bids_pubkey@
            &&& call_account(message, 5) == asks_pubkey@
            &&& call_account(message, 6) == base_vault@
            &&& call_account(message, 7) == quote_vault@
            &&& call_account(message, 8) == payer_keypair@.subrange(32, 64)
            &&& call_account(message, 9) == open_orders_pubkey@
            &&& call_account(message, 10) == TOKEN_PROGRAM_ID@
            &&& call_account(message, 11) == RENT_SYSVAR_ID@
            &&& forall|i: int|
                0 <= i < message[3] ==> (i < message[3] - message[2] <==> seq![
                    payer_keypair@.subrange(32, 64),
                    market_pubkey@,
                    open_orders_pubkey@,
                    request_queue_pubkey@,
                    event_queue_pubkey@,
                    bids_pubkey@,
                    asks_pubkey@,
                    base_vault@,
                    quote_vault@,
                ].contains(#[trigger] listed(message, i)))
            &&& message.len() == at + 17 + 99 + 34 * count
        }),
        ({
            let message = transaction->Ok_0.message@;
            let count = if srm_account_referral is Some {
                13int
            } else {
                12int
            };
            let carried = message.skip(message.len() - 99 - 34 * count);
            let data = carried.skip(48 + 34 * count);
            &&& carried.len() == 99 + 34 * count
            &&& carried.take(32) == dex_program_id@
            &&& le_number(carried.subrange(32, 40)) == count
            &&& carried_account(carried, 0) == market_pubkey@
            &&& carried_account(carried, 1) == open_orders_pubkey@
            &&& carried_account(carried, 2) == request_queue_pubkey@
            &&& carried_account(carried, 3) == event_queue_pubkey@
            &&& carried_account(carried, 4) == bids_pubkey@
            &&& carried_account(carried, 5) == asks_pubkey@
            &&& carried_account(carried, 6) == payer_keypair@.subrange(32, 64)
            &&& carried_account(carried, 7) == payer_keypair@.subrange(32, 64)
            &&& carried_account(carried, 8) == base_vault@
            &&& carried_account(carried, 9) == quote_vault@
            &&& carried_account(carried, 10) == TOKEN_PROGRAM_ID@
            &&& carried_account(carried, 11) == RENT_SYSVAR_ID@
            &&& carried_flags(carried, 0) == (0u8, 1u8)
            &&& carried_flags(carried, 1) == (0u8, 1u8)
            &&& carried_flags(carried, 2) == (0u8, 1u8)
            &&& carried_flags(carried, 3) == (0u8, 1u8)
            &&& carried_flags(carried, 4) == (0u8, 1u8)
            &&& carried_flags(carried, 5) == (0u8, 1u8)
            &&& carried_flags(carried, 6) == (0u8, 1u8)
            &&& carried_flags(carried, 7) == (1u8, 0u8)
            &&& carried_flags(carried, 8) == (0u8, 1u8)
            &&& carried_flags(carried, 9) == (0u8, 1u8)
            &&& carried_flags(carried, 10) == (0u8, 0u8)
            &&& carried_flags(carried, 11) == (0u8, 0u8)
            &&& srm_account_referral matches Some(referral) ==> carried_account(carried, 12)
                == referral@ && carried_flags(carried, 12) == (0u8, 0u8)
            &&& le_number(carried.subrange(40 + 34 * count, 48 + 34 * count)) == 51
            &&& data.len() == 51
            &&& data[0] == 0
            &&& le_number(data.subrange(1, 5)) == 10
            &&& le_number(data.subrange(5, 9)) == (match side {
                Side::Bid => 0nat,
                Side::Ask => 1nat,
            })
            &&& le_number(data.subrange(9, 17)) == limit_price
            &&& le_number(data.subrange(17, 25)) == max_coin_qty
            &&& le_number(data.subrange(25, 33)) == max_native_pc_qty_including_fees
            &&& le_number(data.subrange(33, 37)) == (match self_trade_behavior {
                SelfTradeBehavior::DecrementTake => 0nat,
                SelfTradeBehavior::CancelProvide => 1nat,
                SelfTradeBehavior::AbortTransaction => 2nat,
            })
            &&& le_number(data.subrange(37, 41)) == (match order_type {
                OrderType::Limit => 0nat,
                OrderType::ImmediateOrCancel => 1nat,
                OrderType::PostOnly => 2nat,
            })
            &&& le_number(data.subrange(41, 49)) == client_order_id
            &&& le_number(data.subrange(49, 51)) == limit
        }),
{
    lemma_keypair_len(payer_keypair);
    assert(transaction->Ok_0@.signatures.len() == 1);
    assert(transaction->Ok_0@.signatures[0] == transaction->Ok_0.signatures@[0]@);
    lemma_order_message(
        transaction->Ok_0.message@,
        recent_blockhash@,
        payer_keypair@.subrange(32, 64),
        market_pubkey@,
        open_orders_pubkey@,
        request_queue_pubkey@,
        event_queue_pubkey@,
        bids_pubkey@,
        asks_pubkey@,
        base_vault@,
        quote_vault@,
        dex_program_id@,
        side,
        limit_price,
        max_coin_qty,
        max_native_pc_qty_including_fees,
        order_type,
        client_order_id,
        self_trade_behavior,
        limit,
        srm_account_referral,
    );
    let message = transaction->Ok_0.message@;
    let count = if srm_account_referral is Some {
                13int
            } else {
                12int
            };
    lemma_order_carried(
        message.skip(message.len() - 99 - 34 * count),
        payer_keypair@.subrange(32, 64),
        market_pubkey@,
        open_orders_pubkey@,
        request_queue_pubkey@,
        event_queue_pubkey@,
        bids_pubkey@,
        asks_pubkey@,
        base_vault@,
        quote_vault@,
        dex_program_id@,
        side,
        limit_price,
        max_coin_qty,
        max_native_pc_qty_including_fees,
        order_type,
        client_order_id,
        self_trade_behavior,
        limit,
        srm_account_referral,
    );
}

/// The opening of a market reads back from the message that is signed for it: payer, block hash,
/// program and accounts, and in the instruction that it carries every account and every number,
/// each in its own place.
#[verifier::spinoff_prover]
#[verifier::rlimit(40)]
pub proof fn law_opening_reads_back(
    payer_keypair: &Keypair,
    dex_program_id: &Address,
    market_pubkey: &Address,
    base_mint: &Address,
    quote_mint: &Address,
    base_vault: &Address,
    quote_vault: &Address,
    bids_pubkey: &Address,
    asks_pubkey: &Address,
    request_queue_pubkey: &Address,
    event_queue_pubkey: &Address,
    base_lot_size: u64,
    quote_lot_size: u64,
    vault_signer_nonce: u64,
    dust_threshold: u64,
    recent_blockhash: &Address,
    transaction: Result<SignedTransaction, MarketError>,
)
    requires
        call_ensures(
            create_init_liquidity_tx,
            (
                payer_keypair,
                dex_program_id,
                market_pubkey,
                base_mint,
                quote_mint,
                base_vault,
                quote_vault,
                bids_pubkey,
                asks_pubkey,
                request_queue_pubkey,
                event_queue_pubkey,
                base_lot_size,
                quote_lot_size,
                vault_signer_nonce,
                dust_threshold,
                recent_blockhash,
            ),
            transaction,
        ),
    ensures
        transaction is Ok,
        transaction->Ok_0.signatures@.len() == 1,
        transaction->Ok_0.signatures@[0]@ == ed25519_signature(
            payer_keypair@,
            transaction->Ok_0.message@,
        ),
        ({
            let message = transaction->Ok_0.message@;
            let at = calls_start(message);
            &&& message[0] == 1
            &&& message[1] == 0
            &&& message[2] == message[3] - 1
            &&& listed(message, 0) == payer_keypair@.subrange(32, 64)
            &&& message.subrange(at - 32, at) == recent_blockhash@
            &&& message[at] == 1
            &&& named_at(message, at + 1) == dex_program_id@
            &&& message[at + 2] == 13
            &&& call_account(message, 0) == market_pubkey@
            &&& call_account(message, 1) == dex_program_id@
            &&& call_account(message, 2) == base_mint@
            &&& call_account(message, 3) == quote_mint@
            &&& call_account(message, 4) == base_vault@
            &&& call_account(message, 5) == quote_vault@
            &&& call_account(message, 6) == payer_keypair@.subrange(32, 64)
            &&& call_account(message, 7) == bids_pubkey@
            &&& call_account(message, 8) == asks_pubkey@
            &&& call_account(message, 9) == request_queue_pubkey@
            &&& call_account(message, 10) == event_queue_pubkey@
            &&& call_account(message, 11) == RENT_SYSVAR_ID@
            &&& call_account(message, 12) == TOKEN_PROGRAM_ID@
            &&& message.len() == at + 18 + 427
        }),
        ({
            let message = transaction->Ok_0.message@;
            let carried = message.skip(message.len() - 427);
            let data = carried.skip(388);
            &&& carried.len() == 427
            &&& carried.take(32) == dex_program_id@
            &&& le_number(carried.subrange(32, 40)) == 10
            &&& carried_account(carried, 0) == market_pubkey@
            &&& carried_account(carried, 1) == request_queue_pubkey@
            &&& carried_account(carried, 2) == event_queue_pubkey@
            &&& carried_account(carried, 3) == bids_pubkey@
            &&& carried_account(carried, 4) == asks_pubkey@
            &&& carried_account(carried, 5) == base_vault@
            &&& carried_account(carried, 6) == quote_vault@
            &&& carried_account(carried, 7) == base_mint@
            &&& carried_account(carried, 8) == quote_mint@
            &&& carried_account(carried, 9) == RENT_SYSVAR_ID@
            &&& carried_flags(carried, 0) == (0u8, 1u8)
            &&& carried_flags(carried, 1) == (0u8, 1u8)
            &&& carried_flags(carried, 2) == (0u8, 1u8)
            &&& carried_flags(carried, 3) == (0u8, 1u8)
            &&& carried_flags(carried, 4) == (0u8, 1u8)
            &&& carried_flags(carried, 5) == (0u8, 1u8)
            &&& carried_flags(carried, 6) == (0u8, 1u8)
            &&& carried_flags(carried, 7) == (0u8, 0u8)
            &&& carried_flags(carried, 8) == (0u8, 0u8)
            &&& carried_flags(carried, 9) == (0u8, 0u8)
            &&& le_number(carried.subrange(380, 388)) == 39
            &&& data.len() == 39
            &&& data[0] == 0
            &&& le_number(data.subrange(1, 5)) == 0
            &&& le_number(data.subrange(5, 13)) == base_lot_size
            &&& le_number(data.subrange(13, 21)) == quote_lot_size
            &&& le_number(data.subrange(21, 23)) == 0
            &&& le_number(data.subrange(23, 31)) == vault_signer_nonce
            &&& le_number(data.subrange(31, 39)) == dust_threshold
        }),
{
    lemma_keypair_len(payer_keypair);
    assert(transaction->Ok_0@.signatures.len() == 1);
    assert(transaction->Ok_0@.signatures[0] == transaction->Ok_0.signatures@[0]@);
    lemma_opening_message(
        transaction->Ok_0.message@,
        recent_blockhash@,
        payer_keypair@.subrange(32, 64),
        dex_program_id@,
        market_pubkey@,
        base_mint@,
        quote_mint@,
        base_vault@,
        quote_vault@,
        bids_pubkey@,
        asks_pubkey@,
        request_queue_pubkey@,
        event_queue_pubkey@,
        base_lot_size,
        quote_lot_size,
        vault_signer_nonce,
        dust_threshold,
    );
    let message = transaction->Ok_0.message@;
    lemma_opening_carried(
        message.skip(message.len() - 427),
        payer_keypair@.subrange(32, 64),
        dex_program_id@,
        market_pubkey@,
        base_mint@,
        quote_mint@,
        base_vault@,
        quote_vault@,
        bids_pubkey@,
        asks_pubkey@,
        request_queue_pubkey@,
        event_queue_pubkey@,
        base_lot_size,
        quote_lot_size,
        vault_signer_nonce,
        dust_threshold,
    );
}

/// An order's instruction reads back: program, accounts with their flags, and in the instruction
/// that it carries every account and every number, each in its own place.
pub proof fn law_order_instruction_reads_back(
    payer: &Address,
    market_pubkey: &Address,
    open_orders_pubkey: &Address,
    request_queue_pubkey: &Address,
    event_queue_pubkey: &Address,
    bids_pubkey: &Address,
    asks_pubkey: &Address,
    base_vault: &Address,
    quote_vault: &Address,
    dex_program_id: &Address,
    side: Side,
    limit_price: u64,
    max_coin_qty: u64,
    max_native_pc_qty_including_fees: u64,
    order_type: OrderType,
    client_order_id: u64,
    self_trade_behavior: SelfTradeBehavior,
    limit: u16,
    srm_account_referral: Option<Address>,
    instruction: Result<Instruction, MarketError>,
)
    requires
        call_ensures(
            build_purchase_instruction,
            (
                payer,
                market_pubkey,
                open_orders_pubkey,
                request_queue_pubkey,
                event_queue_pubkey,
                bids_pubkey,
                asks_pubkey,
                base_vault,
                quote_vault,
                dex_program_id,
                side,
                limit_price,
                max_coin_qty,
                max_native_pc_qty_including_fees,
                order_type,
                client_order_id,
                self_trade_behavior,
                limit,
                srm_account_referral,
            ),
            instruction,
        ),
    ensures
        instruction is Ok,
        instruction->Ok_0.program_id@ == dex_program_id@,
        ({
            let accounts = instruction->Ok_0.accounts@;
            &&& accounts.len() == 12
            &&& accounts[0].pubkey@ == market_pubkey@
            &&& accounts[1].pubkey@ == open_orders_pubkey@
            &&& accounts[2].pubkey@ == request_queue_pubkey@
            &&& accounts[3].pubkey@ == event_queue_pubkey@
            &&& accounts[4].pubkey@ == bids_pubkey@
            &&& accounts[5].pubkey@ == asks_pubkey@
            &&& accounts[6].pubkey@ == base_vault@
            &&& accounts[7].pubkey@ == quote_vault@
            &&& accounts[8].pubkey@ == payer@
            &&& accounts[9].pubkey@ == open_orders_pubkey@
            &&& accounts[10].pubkey@ == TOKEN_PROGRAM_ID@
            &&& accounts[11].pubkey@ == RENT_SYSVAR_ID@
            &&& accounts[0].is_signer == false
            &&& accounts[1].is_signer == false
            &&& accounts[2].is_signer == false
            &&& accounts[3].is_signer == false
            &&& accounts[4].is_signer == false
            &&& accounts[5].is_signer == false
            &&& accounts[6].is_signer == false
            &&& accounts[7].is_signer == false
            &&& accounts[8].is_signer == true
            &&& accounts[9].is_signer == true
            &&& accounts[10].is_signer == false
            &&& accounts[11].is_signer == false
            &&& accounts[0].is_writable == true
            &&& accounts[1].is_writable == true
            &&& accounts[2].is_writable == true
            &&& accounts[3].is_writable == true
            &&& accounts[4].is_writable == true
            &&& accounts[5].is_writable == true
            &&& accounts[6].is_writable == true
            &&& accounts[7].is_writable == true
            &&& accounts[8].is_writable == false
            &&& accounts[9].is_writable == false
            &&& accounts[10].is_writable == false
            &&& accounts[11].is_writable == false
        }),
        ({
            let carried = instruction->Ok_0.data@;
            let count = if srm_account_referral is Some {
                13int
            } else {
                12int
            };
            let data = carried.skip(48 + 34 * count);
            &&& carried.len() == 99 + 34 * count
            &&& carried.take(32) == dex_program_id@
            &&& le_number(carried.subrange(32, 40)) == count
            &&& carried_account(carried, 0) == market_pubkey@
            &&& carried_account(carried, 1) == open_orders_pubkey@
            &&& carried_account(carried, 2) == request_queue_pubkey@
            &&& carried_account(carried, 3) == event_queue_pubkey@
            &&& carried_account(carried, 4) == bids_pubkey@
            &&& carried_account(carried, 5) == asks_pubkey@
            &&& carried_account(carried, 6) == payer@
            &&& carried_account(carried, 7) == payer@
            &&& carried_account(carried, 8) == base_vault@
            &&& carried_account(carried, 9) == quote_vault@
            &&& carried_account(carried, 10) == TOKEN_PROGRAM_ID@
            &&& carried_account(carried, 11) == RENT_SYSVAR_ID@
            &&& carried_flags(carried, 0) == (0u8, 1u8)
            &&& carried_flags(carried, 1) == (0u8, 1u8)
            &&& carried_flags(carried, 2) == (0u8, 1u8)
            &&& carried_flags(carried, 3) == (0u8, 1u8)
            &&& carried_flags(carried, 4) == (0u8, 1u8)
            &&& carried_flags(carried, 5) == (0u8, 1u8)
            &&& carried_flags(carried, 6) == (0u8, 1u8)
            &&& carried_flags(carried, 7) == (1u8, 0u8)
            &&& carried_flags(carried, 8) == (0u8, 1u8)
            &&& carried_flags(carried, 9) == (0u8, 1u8)
            &&& carried_flags(carried, 10) == (0u8, 0u8)
            &&& carried_flags(carried, 11) == (0u8, 0u8)
            &&& srm_account_referral matches Some(referral) ==> carried_account(carried, 12)
                == referral@ && carried_flags(carried, 12) == (0u8, 0u8)
            &&& le_number(carried.subrange(40 + 34 * count, 48 + 34 * count)) == 51
            &&& data.len() == 51
            &&& data[0] == 0
            &&& le_number(data.subrange(1, 5)) == 10
            &&& le_number(data.subrange(5, 9)) == (match side {
                Side::Bid => 0nat,
                Side::Ask => 1nat,
            })
            &&& le_number(data.subrange(9, 17)) == limit_price
            &&& le_number(data.subrange(17, 25)) == max_coin_qty
            &&& le_number(data.subrange(25, 33)) == max_native_pc_qty_including_fees
            &&& le_number(data.subrange(33, 37)) == (match self_trade_behavior {
                SelfTradeBehavior::DecrementTake => 0nat,
                SelfTradeBehavior::CancelProvide => 1nat,
                SelfTradeBehavior::AbortTransaction => 2nat,
            })
            &&& le_number(data.subrange(37, 41)) == (match order_type {
                OrderType::Limit => 0nat,
                OrderType::ImmediateOrCancel => 1nat,
                OrderType::PostOnly => 2nat,
            })
            &&& le_number(data.subrange(41, 49)) == client_order_id
            &&& le_number(data.subrange(49, 51)) == limit
        }),
{
    let view = instruction->Ok_0@;
    assert(view.accounts.len() == 12);
    assert forall|j: int| 0 <= j < 12 implies #[trigger] view.accounts[j]
        == instruction->Ok_0.accounts@[j]@ by {}
    assert(view.accounts[0] == writable(market_pubkey@, false));
    assert(view.accounts[1] == writable(open_orders_pubkey@, false));
    assert(view.accounts[2] == writable(request_queue_pubkey@, false));
    assert(view.accounts[3] == writable(event_queue_pubkey@, false));
    assert(view.accounts[4] == writable(bids_pubkey@, false));
    assert(view.accounts[5] == writable(asks_pubkey@, false));
    assert(view.accounts[6] == writable(base_vault@, false));
    assert(view.accounts[7] == writable(quote_vault@, false));
    assert(view.accounts[8] == readonly(payer@, true));
    assert(view.accounts[9] == readonly(open_orders_pubkey@, true));
    assert(view.accounts[10] == readonly(TOKEN_PROGRAM_ID@, false));
    assert(view.accounts[11] == readonly(RENT_SYSVAR_ID@, false));
    lemma_order_carried(
        view.data,
        payer@,
        market_pubkey@,
        open_orders_pubkey@,
        request_queue_pubkey@,
        event_queue_pubkey@,
        bids_pubkey@,
        asks_pubkey@,
        base_vault@,
        quote_vault@,
        dex_program_id@,
        side,
        limit_price,
        max_coin_qty,
        max_native_pc_qty_including_fees,
        order_type,
        client_order_id,
        self_trade_behavior,
        limit,
        srm_account_referral,
    );
}

/// The instruction that opens a market reads back: program, accounts with their flags, and in the
/// instruction that it carries every account and every number, each in its own place.
pub proof fn law_opening_instruction_reads_back(
    payer: &Address,
    dex_program_id: &Address,
    market_pubkey: &Address,
    base_mint: &Address,
    quote_mint: &Address,
    base_vault: &Address,
    quote_vault: &Address,
    bids_pubkey: &Address,
    asks_pubkey: &Address,
    request_queue_pubkey: &Address,
    event_queue_pubkey: &Address,
    base_lot_size: u64,
    quote_lot_size: u64,
    vault_signer_nonce: u64,
    dust_threshold: u64,
    instruction: Result<Instruction, MarketError>,
)
    requires
        call_ensures(
            build_init_liquidity_instruction,
            (
                payer,
                dex_program_id,
                market_pubkey,
                base_mint,
                quote_mint,
                base_vault,
                quote_vault,
                bids_pubkey,
                asks_pubkey,
                request_queue_pubkey,
                event_queue_pubkey,
                base_lot_size,
                quote_lot_size,
                vault_signer_nonce,
                dust_threshold,
            ),
            instruction,
        ),
    ensures
        instruction is Ok,
        instruction->Ok_0.program_id@ == dex_program_id@,
        ({
            let accounts = instruction->Ok_0.accounts@;
            &&& accounts.len() == 13
            &&& accounts[0].pubkey@ == market_pubkey@
            &&& accounts[1].pubkey@ == dex_program_id@
            &&& accounts[2].pubkey@ == base_mint@
            &&& accounts[3].pubkey@ == quote_mint@
            &&& accounts[4].pubkey@ == base_vault@
            &&& accounts[5].pubkey@ == quote_vault@
            &&& accounts[6].pubkey@ == payer@
            &&& accounts[7].pubkey@ == bids_pubkey@
            &&& accounts[8].pubkey@ == asks_pubkey@
            &&& accounts[9].pubkey@ == request_queue_pubkey@
            &&& accounts[10].pubkey@ == event_queue_pubkey@
            &&& accounts[11].pubkey@ == RENT_SYSVAR_ID@
            &&& accounts[12].pubkey@ == TOKEN_PROGRAM_ID@
            &&& accounts[0].is_signer == false
            &&& accounts[1].is_signer == false
            &&& accounts[2].is_signer == false
            &&& accounts[3].is_signer == false
            &&& accounts[4].is_signer == false
            &&& accounts[5].is_signer == false
            &&& accounts[6].is_signer == true
            &&& accounts[7].is_signer == false
            &&& accounts[8].is_signer == false
            &&& accounts[9].is_signer == false
            &&& accounts[10].is_signer == false
            &&& accounts[11].is_signer == false
            &&& accounts[12].is_signer == false
            &&& accounts[0].is_writable == false
            &&& accounts[1].is_writable == false
            &&& accounts[2].is_writable == false
            &&& accounts[3].is_writable == false
            &&& accounts[4].is_writable == false
            &&& accounts[5].is_writable == false
            &&& accounts[6].is_writable == false
            &&& accounts[7].is_writable == false
            &&& accounts[8].is_writable == false
            &&& accounts[9].is_writable == false
            &&& accounts[10].is_writable == false
            &&& accounts[11].is_writable == false
            &&& accounts[12].is_writable == false
        }),
        ({
            let carried = instruction->Ok_0.data@;
            let data = carried.skip(388);
            &&& carried.len() == 427
            &&& carried.take(32) == dex_program_id@
            &&& le_number(carried.subrange(32, 40)) == 10
            &&& carried_account(carried, 0) == market_pubkey@
            &&& carried_account(carried, 1) == request_queue_pubkey@
            &&& carried_account(carried, 2) == event_queue_pubkey@
            &&& carried_account(carried, 3) == bids_pubkey@
            &&& carried_account(carried, 4) == asks_pubkey@
            &&& carried_account(carried, 5) == base_vault@
            &&& carried_account(carried, 6) == quote_vault@
            &&& carried_account(carried, 7) == base_mint@
            &&& carried_account(carried, 8) == quote_mint@
            &&& carried_account(carried, 9) == RENT_SYSVAR_ID@
            &&& carried_flags(carried, 0) == (0u8, 1u8)
            &&& carried_flags(carried, 1) == (0u8, 1u8)
            &&& carried_flags(carried, 2) == (0u8, 1u8)
            &&& carried_flags(carried, 3) == (0u8, 1u8)
            &&& carried_flags(carried, 4) == (0u8, 1u8)
            &&& carried_flags(carried, 5) == (0u8, 1u8)
            &&& carried_flags(carried, 6) == (0u8, 1u8)
            &&& carried_flags(carried, 7) == (0u8, 0u8)
            &&& carried_flags(carried, 8) == (0u8, 0u8)
            &&& carried_flags(carried, 9) == (0u8, 0u8)
            &&& le_number(carried.subrange(380, 388)) == 39
            &&& data.len() == 39
            &&& data[0] == 0
            &&& le_number(data.subrange(1, 5)) == 0
            &&& le_number(data.subrange(5, 13)) == base_lot_size
            &&& le_number(data.subrange(13, 21)) == quote_lot_size
            &&& le_number(data.subrange(21, 23)) == 0
            &&& le_number(data.subrange(23, 31)) == vault_signer_nonce
            &&& le_number(data.subrange(31, 39)) == dust_threshold
        }),
{
    let view = instruction->Ok_0@;
    assert(view.accounts.len() == 13);
    assert forall|j: int| 0 <= j < 13 implies #[trigger] view.accounts[j]
        == instruction->Ok_0.accounts@[j]@ by {}
    assert(view.accounts[0] == readonly(market_pubkey@, false));
    assert(view.accounts[1] == readonly(dex_program_id@, false));
    assert(view.accounts[2] == readonly(base_mint@, false));
    assert(view.accounts[3] == readonly(quote_mint@, false));
    assert(view.accounts[4] == readonly(base_vault@, false));
    assert(view.accounts[5] == readonly(quote_vault@, false));
    assert(view.accounts[6] == readonly(payer@, true));
    assert(view.accounts[7] == readonly(bids_pubkey@, false));
    assert(view.accounts[8] == readonly(asks_pubkey@, false));
    assert(view.accounts[9] == readonly(request_queue_pubkey@, false));
    assert(view.accounts[10] == readonly(event_queue_pubkey@, false));
    assert(view.accounts[11] == readonly(RENT_SYSVAR_ID@, false));
    assert(view.accounts[12] == readonly(TOKEN_PROGRAM_ID@, false));
    lemma_opening_carried(
        view.data,
        payer@,
        dex_program_id@,
        market_pubkey@,
        base_mint@,
        quote_mint@,
        base_vault@,
        quote_vault@,
        bids_pubkey@,
        asks_pubkey@,
        request_queue_pubkey@,
        event_queue_pubkey@,
        base_lot_size,
        quote_lot_size,
        vault_signer_nonce,
        dust_threshold,
    );
}

/// A carried instruction reads back from the data of the one that carries it, whose program and
/// accounts are the given ones.
pub proof fn law_carrier_reads_back(
    program_id: &Address,
    inner: Instruction,
    accounts: &Vec<AccountMeta>,
    outer: Instruction,
)
    requires
        call_ensures(carry_instruction, (program_id, inner, accounts), outer),
    ensures
        outer.program_id@ == program_id@,
        outer.accounts@.len() == accounts@.len(),
        forall|j: int|
            0 <= j < accounts@.len() ==> {
                &&& (#[trigger] outer.accounts@[j]).pubkey@ == accounts@[j].pubkey@
                &&& outer.accounts@[j].is_signer == accounts@[j].is_signer
                &&& outer.accounts@[j].is_writable == accounts@[j].is_writable
            },
        ({
            let carried = outer.data@;
            let count = inner.accounts@.len() as int;
            &&& carried.len() == 48 + 34 * count + inner.data@.len()
            &&& carried.take(32) == inner.program_id@
            &&& le_number(carried.subrange(32, 40)) == count
            &&& forall|j: int|
                0 <= j < count ==> #[trigger] carried_account(carried, j)
                    == inner.accounts@[j].pubkey@
            &&& forall|j: int|
                0 <= j < count ==> #[trigger] carried_flags(carried, j) == (
                    if inner.accounts@[j].is_signer {
                        1u8
                    } else {
                        0u8
                    },
                    if inner.accounts@[j].is_writable {
                        1u8
                    } else {
                        0u8
                    },
                )
            &&& le_number(carried.subrange(40 + 34 * count, 48 + 34 * count)) == inner.data@.len()
            &&& carried.skip(48 + 34 * count) == inner.data@
        }),
{
    law_view_well_formed(&inner);
    law_carried_reads_back(inner@);
    assert(outer@.accounts.len() == metas_view(accounts@).len());
    assert forall|j: int| 0 <= j < accounts@.len() implies (#[trigger] outer.accounts@[j])@
        == accounts@[j]@ by {
        assert(outer@.accounts[j] == outer.accounts@[j]@);
        assert(metas_view(accounts@)[j] == accounts@[j]@);
    }
}

/// The bundle that opens a market and buys from it reads back: first the opening, with lots of 100
/// and 10, nonce 0 and a dust threshold of 1000; then a bid at 100 for at most 1000 base lots and
/// at most 1000 quote tokens, a limit order with number 0 that takes from the owner's own orders
/// and matches at most 10 others, on the market just opened.
#[verifier::spinoff_prover]
#[verifier::rlimit(40)]
pub proof fn law_market_bundle_reads_back(
    payer_keypair: &Keypair,
    token_mint_address: &Address,
    dex_program_id: &Address,
    keys: &MarketKeys,
    recent_blockhash: &Address,
    bundle: Result<Vec<SignedTransaction>, MarketError>,
)
    requires
        call_ensures(
            initialize_and_purchase_token,
            (payer_keypair, token_mint_address, dex_program_id, keys, recent_blockhash),
            bundle,
        ),
    ensures
        bundle is Ok,
        bundle->Ok_0@.len() == 2,
        forall|i: int|
            0 <= i < 2 ==> {
                &&& (#[trigger] bundle->Ok_0@[i]).signatures@.len() == 1
                &&& bundle->Ok_0@[i].signatures@[0]@ == ed25519_signature(
                    payer_keypair@,
                    bundle->Ok_0@[i].message@,
                )
            },
        ({
            let message = bundle->Ok_0@[0].message@;
            let at = calls_start(message);
            &&& message[0] == 1
            &&& message[1] == 0
            &&& message[2] == message[3] - 1
            &&& listed(message, 0) == payer_keypair@.subrange(32, 64)
            &&& message.subrange(at - 32, at) == recent_blockhash@
            &&& message[at] == 1
            &&& named_at(message, at + 1) == dex_program_id@
            &&& message[at + 2] == 13
            &&& call_account(message, 0) == keys.market@
            &&& call_account(message, 1) == dex_program_id@
            &&& call_account(message, 2) == token_mint_address@
            &&& call_account(message, 3) == keys.quote_mint@
            &&& call_account(message, 4) == keys.base_vault@
            &&& call_account(message, 5) == keys.quote_vault@
            &&& call_account(message, 6) == payer_keypair@.subrange(32, 64)
            &&& call_account(message, 7) == keys.bids@
            &&& call_account(message, 8) == keys.asks@
            &&& call_account(message, 9) == keys.request_queue@
            &&& call_account(message, 10) == keys.event_queue@
            &&& call_account(message, 11) == RENT_SYSVAR_ID@
            &&& call_account(message, 12) == TOKEN_PROGRAM_ID@
            &&& message.len() == at + 18 + 427
        }),
        ({
            let message = bundle->Ok_0@[0].message@;
            let carried = message.skip(message.len() - 427);
            let data = carried.skip(388);
            &&& carried.len() == 427
            &&& carried.take(32) == dex_program_id@
            &&& le_number(carried.subrange(32, 40)) == 10
            &&& carried_account(carried, 0) == keys.market@
            &&& carried_account(carried, 1) == keys.request_queue@
            &&& carried_account(carried, 2) == keys.event_queue@
            &&& carried_account(carried, 3) == keys.bids@
            &&& carried_account(carried, 4) == keys.asks@
            &&& carried_account(carried, 5) == keys.base_vault@
            &&& carried_account(carried, 6) == keys.quote_vault@
            &&& carried_account(carried, 7) == token_mint_address@
            &&& carried_account(carried, 8) == keys.quote_mint@
            &&& carried_account(carried, 9) == RENT_SYSVAR_ID@
            &&& carried_flags(carried, 0) == (0u8, 1u8)
            &&& carried_flags(carried, 1) == (0u8, 1u8)
            &&& carried_flags(carried, 2) == (0u8, 1u8)
            &&& carried_flags(carried, 3) == (0u8, 1u8)
            &&& carried_flags(carried, 4) == (0u8, 1u8)
            &&& carried_flags(carried, 5) == (0u8, 1u8)
            &&& carried_flags(carried, 6) == (0u8, 1u8)
            &&& carried_flags(carried, 7) == (0u8, 0u8)
            &&& carried_flags(carried, 8) == (0u8, 0u8)
            &&& carried_flags(carried, 9) == (0u8, 0u8)
            &&& le_number(carried.subrange(380, 388)) == 39
            &&& data.len() == 39
            &&& data[0] == 0
            &&& le_number(data.subrange(1, 5)) == 0
            &&& le_number(data.subrange(5, 13)) == 100
            &&& le_number(data.subrange(13, 21)) == 10
            &&& le_number(data.subrange(21, 23)) == 0
            &&& le_number(data.subrange(23, 31)) == 0
            &&& le_number(data.subrange(31, 39)) == 1000
        }),
        ({
            let message = bundle->Ok_0@[1].message@;
            let at = calls_start(message);
            let count = 12int;
            &&& message[0] == 1
            &&& message[1] == 0
            &&& listed(message, 0) == payer_keypair@.subrange(32, 64)
            &&& message.subrange(at - 32, at) == recent_blockhash@
            &&& message[at] == 1
            &&& named_at(message, at + 1) == dex_program_id@
            &&& message[at + 2] == 12
            &&& call_account(message, 0) == keys.market@
            &&& call_account(message, 1) == keys.open_orders@
            &&& call_account(message, 2) == keys.request_queue@
            &&& call_account(message, 3) == keys.event_queue@
            &&& call_account(message, 4) == keys.bids@
            &&& call_account(message, 5) == keys.asks@
            &&& call_account(message, 6) == keys.base_vault@
            &&& call_account(message, 7) == keys.quote_vault@
            &&& call_account(message, 8) == payer_keypair@.subrange(32, 64)
            &&& call_account(message, 9) == keys.open_orders@
            &&& call_account(message, 10) == TOKEN_PROGRAM_ID@
            &&& call_account(message, 11) == RENT_SYSVAR_ID@
            &&& forall|i: int|
                0 <= i < message[3] ==> (i < message[3] - message[2] <==> seq![
                    payer_keypair@.subrange(32, 64),
                    keys.market@,
                    keys.open_orders@,
                    keys.request_queue@,
                    keys.event_queue@,
                    keys.bids@,
                    keys.asks@,
                    keys.base_vault@,
                    keys.quote_vault@,
                ].contains(#[trigger] listed(message, i)))
            &&& message.len() == at + 17 + 99 + 34 * count
        }),
        ({
            let message = bundle->Ok_0@[1].message@;
            let count = 12int;
            let carried = message.skip(message.len() - 99 - 34 * count);
            let data = carried.skip(48 + 34 * count);
            &&& carried.len() == 99 + 34 * count
            &&& carried.take(32) == dex_program_id@
            &&& le_number(carried.subrange(32, 40)) == count
            &&& carried_account(carried, 0) == keys.market@
            &&& carried_account(carried, 1) == keys.open_orders@
            &&& carried_account(carried, 2) == keys.request_queue@
            &&& carried_account(carried, 3) == keys.event_queue@
            &&& carried_account(carried, 4) == keys.bids@
            &&& carried_account(carried, 5) == keys.asks@
            &&& carried_account(carried, 6) == payer_keypair@.subrange(32, 64)
            &&& carried_account(carried, 7) == payer_keypair@.subrange(32, 64)
            &&& carried_account(carried, 8) == keys.base_vault@
            &&& carried_account(carried, 9) == keys.quote_vault@
            &&& carried_account(carried, 10) == TOKEN_PROGRAM_ID@
            &&& carried_account(carried, 11) == RENT_SYSVAR_ID@
            &&& carried_flags(carried, 0) == (0u8, 1u8)
            &&& carried_flags(carried, 1) == (0u8, 1u8)
            &&& carried_flags(carried, 2) == (0u8, 1u8)
            &&& carried_flags(carried, 3) == (0u8, 1u8)
            &&& carried_flags(carried, 4) == (0u8, 1u8)
            &&& carried_flags(carried, 5) == (0u8, 1u8)
            &&& carried_flags(carried, 6) == (0u8, 1u8)
            &&& carried_flags(carried, 7) == (1u8, 0u8)
            &&& carried_flags(carried, 8) == (0u8, 1u8)
            &&& carried_flags(carried, 9) == (0u8, 1u8)
            &&& carried_flags(carried, 10) == (0u8, 0u8)
            &&& carried_flags(carried, 11) == (0u8, 0u8)
            &&& le_number(carried.subrange(40 + 34 * count, 48 + 34 * count)) == 51
            &&& data.len() == 51
            &&& data[0] == 0
            &&& le_number(data.subrange(1, 5)) == 10
            &&& le_number(data.subrange(5, 9)) == 0nat
            &&& le_number(data.subrange(9, 17)) == 100
            &&& le_number(data.subrange(17, 25)) == 1000
            &&& le_number(data.subrange(25, 33)) == 1000
            &&& le_number(data.subrange(33, 37)) == 0nat
            &&& le_number(data.subrange(37, 41)) == 0nat
            &&& le_number(data.subrange(41, 49)) == 0
            &&& le_number(data.subrange(49, 51)) == 10
        }),
{
    lemma_keypair_len(payer_keypair);
    let transactions = bundle->Ok_0@;
    assert(transactions_view(transactions).len() == transactions.len());
    assert forall|i: int| 0 <= i < 2 implies {
        &&& (#[trigger] transactions[i]).signatures@.len() == 1
        &&& transactions[i].signatures@[0]@ == ed25519_signature(
            payer_keypair@,
            transactions[i].message@,
        )
    } by {
        assert(transactions_view(transactions)[i] == transactions[i]@);
        assert(transactions[i]@.signatures.len() == 1);
        assert(transactions[i]@.signatures[0] == transactions[i].signatures@[0]@);
    }
    assert(transactions_view(transactions)[0] == transactions[0]@);
    assert(transactions_view(transactions)[1] == transactions[1]@);
    lemma_opening_message(
        transactions[0].message@,
        recent_blockhash@,
        payer_keypair@.subrange(32, 64),
        dex_program_id@,
        keys.market@,
        token_mint_address@,
        keys.quote_mint@,
        keys.base_vault@,
        keys.quote_vault@,
        keys.bids@,
        keys.asks@,
        keys.request_queue@,
        keys.event_queue@,
        100,
        10,
        0,
        1000,
    );
    let opening = transactions[0].message@;
    lemma_opening_carried(
        opening.skip(opening.len() - 427),
        payer_keypair@.subrange(32, 64),
        dex_program_id@,
        keys.market@,
        token_mint_address@,
        keys.quote_mint@,
        keys.base_vault@,
        keys.quote_vault@,
        keys.bids@,
        keys.asks@,
        keys.request_queue@,
        keys.event_queue@,
        100,
        10,
        0,
        1000,
    );
    lemma_order_message(
        transactions[1].message@,
        recent_blockhash@,
        payer_keypair@.subrange(32, 64),
        keys.market@,
        keys.open_orders@,
        keys.request_queue@,
        keys.event_queue@,
        keys.bids@,
        keys.asks@,
        keys.base_vault@,
        keys.quote_vault@,
        dex_program_id@,
        Side::Bid,
        100,
        1000,
        1000,
        OrderType::Limit,
        0,
        SelfTradeBehavior::DecrementTake,
        10,
        None,
    );
    let order = transactions[1].message@;
    lemma_order_carried(
        order.skip(order.len() - 99 - 34 * 12),
        payer_keypair@.subrange(32, 64),
        keys.market@,
        keys.open_orders@,
        keys.request_queue@,
        keys.event_queue@,
        keys.bids@,
        keys.asks@,
        keys.base_vault@,
        keys.quote_vault@,
        dex_program_id@,
        Side::Bid,
        100,
        1000,
        1000,
        OrderType::Limit,
        0,
        SelfTradeBehavior::DecrementTake,
        10,
        None,
    );
}

/// A bundle comes out exactly where the open-orders account is the payer's own, and it is the
/// bundle of these very addresses.
pub proof fn law_tried_bundle_is_the_bundle(
    payer_keypair: &Keypair,
    token_mint_address: &Address,
    dex_program_id: &Address,
    keys: &MarketKeys,
    recent_blockhash: &Address,
    tried: Option<Vec<SignedTransaction>>,
    bundle: Result<Vec<SignedTransaction>, MarketError>,
)
    requires
        call_ensures(
            try_initialize_and_purchase_token,
            (payer_keypair, token_mint_address, dex_program_id, keys, recent_blockhash),
            tried,
        ),
        call_ensures(
            initialize_and_purchase_token,
            (payer_keypair, token_mint_address, dex_program_id, keys, recent_blockhash),
            bundle,
        ),
    ensures
        tried is Some <==> keys.open_orders@ == payer_keypair@.subrange(32, 64),
        tried matches Some(transactions) ==> {
            &&& transactions@.len() == bundle->Ok_0@.len()
            &&& forall|i: int|
                0 <= i < transactions@.len() ==> {
                    &&& (#[trigger] transactions@[i]).message@ == bundle->Ok_0@[i].message@
                    &&& transactions@[i].signatures@.len() == 1
                    &&& transactions@[i].signatures@[0]@ == bundle->Ok_0@[i].signatures@[0]@
                }
        },
{
    if let Some(transactions) = tried {
        lemma_same_bundle(
            payer_keypair,
            token_mint_address,
            dex_program_id,
            *keys,
            recent_blockhash,
            transactions@,
            bundle->Ok_0@,
        );
    }
}

/// Two bundles of the same addresses are the same.
proof fn lemma_same_bundle(
    payer_keypair: &Keypair,
    token_mint_address: &Address,
    dex_program_id: &Address,
    keys: MarketKeys,
    recent_blockhash: &Address,
    a: Seq<SignedTransaction>,
    b: Seq<SignedTransaction>,
)
    requires
        is_market_bundle(
            transactions_view(a),
            payer_keypair@,
            token_mint_address@,
            dex_program_id@,
            keys,
            recent_blockhash@,
        ),
        is_market_bundle(
            transactions_view(b),
            payer_keypair@,
            token_mint_address@,
            dex_program_id@,
            keys,
            recent_blockhash@,
        ),
    ensures
        a.len() == b.len(),
        forall|i: int|
            0 <= i < a.len() ==> {
                &&& (#[trigger] a[i]).message@ == b[i].message@
                &&& a[i].signatures@.len() == 1
                &&& a[i].signatures@[0]@ == b[i].signatures@[0]@
            },
{
    let payer = public_half(payer_keypair@);
    let opening = opening_instruction(payer, token_mint_address@, dex_program_id@, keys);
    let order = first_order_instruction(payer, dex_program_id@, keys);
    assert forall|i: int| 0 <= i < a.len() implies {
        &&& (#[trigger] a[i]).message@ == b[i].message@
        &&& a[i].signatures@.len() == 1
        &&& a[i].signatures@[0]@ == b[i].signatures@[0]@
    } by {
        let instruction = if i == 0 {
            opening
        } else {
            order
        };
        assert(transactions_view(a)[i] == a[i]@);
        assert(transactions_view(b)[i] == b[i]@);
        law_signed_transaction_is_fixed(
            a[i]@,
            b[i]@,
            payer_keypair@,
            recent_blockhash@,
            seq![instruction],
        );
        assert(a[i]@.signatures.len() == 1);
        assert(a[i]@.signatures[0] == a[i].signatures@[0]@);
        assert(b[i]@.signatures[0] == b[i].signatures@[0]@);
    }
    assert(transactions_view(a).len() == a.len());
    assert(transactions_view(b).len() == b.len());
}

/// The addresses of a bundle on fresh addresses are rising numbers; and the bundle comes out
/// exactly where the open-orders account drawn is the payer's own, and is the bundle of the very
/// addresses that were drawn.
pub proof fn law_fresh_bundle_is_the_bundle_of_its_keys(
    payer_keypair: &Keypair,
    token_mint_address: &Address,
    dex_program_id: &Address,
    recent_blockhash: &Address,
    picked: (MarketKeys, Option<Vec<SignedTransaction>>),
    keys: &MarketKeys,
    bundle: Result<Vec<SignedTransaction>, MarketError>,
)
    requires
        call_ensures(
            initialize_and_purchase_with_fresh_keys,
            (payer_keypair, token_mint_address, dex_program_id, recent_blockhash),
            picked,
        ),
        *keys == picked.0,
        call_ensures(
            initialize_and_purchase_token,
            (payer_keypair, token_mint_address, dex_program_id, keys, recent_blockhash),
            bundle,
        ),
    ensures
        forall|i: int|
            8 <= i < 32 ==> {
                &&& #[trigger] picked.0.market@[i] == 0
                &&& picked.0.quote_mint@[i] == 0
                &&& picked.0.base_vault@[i] == 0
                &&& picked.0.quote_vault@[i] == 0
                &&& picked.0.bids@[i] == 0
                &&& picked.0.asks@[i] == 0
                &&& picked.0.request_queue@[i] == 0
                &&& picked.0.event_queue@[i] == 0
                &&& picked.0.open_orders@[i] == 0
            },
        big_endian(picked.0.market@.take(8)) < big_endian(picked.0.quote_mint@.take(8)),
        big_endian(picked.0.quote_mint@.take(8)) < big_endian(picked.0.base_vault@.take(8)),
        big_endian(picked.0.base_vault@.take(8)) < big_endian(picked.0.quote_vault@.take(8)),
        big_endian(picked.0.quote_vault@.take(8)) < big_endian(picked.0.bids@.take(8)),
        big_endian(picked.0.bids@.take(8)) < big_endian(picked.0.asks@.take(8)),
        big_endian(picked.0.asks@.take(8)) < big_endian(picked.0.request_queue@.take(8)),
        big_endian(picked.0.request_queue@.take(8)) < big_endian(picked.0.event_queue@.take(8)),
        big_endian(picked.0.event_queue@.take(8)) < big_endian(picked.0.open_orders@.take(8)),
        picked.1 is Some <==> picked.0.open_orders@ == payer_keypair@.subrange(32, 64),
        picked.1 matches Some(transactions) ==> {
            &&& transactions@.len() == bundle->Ok_0@.len()
            &&& forall|i: int|
                0 <= i < transactions@.len() ==> {
                    &&& (#[trigger] transactions@[i]).message@ == bundle->Ok_0@[i].message@
                    &&& transactions@[i].signatures@.len() == 1
                    &&& transactions@[i].signatures@[0]@ == bundle->Ok_0@[i].signatures@[0]@
                }
        },
{
    lemma_fresh_numbers(picked.0);
    if let Some(transactions) = picked.1 {
        lemma_same_bundle(
            payer_keypair,
            token_mint_address,
            dex_program_id,
            picked.0,
            recent_blockhash,
            transactions@,
            bundle->Ok_0@,
        );
    }
}

/// An address that comes before another one of the counting kind has the smaller count.
proof fn lemma_precedes_counts(a: Seq<u8>, b: Seq<u8>)
    requires
        a.len() == 32,
        b.len() == 32,
        forall|i: int| 8 <= i < 32 ==> #[trigger] a[i] == 0,
        forall|i: int| 8 <= i < 32 ==> #[trigger] b[i] == 0,
        precedes(a, b),
    ensures
        big_endian(a.take(8)) < big_endian(b.take(8)),
{
    let i = choose|i: int|
        0 <= i < a.len() && i < b.len() && #[trigger] a[i] < b[i] && a.take(i) == b.take(i);
    assert(i < 8) by {
        if i >= 8 {
            assert(a[i] == 0 && b[i] == 0);
        }
    }
    lemma_smaller_number(a, b, i, 8);
}

/// A smaller byte behind equal bytes makes a smaller number, whatever follows.
proof fn lemma_smaller_number(a: Seq<u8>, b: Seq<u8>, i: int, n: int)
    requires
        0 <= i < n <= a.len(),
        n <= b.len(),
        a[i] < b[i],
        a.take(i) == b.take(i),
    ensures
        big_endian(a.take(n)) < big_endian(b.take(n)),
    decreases n,
{
    assert(a.take(n).drop_last() =~= a.take(n - 1));
    assert(b.take(n).drop_last() =~= b.take(n - 1));
    assert(a.take(n).last() == a[n - 1]);
    assert(b.take(n).last() == b[n - 1]);
    if n > i + 1 {
        lemma_smaller_number(a, b, i, n - 1);
    }
}

/// Fresh addresses are rising numbers.
proof fn lemma_fresh_numbers(keys: MarketKeys)
    requires
        are_fresh(keys),
    ensures
        forall|i: int|
            8 <= i < 32 ==> {
                &&& #[trigger] keys.market@[i] == 0
                &&& keys.quote_mint@[i] == 0
                &&& keys.base_vault@[i] == 0
                &&& keys.quote_vault@[i] == 0
                &&& keys.bids@[i] == 0
                &&& keys.asks@[i] == 0
                &&& keys.request_queue@[i] == 0
                &&& keys.event_queue@[i] == 0
                &&& keys.open_orders@[i] == 0
            },
        big_endian(keys.market@.take(8)) < big_endian(keys.quote_mint@.take(8)),
        big_endian(keys.quote_mint@.take(8)) < big_endian(keys.base_vault@.take(8)),
        big_endian(keys.base_vault@.take(8)) < big_endian(keys.quote_vault@.take(8)),
        big_endian(keys.quote_vault@.take(8)) < big_endian(keys.bids@.take(8)),
        big_endian(keys.bids@.take(8)) < big_endian(keys.asks@.take(8)),
        big_endian(keys.asks@.take(8)) < big_endian(keys.request_queue@.take(8)),
        big_endian(keys.request_queue@.take(8)) < big_endian(keys.event_queue@.take(8)),
        big_endian(keys.event_queue@.take(8)) < big_endian(keys.open_orders@.take(8)),
{
    let all = market_addresses(keys);
    assert(all =~= seq![
        keys.market@,
        keys.quote_mint@,
        keys.base_vault@,
        keys.quote_vault@,
        keys.bids@,
        keys.asks@,
        keys.request_queue@,
        keys.event_queue@,
        keys.open_orders@,
    ]);
    assert forall|k: int, i: int| 0 <= k < 9 && 8 <= i < 32 implies #[trigger] all[k][i] == 0 by {
        assert(is_counted(all[k]));
    }
    assert forall|k: int| 0 <= k < 8 implies big_endian((#[trigger] all[k]).take(8)) < big_endian(
        all[k + 1].take(8),
    ) by {
        assert(precedes(all[k], all[k + 1]));
        lemma_precedes_counts(all[k], all[k + 1]);
    }
    assert(big_endian(all[0].take(8)) < big_endian(all[1].take(8)));
    assert(big_endian(all[1].take(8)) < big_endian(all[2].take(8)));
    assert(big_endian(all[2].take(8)) < big_endian(all[3].take(8)));
    assert(big_endian(all[3].take(8)) < big_endian(all[4].take(8)));
    assert(big_endian(all[4].take(8)) < big_endian(all[5].take(8)));
    assert(big_endian(all[5].take(8)) < big_endian(all[6].take(8)));
    assert(big_endian(all[6].take(8)) < big_endian(all[7].take(8)));
    assert(big_endian(all[7].take(8)) < big_endian(all[8].take(8)));
    assert forall|i: int| 8 <= i < 32 implies {
        &&& #[trigger] keys.market@[i] == 0
        &&& keys.quote_mint@[i] == 0
        &&& keys.base_vault@[i] == 0
        &&& keys.quote_vault@[i] == 0
        &&& keys.bids@[i] == 0
        &&& keys.asks@[i] == 0
        &&& keys.request_queue@[i] == 0
        &&& keys.event_queue@[i] == 0
        &&& keys.open_orders@[i] == 0
    } by {
        assert(all[0][i] == 0);
        assert(all[1][i] == 0);
        assert(all[2][i] == 0);
        assert(all[3][i] == 0);
        assert(all[4][i] == 0);
        assert(all[5][i] == 0);
        assert(all[6][i] == 0);
        assert(all[7][i] == 0);
        assert(all[8][i] == 0);
    }
}

/// Fresh addresses are numbers in their first eight bytes, the highest first, and nothing else; and
/// the numbers rise from the market to the open-orders account, so no two addresses are the same.
pub proof fn law_fresh_addresses_count_up(keys: MarketKeys)
    requires
        call_ensures(fresh_market_keys, (), keys),
    ensures
        forall|i: int|
            8 <= i < 32 ==> {
                &&& #[trigger] keys.market@[i] == 0
                &&& keys.quote_mint@[i] == 0
                &&& keys.base_vault@[i] == 0
                &&& keys.quote_vault@[i] == 0
                &&& keys.bids@[i] == 0
                &&& keys.asks@[i] == 0
                &&& keys.request_queue@[i] == 0
                &&& keys.event_queue@[i] == 0
                &&& keys.open_orders@[i] == 0
            },
        big_endian(keys.market@.take(8)) < big_endian(keys.quote_mint@.take(8)),
        big_endian(keys.quote_mint@.take(8)) < big_endian(keys.base_vault@.take(8)),
        big_endian(keys.base_vault@.take(8)) < big_endian(keys.quote_vault@.take(8)),
        big_endian(keys.quote_vault@.take(8)) < big_endian(keys.bids@.take(8)),
        big_endian(keys.bids@.take(8)) < big_endian(keys.asks@.take(8)),
        big_endian(keys.asks@.take(8)) < big_endian(keys.request_queue@.take(8)),
        big_endian(keys.request_queue@.take(8)) < big_endian(keys.event_queue@.take(8)),
        big_endian(keys.event_queue@.take(8)) < big_endian(keys.open_orders@.take(8)),
{
    lemma_fresh_numbers(keys);
}

/// Two addresses are told apart by any of their bytes.
pub proof fn law_same_address_compares_all_bytes(a: &Address, b: &Address, same: bool)
    requires
        call_ensures(same_address, (a, b), same),
    ensures
        same <==> forall|i: int| 0 <= i < 32 ==> #[trigger] a@[i] == b@[i],
{
    if forall|i: int| 0 <= i < 32 ==> #[trigger] a@[i] == b@[i] {
        assert(a@ =~= b@);
    }
}

} // verus!
