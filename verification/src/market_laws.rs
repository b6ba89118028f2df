//! What holds of the transactions of a market: what their messages list and may change, and what
//! reaches which part of them.
use crate::dex::{OrderType, SelfTradeBehavior, Side};
use crate::instruction::{
    law_instruction_bytes_injective, readonly, well_formed, AccountMetaView, Address,
    InstructionView,
};
use crate::market::{
    are_fresh, carrying_instruction, first_order_instruction, init_liquidity_instruction,
    is_counted, market_addresses, opening_instruction, purchase_accounts, purchase_instruction,
    MarketKeys,
};
use crate::message::{
    fits_message, is_account_list, law_data_changes_only_data, law_message_says_one_thing,
    lemma_account_list_parts, lemma_message_account_list, may_write, message_says, names,
    names_writable, needs_no_other_signer, same_but_for_data, same_call,
};
use crate::programs::{RENT_SYSVAR_ID, TOKEN_PROGRAM_ID};
use vstd::prelude::*;

verus! {

/// A payer whose address is not of the counting kind never owns a fresh open-orders account: for
/// such a payer no bundle comes out of fresh addresses.
pub proof fn law_fresh_open_orders_is_not_payer(keys: MarketKeys, payer: Seq<u8>)
    requires
        are_fresh(keys),
        !is_counted(payer),
    ensures
        keys.open_orders@ != payer,
{
    assert(is_counted(market_addresses(keys)[8]));
}

/// The order is placed on the market that was just opened: both instructions go to the same
/// program and carry the same market, queues, book and vaults.
pub proof fn law_order_is_on_opened_market(
    payer: Seq<u8>,
    base_mint: Seq<u8>,
    dex_program_id: Seq<u8>,
    keys: MarketKeys,
)
    ensures
        ({
            let opening = opening_instruction(payer, base_mint, dex_program_id, keys);
            let order = first_order_instruction(payer, dex_program_id, keys);
            &&& opening.program_id == order.program_id
            &&& opening.accounts[0].pubkey == order.accounts[0].pubkey
            &&& opening.accounts[4].pubkey == order.accounts[6].pubkey
            &&& opening.accounts[5].pubkey == order.accounts[7].pubkey
            &&& opening.accounts[7].pubkey == order.accounts[4].pubkey
            &&& opening.accounts[8].pubkey == order.accounts[5].pubkey
            &&& opening.accounts[9].pubkey == order.accounts[2].pubkey
            &&& opening.accounts[10].pubkey == order.accounts[3].pubkey
        }),
{
}

/// The payer alone can sign an order exactly if the open-orders account is the payer's own.
pub proof fn law_order_signable_iff_own_open_orders(
    payer: Seq<u8>,
    market: Seq<u8>,
    open_orders: Seq<u8>,
    request_queue: Seq<u8>,
    event_queue: Seq<u8>,
    bids: Seq<u8>,
    asks: Seq<u8>,
    base_vault: Seq<u8>,
    quote_vault: Seq<u8>,
    dex_program_id: Seq<u8>,
    side: Side,
    limit_price: u64,
    max_coin_qty: u64,
    max_native_pc_qty_including_fees: u64,
    order_type: OrderType,
    client_order_id: u64,
    self_trade_behavior: SelfTradeBehavior,
    limit: u16,
    srm_account_referral: Option<Address>,
)
    ensures
        needs_no_other_signer(
            seq![
                purchase_instruction(
                    payer,
                    market,
                    open_orders,
                    request_queue,
                    event_queue,
                    bids,
                    asks,
                    base_vault,
                    quote_vault,
                    dex_program_id,
                    side,
                    limit_price,
                    max_coin_qty,
                    max_native_pc_qty_including_fees,
                    order_type,
                    client_order_id,
                    self_trade_behavior,
                    limit,
                    srm_account_referral,
                ),
            ],
            payer,
        ) <==> open_orders == payer,
{
    let instructions = seq![
        purchase_instruction(
            payer,
            market,
            open_orders,
            request_queue,
            event_queue,
            bids,
            asks,
            base_vault,
            quote_vault,
            dex_program_id,
            side,
            limit_price,
            max_coin_qty,
            max_native_pc_qty_including_fees,
            order_type,
            client_order_id,
            self_trade_behavior,
            limit,
            srm_account_referral,
        ),
    ];
    assert(instructions[0].accounts[9] == readonly(open_orders, true));
    assert(instructions[0].accounts[9].is_signer);
}

/// A signed message fixes what the exchange is told: two messages with the same bytes that each
/// carry one instruction carry the same one, to the same program.
pub proof fn law_message_fixes_carried_instruction(
    message: Seq<u8>,
    payer_a: Seq<u8>,
    blockhash_a: Seq<u8>,
    program_a: Seq<u8>,
    inner_a: InstructionView,
    accounts_a: Seq<AccountMetaView>,
    payer_b: Seq<u8>,
    blockhash_b: Seq<u8>,
    program_b: Seq<u8>,
    inner_b: InstructionView,
    accounts_b: Seq<AccountMetaView>,
)
    requires
        blockhash_a.len() == 32,
        blockhash_b.len() == 32,
        well_formed(inner_a),
        well_formed(inner_b),
        fits_message(seq![carrying_instruction(program_a, inner_a, accounts_a)]),
        fits_message(seq![carrying_instruction(program_b, inner_b, accounts_b)]),
        message_says(
            message,
            payer_a,
            blockhash_a,
            seq![carrying_instruction(program_a, inner_a, accounts_a)],
        ),
        message_says(
            message,
            payer_b,
            blockhash_b,
            seq![carrying_instruction(program_b, inner_b, accounts_b)],
        ),
    ensures
        program_a == program_b,
        inner_a == inner_b,
{
    let a = seq![carrying_instruction(program_a, inner_a, accounts_a)];
    let b = seq![carrying_instruction(program_b, inner_b, accounts_b)];
    law_message_says_one_thing(message, payer_a, blockhash_a, a, payer_b, blockhash_b, b);
    assert(same_call(a[0], b[0]));
    law_instruction_bytes_injective(inner_a, inner_b);
}

/// The message that opens a market may change the payer's account only: all the others are only
/// read, whatever addresses coincide.
pub proof fn law_opening_changes_only_payer(
    message: Seq<u8>,
    blockhash: Seq<u8>,
    payer: Seq<u8>,
    dex_program_id: Seq<u8>,
    market: Seq<u8>,
    base_mint: Seq<u8>,
    quote_mint: Seq<u8>,
    base_vault: Seq<u8>,
    quote_vault: Seq<u8>,
    bids: Seq<u8>,
    asks: Seq<u8>,
    request_queue: Seq<u8>,
    event_queue: Seq<u8>,
    base_lot_size: u64,
    quote_lot_size: u64,
    vault_signer_nonce: u64,
    dust_threshold: u64,
)
    requires
        blockhash.len() == 32,
        message_says(
            message,
            payer,
            blockhash,
            seq![
                init_liquidity_instruction(
                    payer,
                    dex_program_id,
                    market,
                    base_mint,
                    quote_mint,
                    base_vault,
                    quote_vault,
                    bids,
                    asks,
                    request_queue,
                    event_queue,
                    base_lot_size,
                    quote_lot_size,
                    vault_signer_nonce,
                    dust_threshold,
                ),
            ],
        ),
    ensures
        message[0] == 1,
        message[1] == 0,
        message[2] == message[3] - 1,
{
    let instruction = init_liquidity_instruction(
        payer,
        dex_program_id,
        market,
        base_mint,
        quote_mint,
        base_vault,
        quote_vault,
        bids,
        asks,
        request_queue,
        event_queue,
        base_lot_size,
        quote_lot_size,
        vault_signer_nonce,
        dust_threshold,
    );
    let keys = lemma_message_account_list(message, payer, blockhash, seq![instruction]);
    assert forall|key: Seq<u8>| may_write(payer, seq![instruction], key) implies key == payer by {
        if key != payer {
            let i = choose|i: int|
                0 <= i < seq![instruction].len() && #[trigger] names_writable(
                    seq![instruction][i],
                    key,
                );
            assert(i == 0);
            assert(!names_writable(instruction, key));
        }
    }
    if keys.len() - message[2] > 1 {
        assert(may_write(payer, seq![instruction], keys[1]));
        assert(keys[0] != keys[1]);
    }
}

/// The message that opens a market lists thirteen accounts, twelve of them only read, if all its
/// addresses are different.
pub proof fn law_opening_lists_thirteen_accounts(
    message: Seq<u8>,
    blockhash: Seq<u8>,
    payer: Seq<u8>,
    dex_program_id: Seq<u8>,
    market: Seq<u8>,
    base_mint: Seq<u8>,
    quote_mint: Seq<u8>,
    base_vault: Seq<u8>,
    quote_vault: Seq<u8>,
    bids: Seq<u8>,
    asks: Seq<u8>,
    request_queue: Seq<u8>,
    event_queue: Seq<u8>,
    base_lot_size: u64,
    quote_lot_size: u64,
    vault_signer_nonce: u64,
    dust_threshold: u64,
)
    requires
        blockhash.len() == 32,
        message_says(
            message,
            payer,
            blockhash,
            seq![
                init_liquidity_instruction(
                    payer,
                    dex_program_id,
                    market,
                    base_mint,
                    quote_mint,
                    base_vault,
                    quote_vault,
                    bids,
                    asks,
                    request_queue,
                    event_queue,
                    base_lot_size,
                    quote_lot_size,
                    vault_signer_nonce,
                    dust_threshold,
                ),
            ],
        ),
        seq![
            market,
            dex_program_id,
            base_mint,
            quote_mint,
            base_vault,
            quote_vault,
            payer,
            bids,
            asks,
            request_queue,
            event_queue,
            RENT_SYSVAR_ID@,
            TOKEN_PROGRAM_ID@,
        ].no_duplicates(),
    ensures
        message[2] == 12,
        message[3] == 13,
{
    let instruction = init_liquidity_instruction(
        payer,
        dex_program_id,
        market,
        base_mint,
        quote_mint,
        base_vault,
        quote_vault,
        bids,
        asks,
        request_queue,
        event_queue,
        base_lot_size,
        quote_lot_size,
        vault_signer_nonce,
        dust_threshold,
    );
    let all = seq![
        market,
        dex_program_id,
        base_mint,
        quote_mint,
        base_vault,
        quote_vault,
        payer,
        bids,
        asks,
        request_queue,
        event_queue,
        RENT_SYSVAR_ID@,
        TOKEN_PROGRAM_ID@,
    ];
    law_opening_changes_only_payer(
        message,
        blockhash,
        payer,
        dex_program_id,
        market,
        base_mint,
        quote_mint,
        base_vault,
        quote_vault,
        bids,
        asks,
        request_queue,
        event_queue,
        base_lot_size,
        quote_lot_size,
        vault_signer_nonce,
        dust_threshold,
    );
    let keys = lemma_message_account_list(message, payer, blockhash, seq![instruction]);
    assert(instruction.accounts.len() == 13);
    assert(forall|j: int| 0 <= j < 13 ==> (#[trigger] instruction.accounts[j]).pubkey == all[j]);
    assert forall|key: Seq<u8>| keys.contains(key) <==> all.contains(key) by {
        lemma_single_names(instruction, key);
        if all.contains(key) {
            let j = choose|j: int| 0 <= j < all.len() && all[j] == key;
            assert(instruction.accounts[j].pubkey == key);
        }
        assert(all[1] == dex_program_id && all[6] == payer);
    }
    lemma_same_len(keys, all);
}

/// A list of one instruction names what the instruction names.
pub proof fn lemma_single_names(instruction: InstructionView, key: Seq<u8>)
    ensures
        (exists|i: int|
            0 <= i < seq![instruction].len() && #[trigger] names(seq![instruction][i], key))
            <==> names(instruction, key),
        (exists|i: int|
            0 <= i < seq![instruction].len() && #[trigger] names_writable(
                seq![instruction][i],
                key,
            )) <==> names_writable(instruction, key),
{
    assert(seq![instruction][0] == instruction);
}

/// Two lists without repetitions that hold the same addresses are equally long.
proof fn lemma_same_len(a: Seq<Seq<u8>>, b: Seq<Seq<u8>>)
    requires
        a.no_duplicates(),
        b.no_duplicates(),
        forall|key: Seq<u8>| a.contains(key) <==> b.contains(key),
    ensures
        a.len() == b.len(),
{
    a.unique_seq_to_set();
    b.unique_seq_to_set();
    assert(a.to_set() =~= b.to_set());
}

/// The message of an order on the payer's own open-orders account lists eleven accounts, if all
/// its addresses are different. The last three are only read: exchange, token program and rent
/// sysvar. The payer and the seven accounts of the market may be changed.
pub proof fn law_order_lists_eleven_accounts(
    message: Seq<u8>,
    blockhash: Seq<u8>,
    payer: Seq<u8>,
    market: Seq<u8>,
    open_orders: Seq<u8>,
    request_queue: Seq<u8>,
    event_queue: Seq<u8>,
    bids: Seq<u8>,
    asks: Seq<u8>,
    base_vault: Seq<u8>,
    quote_vault: Seq<u8>,
    dex_program_id: Seq<u8>,
    side: Side,
    limit_price: u64,
    max_coin_qty: u64,
    max_native_pc_qty_including_fees: u64,
    order_type: OrderType,
    client_order_id: u64,
    self_trade_behavior: SelfTradeBehavior,
    limit: u16,
    srm_account_referral: Option<Address>,
)
    requires
        blockhash.len() == 32,
        open_orders == payer,
        message_says(
            message,
            payer,
            blockhash,
            seq![
                purchase_instruction(
                    payer,
                    market,
                    open_orders,
                    request_queue,
                    event_queue,
                    bids,
                    asks,
                    base_vault,
                    quote_vault,
                    dex_program_id,
                    side,
                    limit_price,
                    max_coin_qty,
                    max_native_pc_qty_including_fees,
                    order_type,
                    client_order_id,
                    self_trade_behavior,
                    limit,
                    srm_account_referral,
                ),
            ],
        ),
        seq![
            payer,
            market,
            request_queue,
            event_queue,
            bids,
            asks,
            base_vault,
            quote_vault,
            dex_program_id,
            TOKEN_PROGRAM_ID@,
            RENT_SYSVAR_ID@,
        ].no_duplicates(),
    ensures
        message[0] == 1,
        message[1] == 0,
        message[2] == 3,
        message[3] == 11,
        ({
            let instructions = seq![
                purchase_instruction(
                    payer,
                    market,
                    open_orders,
                    request_queue,
                    event_queue,
                    bids,
                    asks,
                    base_vault,
                    quote_vault,
                    dex_program_id,
                    side,
                    limit_price,
                    max_coin_qty,
                    max_native_pc_qty_including_fees,
                    order_type,
                    client_order_id,
                    self_trade_behavior,
                    limit,
                    srm_account_referral,
                ),
            ];
            forall|key: Seq<u8>|
                may_write(payer, instructions, key) <==> seq![
                    payer,
                    market,
                    request_queue,
                    event_queue,
                    bids,
                    asks,
                    base_vault,
                    quote_vault,
                ].contains(key)
        }),
{
    let instruction = purchase_instruction(
        payer,
        market,
        open_orders,
        request_queue,
        event_queue,
        bids,
        asks,
        base_vault,
        quote_vault,
        dex_program_id,
        side,
        limit_price,
        max_coin_qty,
        max_native_pc_qty_including_fees,
        order_type,
        client_order_id,
        self_trade_behavior,
        limit,
        srm_account_referral,
    );
    let instructions = seq![instruction];
    let changed = seq![
        payer,
        market,
        request_queue,
        event_queue,
        bids,
        asks,
        base_vault,
        quote_vault,
    ];
    let all = changed + seq![dex_program_id, TOKEN_PROGRAM_ID@, RENT_SYSVAR_ID@];
    assert(all =~= seq![
        payer,
        market,
        request_queue,
        event_queue,
        bids,
        asks,
        base_vault,
        quote_vault,
        dex_program_id,
        TOKEN_PROGRAM_ID@,
        RENT_SYSVAR_ID@,
    ]);
    let keys = lemma_message_account_list(message, payer, blockhash, instructions);
    assert forall|key: Seq<u8>| may_write(payer, instructions, key) <==> changed.contains(key) by {
        lemma_single_names(instruction, key);
        lemma_order_writes(
            instruction,
            payer,
            market,
            request_queue,
            event_queue,
            bids,
            asks,
            base_vault,
            quote_vault,
            key,
        );
    }
    assert forall|key: Seq<u8>| keys.contains(key) <==> all.contains(key) by {
        lemma_single_names(instruction, key);
        lemma_order_names(
            instruction,
            payer,
            market,
            request_queue,
            event_queue,
            bids,
            asks,
            base_vault,
            quote_vault,
            dex_program_id,
            key,
        );
    }
    lemma_same_len(keys, all);
    lemma_account_list_parts(message[2], keys, payer, instructions);
    let read = keys.skip(keys.len() - message[2]);
    let last = seq![dex_program_id, TOKEN_PROGRAM_ID@, RENT_SYSVAR_ID@];
    assert forall|key: Seq<u8>| read.contains(key) <==> last.contains(key) by {
        assert(keys.contains(key) <==> all.contains(key));
        assert(may_write(payer, instructions, key) <==> changed.contains(key));
        if last.contains(key) {
            let i = choose|i: int| 0 <= i < last.len() && last[i] == key;
            assert(all[8 + i] == key);
            if changed.contains(key) {
                let j = choose|j: int| 0 <= j < changed.len() && changed[j] == key;
                assert(all[j] == key);
            }
        }
        if all.contains(key) && !changed.contains(key) {
            let i = choose|i: int| 0 <= i < all.len() && all[i] == key;
            if i < 8 {
                assert(changed[i] == key);
            }
            assert(last[i - 8] == key);
        }
    }
    assert(last.no_duplicates()) by {
        assert(last =~= all.skip(8));
    }
    lemma_same_len(read, last);
}

/// Which accounts an order on the payer's own open-orders account may change.
proof fn lemma_order_writes(
    instruction: InstructionView,
    payer: Seq<u8>,
    market: Seq<u8>,
    request_queue: Seq<u8>,
    event_queue: Seq<u8>,
    bids: Seq<u8>,
    asks: Seq<u8>,
    base_vault: Seq<u8>,
    quote_vault: Seq<u8>,
    key: Seq<u8>,
)
    requires
        instruction.accounts == purchase_accounts(
            payer,
            market,
            payer,
            request_queue,
            event_queue,
            bids,
            asks,
            base_vault,
            quote_vault,
        ),
    ensures
        key == payer || names_writable(instruction, key) <==> seq![
            payer,
            market,
            request_queue,
            event_queue,
            bids,
            asks,
            base_vault,
            quote_vault,
        ].contains(key),
{
    let accounts = instruction.accounts;
    let changed = seq![
        payer,
        market,
        request_queue,
        event_queue,
        bids,
        asks,
        base_vault,
        quote_vault,
    ];
    if names_writable(instruction, key) {
        let j = choose|j: int|
            0 <= j < accounts.len() && (#[trigger] accounts[j]).pubkey == key
                && accounts[j].is_writable;
        assert(j < 8);
        let at: int = if j == 0 {
            1
        } else if j == 1 {
            0
        } else {
            j
        };
        assert(changed[at] == key);
    }
    if key == payer {
        assert(changed[0] == key);
    }
    if changed.contains(key) {
        let i = choose|i: int| 0 <= i < changed.len() && changed[i] == key;
        let at: int = if i == 0 {
            1
        } else if i == 1 {
            0
        } else {
            i
        };
        assert(accounts[at].pubkey == key && accounts[at].is_writable);
    }
}

/// Which addresses an order on the payer's own open-orders account names.
proof fn lemma_order_names(
    instruction: InstructionView,
    payer: Seq<u8>,
    market: Seq<u8>,
    request_queue: Seq<u8>,
    event_queue: Seq<u8>,
    bids: Seq<u8>,
    asks: Seq<u8>,
    base_vault: Seq<u8>,
    quote_vault: Seq<u8>,
    dex_program_id: Seq<u8>,
    key: Seq<u8>,
)
    requires
        instruction.program_id == dex_program_id,
        instruction.accounts == purchase_accounts(
            payer,
            market,
            payer,
            request_queue,
            event_queue,
            bids,
            asks,
            base_vault,
            quote_vault,
        ),
    ensures
        key == payer || names(instruction, key) <==> (seq![
            payer,
            market,
            request_queue,
            event_queue,
            bids,
            asks,
            base_vault,
            quote_vault,
        ] + seq![dex_program_id, TOKEN_PROGRAM_ID@, RENT_SYSVAR_ID@]).contains(key),
{
    let accounts = instruction.accounts;
    let all = seq![
        payer,
        market,
        request_queue,
        event_queue,
        bids,
        asks,
        base_vault,
        quote_vault,
    ] + seq![dex_program_id, TOKEN_PROGRAM_ID@, RENT_SYSVAR_ID@];
    assert(all[0] == payer);
    assert(all[8] == dex_program_id);
    if exists|j: int| 0 <= j < accounts.len() && (#[trigger] accounts[j]).pubkey == key {
        let j = choose|j: int| 0 <= j < accounts.len() && (#[trigger] accounts[j]).pubkey == key;
        let at: int = if j == 0 {
            1
        } else if j == 1 || j == 8 || j == 9 {
            0
        } else if j < 8 {
            j
        } else {
            j - 1
        };
        assert(all[at] == key);
    }
    if all.contains(key) {
        let i = choose|i: int| 0 <= i < all.len() && all[i] == key;
        let at: int = if i == 0 {
            1
        } else if i == 1 {
            0
        } else if i < 8 {
            i
        } else {
            i + 1
        };
        if i != 8 {
            assert(accounts[at].pubkey == key);
        }
    }
}

/// What an order asks for, its referral included, reaches nothing in its message but the data:
/// two orders on the same accounts agree in header, account list, block hash, program and
/// accounts.
pub proof fn law_order_terms_change_only_data(
    message_a: Seq<u8>,
    message_b: Seq<u8>,
    blockhash: Seq<u8>,
    payer: Seq<u8>,
    market: Seq<u8>,
    open_orders: Seq<u8>,
    request_queue: Seq<u8>,
    event_queue: Seq<u8>,
    bids: Seq<u8>,
    asks: Seq<u8>,
    base_vault: Seq<u8>,
    quote_vault: Seq<u8>,
    dex_program_id: Seq<u8>,
    side_a: Side,
    limit_price_a: u64,
    max_coin_qty_a: u64,
    max_native_pc_qty_including_fees_a: u64,
    order_type_a: OrderType,
    client_order_id_a: u64,
    self_trade_behavior_a: SelfTradeBehavior,
    limit_a: u16,
    srm_account_referral_a: Option<Address>,
    side_b: Side,
    limit_price_b: u64,
    max_coin_qty_b: u64,
    max_native_pc_qty_including_fees_b: u64,
    order_type_b: OrderType,
    client_order_id_b: u64,
    self_trade_behavior_b: SelfTradeBehavior,
    limit_b: u16,
    srm_account_referral_b: Option<Address>,
)
    requires
        message_says(
            message_a,
            payer,
            blockhash,
            seq![
                purchase_instruction(
                    payer,
                    market,
                    open_orders,
                    request_queue,
                    event_queue,
                    bids,
                    asks,
                    base_vault,
                    quote_vault,
                    dex_program_id,
                    side_a,
                    limit_price_a,
                    max_coin_qty_a,
                    max_native_pc_qty_including_fees_a,
                    order_type_a,
                    client_order_id_a,
                    self_trade_behavior_a,
                    limit_a,
                    srm_account_referral_a,
                ),
            ],
        ),
        message_says(
            message_b,
            payer,
            blockhash,
            seq![
                purchase_instruction(
                    payer,
                    market,
                    open_orders,
                    request_queue,
                    event_queue,
                    bids,
                    asks,
                    base_vault,
                    quote_vault,
                    dex_program_id,
                    side_b,
                    limit_price_b,
                    max_coin_qty_b,
                    max_native_pc_qty_including_fees_b,
                    order_type_b,
                    client_order_id_b,
                    self_trade_behavior_b,
                    limit_b,
                    srm_account_referral_b,
                ),
            ],
        ),
    ensures
        same_but_for_data(
            message_a,
            message_b,
            payer,
            blockhash,
            purchase_instruction(
                payer,
                market,
                open_orders,
                request_queue,
                event_queue,
                bids,
                asks,
                base_vault,
                quote_vault,
                dex_program_id,
                side_a,
                limit_price_a,
                max_coin_qty_a,
                max_native_pc_qty_including_fees_a,
                order_type_a,
                client_order_id_a,
                self_trade_behavior_a,
                limit_a,
                srm_account_referral_a,
            ),
            purchase_instruction(
                payer,
                market,
                open_orders,
                request_queue,
                event_queue,
                bids,
                asks,
                base_vault,
                quote_vault,
                dex_program_id,
                side_b,
                limit_price_b,
                max_coin_qty_b,
                max_native_pc_qty_including_fees_b,
                order_type_b,
                client_order_id_b,
                self_trade_behavior_b,
                limit_b,
                srm_account_referral_b,
            ),
        ),
{
    law_data_changes_only_data(
        message_a,
        message_b,
        payer,
        blockhash,
        purchase_instruction(
            payer,
            market,
            open_orders,
            request_queue,
            event_queue,
            bids,
            asks,
            base_vault,
            quote_vault,
            dex_program_id,
            side_a,
            limit_price_a,
            max_coin_qty_a,
            max_native_pc_qty_including_fees_a,
            order_type_a,
            client_order_id_a,
            self_trade_behavior_a,
            limit_a,
            srm_account_referral_a,
        ),
        purchase_instruction(
            payer,
            market,
            open_orders,
            request_queue,
            event_queue,
            bids,
            asks,
            base_vault,
            quote_vault,
            dex_program_id,
            side_b,
            limit_price_b,
            max_coin_qty_b,
            max_native_pc_qty_including_fees_b,
            order_type_b,
            client_order_id_b,
            self_trade_behavior_b,
            limit_b,
            srm_account_referral_b,
        ),
    );
}

/// A referral is told to the exchange, but its account is none of the message's unless it is one
/// of the others.
pub proof fn law_referral_is_not_listed(
    referral: Address,
    readonly_count: u8,
    keys: Seq<Seq<u8>>,
    payer: Seq<u8>,
    market: Seq<u8>,
    open_orders: Seq<u8>,
    request_queue: Seq<u8>,
    event_queue: Seq<u8>,
    bids: Seq<u8>,
    asks: Seq<u8>,
    base_vault: Seq<u8>,
    quote_vault: Seq<u8>,
    dex_program_id: Seq<u8>,
    side: Side,
    limit_price: u64,
    max_coin_qty: u64,
    max_native_pc_qty_including_fees: u64,
    order_type: OrderType,
    client_order_id: u64,
    self_trade_behavior: SelfTradeBehavior,
    limit: u16,
)
    requires
        is_account_list(
            readonly_count,
            keys,
            payer,
            seq![
                purchase_instruction(
                    payer,
                    market,
                    open_orders,
                    request_queue,
                    event_queue,
                    bids,
                    asks,
                    base_vault,
                    quote_vault,
                    dex_program_id,
                    side,
                    limit_price,
                    max_coin_qty,
                    max_native_pc_qty_including_fees,
                    order_type,
                    client_order_id,
                    self_trade_behavior,
                    limit,
                    Some(referral),
                ),
            ],
        ),
        !seq![
            payer,
            market,
            open_orders,
            request_queue,
            event_queue,
            bids,
            asks,
            base_vault,
            quote_vault,
            dex_program_id,
            TOKEN_PROGRAM_ID@,
            RENT_SYSVAR_ID@,
        ].contains(referral@),
    ensures
        !keys.contains(referral@),
{
    let instruction = purchase_instruction(
        payer,
        market,
        open_orders,
        request_queue,
        event_queue,
        bids,
        asks,
        base_vault,
        quote_vault,
        dex_program_id,
        side,
        limit_price,
        max_coin_qty,
        max_native_pc_qty_including_fees,
        order_type,
        client_order_id,
        self_trade_behavior,
        limit,
        Some(referral),
    );
    let others = seq![
        payer,
        market,
        open_orders,
        request_queue,
        event_queue,
        bids,
        asks,
        base_vault,
        quote_vault,
        dex_program_id,
        TOKEN_PROGRAM_ID@,
        RENT_SYSVAR_ID@,
    ];
    lemma_single_names(instruction, referral@);
    assert(others[0] == payer);
    assert(others[9] == dex_program_id);
    if names(instruction, referral@) && instruction.program_id != referral@ {
        let j = choose|j: int|
            0 <= j < instruction.accounts.len() && (#[trigger] instruction.accounts[j]).pubkey
                == referral@;
        let at: int = if j < 8 {
            j + 1
        } else if j == 8 {
            0
        } else if j == 9 {
            2
        } else {
            j
        };
        assert(others[at] == referral@);
    }
}

/// The two lot sizes, the nonce and the dust threshold of a new market reach nothing in the
/// message that opens it but the data.
pub proof fn law_opening_numbers_change_only_data(
    message_a: Seq<u8>,
    message_b: Seq<u8>,
    blockhash: Seq<u8>,
    payer: Seq<u8>,
    dex_program_id: Seq<u8>,
    market: Seq<u8>,
    base_mint: Seq<u8>,
    quote_mint: Seq<u8>,
    base_vault: Seq<u8>,
    quote_vault: Seq<u8>,
    bids: Seq<u8>,
    asks: Seq<u8>,
    request_queue: Seq<u8>,
    event_queue: Seq<u8>,
    base_lot_size_a: u64,
    quote_lot_size_a: u64,
    vault_signer_nonce_a: u64,
    dust_threshold_a: u64,
    base_lot_size_b: u64,
    quote_lot_size_b: u64,
    vault_signer_nonce_b: u64,
    dust_threshold_b: u64,
)
    requires
        message_says(
            message_a,
            payer,
            blockhash,
            seq![
                init_liquidity_instruction(
                    payer,
                    dex_program_id,
                    market,
                    base_mint,
                    quote_mint,
                    base_vault,
                    quote_vault,
                    bids,
                    asks,
                    request_queue,
                    event_queue,
                    base_lot_size_a,
                    quote_lot_size_a,
                    vault_signer_nonce_a,
                    dust_threshold_a,
                ),
            ],
        ),
        message_says(
            message_b,
            payer,
            blockhash,
            seq![
                init_liquidity_instruction(
                    payer,
                    dex_program_id,
                    market,
                    base_mint,
                    quote_mint,
                    base_vault,
                    quote_vault,
                    bids,
                    asks,
                    request_queue,
                    event_queue,
                    base_lot_size_b,
                    quote_lot_size_b,
                    vault_signer_nonce_b,
                    dust_threshold_b,
                ),
            ],
        ),
    ensures
        same_but_for_data(
            message_a,
            message_b,
            payer,
            blockhash,
            init_liquidity_instruction(
                payer,
                dex_program_id,
                market,
                base_mint,
                quote_mint,
                base_vault,
                quote_vault,
                bids,
                asks,
                request_queue,
                event_queue,
                base_lot_size_a,
                quote_lot_size_a,
                vault_signer_nonce_a,
                dust_threshold_a,
            ),
            init_liquidity_instruction(
                payer,
                dex_program_id,
                market,
                base_mint,
                quote_mint,
                base_vault,
                quote_vault,
                bids,
                asks,
                request_queue,
                event_queue,
                base_lot_size_b,
                quote_lot_size_b,
                vault_signer_nonce_b,
                dust_threshold_b,
            ),
        ),
{
    law_data_changes_only_data(
        message_a,
        message_b,
        payer,
        blockhash,
        init_liquidity_instruction(
            payer,
            dex_program_id,
            market,
            base_mint,
            quote_mint,
            base_vault,
            quote_vault,
            bids,
            asks,
            request_queue,
            event_queue,
            base_lot_size_a,
            quote_lot_size_a,
            vault_signer_nonce_a,
            dust_threshold_a,
        ),
        init_liquidity_instruction(
            payer,
            dex_program_id,
            market,
            base_mint,
            quote_mint,
            base_vault,
            quote_vault,
            bids,
            asks,
            request_queue,
            event_queue,
            base_lot_size_b,
            quote_lot_size_b,
            vault_signer_nonce_b,
            dust_threshold_b,
        ),
    );
}

} // verus!
