use searcher_cli::dex::{OrderType, SelfTradeBehavior, Side};
use searcher_cli::instruction::{AccountMeta, Instruction};
use searcher_cli::market::{
    build_init_liquidity_instruction, build_purchase_instruction, carry_instruction,
    create_init_liquidity_tx, create_purchase_tx, fresh_market_keys,
    initialize_and_purchase_token, initialize_and_purchase_with_fresh_keys, same_address,
    try_initialize_and_purchase_token, MarketKeys,
};
use searcher_cli::programs::{RENT_SYSVAR_ID, TOKEN_PROGRAM_ID};
use searcher_cli::signing::{Keypair, SignedTransaction};
use solana_sdk::program_utils::limited_deserialize;
use solana_sdk::pubkey::Pubkey;
use solana_sdk::signature::{keypair_from_seed, Signer};
use solana_sdk::transaction::Transaction;
use std::num::NonZeroU64;
use std::str::FromStr;

fn sdk_keypair() -> solana_sdk::signature::Keypair {
    keypair_from_seed(&[8; 32]).unwrap()
}

fn keypair() -> Keypair {
    Keypair::from_bytes(sdk_keypair().to_bytes()).unwrap()
}

fn key(n: u8) -> [u8; 32] {
    [n; 32]
}

fn sdk_instruction(i: &Instruction) -> solana_sdk::instruction::Instruction {
    solana_sdk::instruction::Instruction {
        program_id: i.program_id.into(),
        accounts: i
            .accounts
            .iter()
            .map(|m| solana_sdk::instruction::AccountMeta {
                pubkey: m.pubkey.into(),
                is_signer: m.is_signer,
                is_writable: m.is_writable,
            })
            .collect(),
        data: i.data.clone(),
    }
}

fn assert_signs(built: &SignedTransaction, instruction: &Instruction, blockhash: [u8; 32]) {
    let sdk = sdk_keypair();
    let expected = Transaction::new_signed_with_payer(
        &[sdk_instruction(instruction)],
        Some(&sdk.pubkey()),
        &[&sdk],
        solana_sdk::hash::Hash::from(blockhash),
    );
    assert_eq!(built.message, expected.message_data());
    assert_eq!(built.signatures.len(), 1);
    assert_eq!(&built.signatures[0][..], expected.signatures[0].as_ref());
}

fn flags(metas: &[AccountMeta]) -> Vec<([u8; 32], bool, bool)> {
    metas.iter().map(|m| (m.pubkey, m.is_signer, m.is_writable)).collect()
}

#[test]
fn well_known_addresses_are_the_published_ones() {
    let token = Pubkey::from_str("TokenkegQfeZyiNwAJbNbGKPFXCWuBvf9Ss623VQ5DA").unwrap();
    let rent = Pubkey::from_str("SysvarRent111111111111111111111111111111111").unwrap();
    assert_eq!(token.to_bytes(), TOKEN_PROGRAM_ID);
    assert_eq!(rent.to_bytes(), RENT_SYSVAR_ID);
}

#[test]
fn carried_instruction_is_laid_out_field_by_field() {
    let inner = Instruction {
        program_id: key(1),
        accounts: vec![AccountMeta::new(key(2), true), AccountMeta::new_readonly(key(3), false)],
        data: vec![10, 11, 12],
    };
    let outer_accounts = vec![AccountMeta::new_readonly(key(4), true)];
    let outer = carry_instruction(&key(5), inner, &outer_accounts);
    let mut expected: Vec<u8> = Vec::new();
    expected.extend([1u8; 32]);
    expected.extend([2, 0, 0, 0, 0, 0, 0, 0]);
    expected.extend([2u8; 32]);
    expected.extend([1, 1]);
    expected.extend([3u8; 32]);
    expected.extend([0, 0]);
    expected.extend([3, 0, 0, 0, 0, 0, 0, 0]);
    expected.extend([10, 11, 12]);
    assert_eq!(outer.data, expected);
    assert_eq!(outer.program_id, key(5));
    assert_eq!(flags(&outer.accounts), vec![(key(4), true, false)]);
}

fn build_opening() -> Instruction {
    build_init_liquidity_instruction(
        &sdk_keypair().pubkey().to_bytes(),
        &key(20),
        &key(21),
        &key(22),
        &key(23),
        &key(24),
        &key(25),
        &key(26),
        &key(27),
        &key(28),
        &key(29),
        100,
        10,
        7,
        1000,
    )
    .unwrap()
}

#[test]
fn opening_names_its_accounts_read_only_and_the_payer_signs() {
    let payer = sdk_keypair().pubkey().to_bytes();
    let built = build_opening();
    assert_eq!(built.program_id, key(20));
    assert_eq!(
        flags(&built.accounts),
        vec![
            (key(21), false, false),
            (key(20), false, false),
            (key(22), false, false),
            (key(23), false, false),
            (key(24), false, false),
            (key(25), false, false),
            (payer, true, false),
            (key(26), false, false),
            (key(27), false, false),
            (key(28), false, false),
            (key(29), false, false),
            (RENT_SYSVAR_ID, false, false),
            (TOKEN_PROGRAM_ID, false, false),
        ]
    );
}

#[test]
fn opening_carries_the_instruction_of_the_exchange() {
    let k = |n: u8| Pubkey::from(key(n));
    let expected = serum_dex::instruction::initialize_market(
        &k(21),
        &k(20),
        &k(22),
        &k(23),
        &k(24),
        &k(25),
        None,
        None,
        None,
        &k(26),
        &k(27),
        &k(28),
        &k(29),
        100,
        10,
        7,
        1000,
    )
    .unwrap();
    let inner: solana_sdk::instruction::Instruction =
        limited_deserialize(&build_opening().data).unwrap();
    assert_eq!(inner, expected);
    assert_eq!(inner.accounts.len(), 10);
    let order: Vec<u8> = inner.accounts[..9].iter().map(|m| m.pubkey.to_bytes()[0]).collect();
    assert_eq!(order, vec![21, 28, 29, 26, 27, 24, 25, 22, 23]);
    let mut data: Vec<u8> = vec![0, 0, 0, 0, 0];
    data.extend(100u64.to_le_bytes());
    data.extend(10u64.to_le_bytes());
    data.extend([0, 0]);
    data.extend(7u64.to_le_bytes());
    data.extend(1000u64.to_le_bytes());
    assert_eq!(inner.data, data);
}

#[test]
fn init_liquidity_tx_signs_the_opening() {
    let built = create_init_liquidity_tx(
        &keypair(),
        &key(20),
        &key(21),
        &key(22),
        &key(23),
        &key(24),
        &key(25),
        &key(26),
        &key(27),
        &key(28),
        &key(29),
        100,
        10,
        7,
        1000,
        &key(99),
    )
    .unwrap();
    assert_signs(&built, &build_opening(), key(99));
}

fn build_order(open_orders: [u8; 32], referral: Option<[u8; 32]>) -> Instruction {
    build_purchase_instruction(
        &sdk_keypair().pubkey().to_bytes(),
        &key(31),
        &open_orders,
        &key(33),
        &key(34),
        &key(35),
        &key(36),
        &key(37),
        &key(38),
        &key(39),
        Side::Ask,
        100,
        2000,
        3000,
        OrderType::PostOnly,
        77,
        SelfTradeBehavior::CancelProvide,
        10,
        referral,
    )
    .unwrap()
}

#[test]
fn order_names_its_accounts() {
    let payer = sdk_keypair().pubkey().to_bytes();
    let built = build_order(key(32), None);
    assert_eq!(built.program_id, key(39));
    assert_eq!(
        flags(&built.accounts),
        vec![
            (key(31), false, true),
            (key(32), false, true),
            (key(33), false, true),
            (key(34), false, true),
            (key(35), false, true),
            (key(36), false, true),
            (key(37), false, true),
            (key(38), false, true),
            (payer, true, false),
            (key(32), true, false),
            (TOKEN_PROGRAM_ID, false, false),
            (RENT_SYSVAR_ID, false, false),
        ]
    );
}

#[test]
fn order_carries_the_instruction_of_the_exchange() {
    let k = |n: u8| Pubkey::from(key(n));
    let payer = sdk_keypair().pubkey();
    for referral in [None, Some(key(40))] {
        let referral_key = referral.map(Pubkey::from);
        let expected = serum_dex::instruction::new_order(
            &k(31),
            &k(32),
            &k(33),
            &k(34),
            &k(35),
            &k(36),
            &payer,
            &payer,
            &k(37),
            &k(38),
            &spl_token::id(),
            &solana_sdk::sysvar::rent::id(),
            referral_key.as_ref(),
            &k(39),
            serum_dex::matching::Side::Ask,
            NonZeroU64::new(100).unwrap(),
            NonZeroU64::new(2000).unwrap(),
            serum_dex::matching::OrderType::PostOnly,
            77,
            serum_dex::instruction::SelfTradeBehavior::CancelProvide,
            10,
            NonZeroU64::new(3000).unwrap(),
        )
        .unwrap();
        let inner: solana_sdk::instruction::Instruction =
            limited_deserialize(&build_order(key(32), referral).data).unwrap();
        assert_eq!(inner, expected);
        let mut data: Vec<u8> = vec![0, 10, 0, 0, 0, 1, 0, 0, 0];
        data.extend(100u64.to_le_bytes());
        data.extend(2000u64.to_le_bytes());
        data.extend(3000u64.to_le_bytes());
        data.extend([1, 0, 0, 0, 2, 0, 0, 0]);
        data.extend(77u64.to_le_bytes());
        data.extend([10, 0]);
        assert_eq!(inner.data, data);
        assert_eq!(inner.accounts.len(), if referral.is_some() { 13 } else { 12 });
    }
}

#[test]
fn order_codes_are_those_of_the_exchange() {
    assert_eq!(Side::Bid.code(), serum_dex::matching::Side::Bid as u8);
    assert_eq!(Side::Ask.code(), serum_dex::matching::Side::Ask as u8);
    assert_eq!(OrderType::Limit.code(), 0);
    assert_eq!(OrderType::ImmediateOrCancel.code(), 1);
    assert_eq!(OrderType::PostOnly.code(), 2);
    assert_eq!(SelfTradeBehavior::DecrementTake.code(), 0);
    assert_eq!(SelfTradeBehavior::CancelProvide.code(), 1);
    assert_eq!(SelfTradeBehavior::AbortTransaction.code(), 2);
}

#[test]
fn purchase_tx_signs_the_order_on_the_payers_open_orders() {
    let payer = sdk_keypair().pubkey().to_bytes();
    let built = create_purchase_tx(
        &keypair(),
        &key(31),
        &payer,
        &key(33),
        &key(34),
        &key(35),
        &key(36),
        &key(37),
        &key(38),
        &key(39),
        Side::Ask,
        100,
        2000,
        3000,
        OrderType::PostOnly,
        77,
        SelfTradeBehavior::CancelProvide,
        10,
        &key(98),
        Some(key(40)),
    )
    .unwrap();
    assert_signs(&built, &build_order(payer, Some(key(40))), key(98));
}

fn market_keys(open_orders: [u8; 32]) -> MarketKeys {
    MarketKeys {
        market: key(51),
        quote_mint: key(52),
        base_vault: key(53),
        quote_vault: key(54),
        bids: key(55),
        asks: key(56),
        request_queue: key(57),
        event_queue: key(58),
        open_orders,
    }
}

#[test]
fn market_bundle_opens_and_then_buys() {
    let payer = sdk_keypair().pubkey().to_bytes();
    let keys = market_keys(payer);
    let bundle =
        initialize_and_purchase_token(&keypair(), &key(60), &key(61), &keys, &key(62)).unwrap();
    assert_eq!(bundle.len(), 2);
    let opening = build_init_liquidity_instruction(
        &payer,
        &key(61),
        &key(51),
        &key(60),
        &key(52),
        &key(53),
        &key(54),
        &key(55),
        &key(56),
        &key(57),
        &key(58),
        100,
        10,
        0,
        1000,
    )
    .unwrap();
    assert_signs(&bundle[0], &opening, key(62));
    let order = build_purchase_instruction(
        &payer,
        &key(51),
        &payer,
        &key(57),
        &key(58),
        &key(55),
        &key(56),
        &key(53),
        &key(54),
        &key(61),
        Side::Bid,
        100,
        1000,
        1000,
        OrderType::Limit,
        0,
        SelfTradeBehavior::DecrementTake,
        10,
        None,
    )
    .unwrap();
    assert_signs(&bundle[1], &order, key(62));
}

fn carried(transaction: &SignedTransaction) -> solana_sdk::instruction::Instruction {
    let message: solana_sdk::message::Message = limited_deserialize(&transaction.message).unwrap();
    limited_deserialize(&message.instructions[0].data).unwrap()
}

#[test]
fn order_is_on_the_opened_market() {
    let payer = sdk_keypair().pubkey().to_bytes();
    let keys = market_keys(payer);
    let bundle =
        initialize_and_purchase_token(&keypair(), &key(60), &key(61), &keys, &key(62)).unwrap();
    let opening = carried(&bundle[0]);
    let order = carried(&bundle[1]);
    assert_eq!(opening.program_id, order.program_id);
    // Market, request queue, event queue, bids, asks and the two vaults, by their places in each list.
    for (in_opening, in_order) in [(0, 0), (1, 2), (2, 3), (3, 4), (4, 5), (5, 8), (6, 9)] {
        assert_eq!(opening.accounts[in_opening].pubkey, order.accounts[in_order].pubkey);
    }
}

#[test]
fn fresh_addresses_count_up() {
    let keys = fresh_market_keys();
    let all = [
        keys.market,
        keys.quote_mint,
        keys.base_vault,
        keys.quote_vault,
        keys.bids,
        keys.asks,
        keys.request_queue,
        keys.event_queue,
        keys.open_orders,
    ];
    for address in &all {
        assert!(address[8..].iter().all(|b| *b == 0));
        assert!(address[..8].iter().any(|b| *b != 0));
    }
    for pair in all.windows(2) {
        assert!(pair[0] < pair[1]);
    }
    assert!(keys.open_orders < fresh_market_keys().market);
}

#[test]
fn bundle_comes_out_exactly_on_the_payers_open_orders() {
    let payer = sdk_keypair().pubkey().to_bytes();
    let build = |keys: &MarketKeys| {
        try_initialize_and_purchase_token(&keypair(), &key(60), &key(61), keys, &key(62))
    };
    let expected =
        initialize_and_purchase_token(&keypair(), &key(60), &key(61), &market_keys(payer), &key(62));
    assert_eq!(build(&market_keys(payer)), Some(expected.unwrap()));
    assert_eq!(build(&market_keys(key(59))), None);
}

fn sdk_message(transaction: &SignedTransaction) -> solana_sdk::message::Message {
    limited_deserialize(&transaction.message).unwrap()
}

fn opening_tx(market: [u8; 32], base_lot_size: u64, dust: u64, blockhash: [u8; 32]) -> SignedTransaction {
    create_init_liquidity_tx(
        &keypair(),
        &key(1),
        &market,
        &key(3),
        &key(4),
        &key(5),
        &key(6),
        &key(7),
        &key(8),
        &key(9),
        &key(10),
        base_lot_size,
        10,
        0,
        dust,
        &blockhash,
    )
    .unwrap()
}

fn order_tx(limit_price: u64, side: Side, referral: Option<[u8; 32]>, blockhash: [u8; 32]) -> SignedTransaction {
    create_purchase_tx(
        &keypair(),
        &key(1),
        &sdk_keypair().pubkey().to_bytes(),
        &key(3),
        &key(4),
        &key(5),
        &key(6),
        &key(7),
        &key(8),
        &key(9),
        side,
        limit_price,
        1000,
        1000,
        OrderType::Limit,
        0,
        SelfTradeBehavior::DecrementTake,
        10,
        &blockhash,
        referral,
    )
    .unwrap()
}

#[test]
fn opening_may_change_only_the_payer() {
    let message = sdk_message(&opening_tx(key(2), 100, 1000, key(0)));
    assert_eq!(message.account_keys.len(), 13);
    assert_eq!(message.account_keys[0], sdk_keypair().pubkey());
    assert_eq!(message.header.num_required_signatures, 1);
    assert_eq!(message.header.num_readonly_signed_accounts, 0);
    assert_eq!(message.header.num_readonly_unsigned_accounts, 12);
    // Two accounts with one address: one less is listed, and still only the payer may change.
    let message = sdk_message(&opening_tx(key(3), 100, 1000, key(0)));
    assert_eq!(message.account_keys.len(), 12);
    assert_eq!(message.header.num_readonly_unsigned_accounts, 11);
}

#[test]
fn order_lists_writable_accounts_before_the_others_each_in_order() {
    let transaction = order_tx(100, Side::Bid, None, key(0));
    let message = sdk_message(&transaction);
    assert_eq!(message.header.num_required_signatures, 1);
    assert_eq!(message.header.num_readonly_signed_accounts, 0);
    assert_eq!(message.header.num_readonly_unsigned_accounts, 3);
    let mut expected = vec![sdk_keypair().pubkey()];
    expected.extend([1, 3, 4, 5, 6, 7, 8].map(|n| Pubkey::from(key(n))));
    expected.push(Pubkey::from(RENT_SYSVAR_ID));
    expected.push(Pubkey::from(TOKEN_PROGRAM_ID));
    expected.push(Pubkey::from(key(9)));
    assert_eq!(message.account_keys, expected);
    assert_eq!(&transaction.message[..4], &[1, 0, 3, 11]);
}

fn without_data(transaction: &SignedTransaction) -> solana_sdk::message::Message {
    let mut message = sdk_message(transaction);
    message.instructions[0].data.clear();
    message
}

#[test]
fn numbers_and_referral_reach_only_the_data() {
    let first = order_tx(100, Side::Bid, None, key(98));
    for other in [
        order_tx(101, Side::Bid, None, key(98)),
        order_tx(100, Side::Ask, None, key(98)),
        order_tx(100, Side::Bid, Some(key(77)), key(98)),
    ] {
        assert_ne!(first.message, other.message);
        assert_eq!(without_data(&first), without_data(&other));
        assert!(!sdk_message(&other).account_keys.contains(&Pubkey::from(key(77))));
    }
    let first = opening_tx(key(2), 100, 1000, key(98));
    for other in [opening_tx(key(2), 101, 1000, key(98)), opening_tx(key(2), 100, 0, key(98))] {
        assert_ne!(first.message, other.message);
        assert_eq!(without_data(&first), without_data(&other));
    }
}

#[test]
fn blockhash_reaches_only_itself() {
    for (a, b) in [
        (order_tx(100, Side::Bid, None, key(98)), order_tx(100, Side::Bid, None, key(99))),
        (opening_tx(key(2), 100, 1000, key(98)), opening_tx(key(2), 100, 1000, key(99))),
    ] {
        let at = 4 + 32 * a.message[3] as usize;
        assert_eq!(a.message[..at], b.message[..at]);
        assert_eq!(a.message[at..at + 32], key(98));
        assert_eq!(b.message[at..at + 32], key(99));
        assert_eq!(a.message[at + 32..], b.message[at + 32..]);
    }
}

#[test]
fn signing_the_same_again_gives_the_same_transaction() {
    let a = order_tx(100, Side::Bid, None, key(98));
    let b = order_tx(100, Side::Bid, None, key(98));
    assert_eq!(a, b);
    let expected = sdk_keypair().sign_message(&a.message);
    assert_eq!(&a.signatures[0][..], expected.as_ref());
}

#[test]
fn fresh_open_orders_cannot_be_signed_for() {
    let (keys, bundle) =
        initialize_and_purchase_with_fresh_keys(&keypair(), &key(60), &key(61), &key(62));
    assert!(bundle.is_none());
    assert_ne!(keys.open_orders, keypair().pubkey());
}

#[test]
fn addresses_are_compared_byte_by_byte() {
    let mut other = key(1);
    assert!(same_address(&key(1), &other));
    other[31] = 0;
    assert!(!same_address(&key(1), &other));
}

#[test]
fn different_instructions_are_carried_as_different_bytes() {
    let carry = |key: [u8; 32], signer: bool, data: Vec<u8>| {
        let inner = Instruction {
            program_id: [1; 32],
            accounts: vec![AccountMeta::new(key, signer)],
            data,
        };
        carry_instruction(&[5; 32], inner, &vec![]).data
    };
    let first = carry(key(2), true, vec![1]);
    assert_eq!(first, carry(key(2), true, vec![1]));
    assert_ne!(first, carry(key(3), true, vec![1]));
    assert_ne!(first, carry(key(2), false, vec![1]));
    assert_ne!(first, carry(key(2), true, vec![1, 0]));
}

#[test]
fn order_on_a_foreign_open_orders_account_needs_a_second_signer() {
    let payer = sdk_keypair().pubkey().to_bytes();
    let own = build_order(payer, None);
    assert!(own.accounts.iter().all(|m| !m.is_signer || m.pubkey == payer));
    let foreign = build_order(key(32), None);
    assert!(foreign.accounts.iter().any(|m| m.is_signer && m.pubkey != payer));
}
