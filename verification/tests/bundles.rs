use searcher_cli::bundle::{
    build_bundle, build_tip_instructions, build_tip_transaction, memo, BundleError,
    MAX_BUNDLE_TRANSACTIONS,
};
use searcher_cli::programs::{MEMO_PROGRAM_ID, SYSTEM_PROGRAM_ID};
use searcher_cli::signing::Keypair;
use solana_sdk::message::Message;
use solana_sdk::program_utils::limited_deserialize;
use solana_sdk::pubkey::Pubkey;
use solana_sdk::signature::{keypair_from_seed, Signer};
use solana_sdk::system_instruction::transfer;
use solana_sdk::transaction::Transaction;
use spl_memo::build_memo;
use std::str::FromStr;

fn sdk_keypair() -> solana_sdk::signature::Keypair {
    keypair_from_seed(&[7; 32]).unwrap()
}

fn keypair() -> Keypair {
    Keypair::from_bytes(sdk_keypair().to_bytes()).unwrap()
}

#[test]
fn program_addresses_are_the_published_ones() {
    let memo_id = Pubkey::from_str("MemoSq4gqABAXKb96qnH8TysNcWxMyWCqXgDLGmfcHr").unwrap();
    assert_eq!(memo_id.to_bytes(), MEMO_PROGRAM_ID);
    assert_eq!(spl_memo::id().to_bytes(), MEMO_PROGRAM_ID);
    assert_eq!(solana_sdk::system_program::id().to_bytes(), SYSTEM_PROGRAM_ID);
}

#[test]
fn memo_names_the_transaction_and_the_message() {
    assert_eq!(memo(0, "hello"), "jito bundle 0: hello");
    assert_eq!(memo(4, ""), "jito bundle 4: ");
    assert_eq!(memo(10, "x: y"), "jito bundle 10: x: y");
    assert_eq!(memo(1203, "\u{e4}\u{1f406}"), "jito bundle 1203: \u{e4}\u{1f406}");
    assert_eq!(memo(usize::MAX, "m"), format!("jito bundle {}: m", usize::MAX));
}

#[test]
fn memos_of_different_transactions_differ() {
    assert_ne!(memo(1, "1: 1"), memo(11, "1: 1"));
}

#[test]
fn tip_instructions_are_a_memo_and_a_transfer() {
    let payer = [1u8; 32];
    let tip = [2u8; 32];
    let built = build_tip_instructions(3, "hi \u{e9}", &payer, &tip, 258);
    assert_eq!(built.len(), 2);
    assert_eq!(built[0].program_id, MEMO_PROGRAM_ID);
    assert!(built[0].accounts.is_empty());
    assert_eq!(built[0].data, "jito bundle 3: hi \u{e9}".as_bytes());
    assert_eq!(built[1].program_id, SYSTEM_PROGRAM_ID);
    assert_eq!(built[1].accounts.len(), 2);
    assert_eq!(built[1].accounts[0].pubkey, payer);
    assert!(built[1].accounts[0].is_signer && built[1].accounts[0].is_writable);
    assert_eq!(built[1].accounts[1].pubkey, tip);
    assert!(!built[1].accounts[1].is_signer && built[1].accounts[1].is_writable);
    assert_eq!(built[1].data, vec![2, 0, 0, 0, 2, 1, 0, 0, 0, 0, 0, 0]);
}

#[test]
fn tip_transaction_is_the_signed_transaction_of_its_instructions() {
    let sdk = sdk_keypair();
    let tip = Pubkey::from([9u8; 32]);
    let blockhash = solana_sdk::hash::Hash::from([4u8; 32]);
    let expected = Transaction::new_signed_with_payer(
        &[
            build_memo("jito bundle 2: gm".as_bytes(), &[]),
            transfer(&sdk.pubkey(), &tip, 5000),
        ],
        Some(&sdk.pubkey()),
        &[&sdk],
        blockhash,
    );
    let built = build_tip_transaction(2, &keypair(), "gm", 5000, &[9; 32], &[4; 32]);
    assert_eq!(built.message, expected.message_data());
    assert_eq!(built.signatures.len(), 1);
    assert_eq!(&built.signatures[0][..], expected.signatures[0].as_ref());
}

#[test]
fn bundle_transactions_are_signed_by_the_payer_alone() {
    let sdk = sdk_keypair();
    let bundle = build_bundle(&keypair(), "gm", 3, 1, &[9; 32], &[4; 32]).unwrap();
    assert_eq!(bundle.len(), 3);
    for (i, built) in bundle.iter().enumerate() {
        assert_eq!(built.signatures.len(), 1);
        let message: Message = limited_deserialize(&built.message).unwrap();
        assert_eq!(message.header.num_required_signatures, 1);
        assert_eq!(message.header.num_readonly_signed_accounts, 0);
        assert_eq!(message.account_keys[0], sdk.pubkey());
        assert_eq!(message.recent_blockhash, solana_sdk::hash::Hash::from([4u8; 32]));
        assert_eq!(message.instructions.len(), 2);
        assert_eq!(message.instructions[0].data, format!("jito bundle {i}: gm").as_bytes());
        // The layout of the message bytes themselves.
        let keys = built.message[3] as usize;
        assert_eq!(keys, message.account_keys.len());
        assert_eq!(&built.message[4..36], sdk.pubkey().as_ref());
        assert_eq!(&built.message[4 + 32 * keys..36 + 32 * keys], &[4u8; 32]);
        let signature = solana_sdk::signature::Signature::from(built.signatures[0]);
        assert!(signature.verify(sdk.pubkey().as_ref(), &built.message));
    }
    assert_ne!(bundle[0].message, bundle[1].message);
    assert_ne!(bundle[1].message, bundle[2].message);
}

#[test]
fn bundle_holds_at_most_five_transactions() {
    assert_eq!(MAX_BUNDLE_TRANSACTIONS, 5);
    let none = build_bundle(&keypair(), "gm", 0, 1, &[9; 32], &[4; 32]).unwrap();
    assert!(none.is_empty());
    let five = build_bundle(&keypair(), "gm", 5, 1, &[9; 32], &[4; 32]).unwrap();
    assert_eq!(five.len(), 5);
    let six = build_bundle(&keypair(), "gm", 6, 1, &[9; 32], &[4; 32]);
    assert_eq!(six, Err(BundleError::TooManyTransactions));
}

#[test]
fn longest_message_still_fits() {
    let message = "a".repeat(65535 - 15);
    let bundle = build_bundle(&keypair(), &message, 1, 1, &[9; 32], &[4; 32]).unwrap();
    assert!(bundle[0].message.len() > 65535);
}

#[test]
fn keypair_knows_its_public_key() {
    assert_eq!(keypair().pubkey(), sdk_keypair().pubkey().to_bytes());
    assert_eq!(&sdk_keypair().to_bytes()[32..], &keypair().pubkey()[..]);
}

#[test]
fn bytes_that_are_no_keypair_are_refused() {
    let mut bytes = sdk_keypair().to_bytes();
    bytes[0] ^= 1;
    assert!(Keypair::from_bytes(bytes).is_none());
    assert!(Keypair::from_bytes([0xff; 64]).is_none());
}

fn push_compact_len(bytes: &mut Vec<u8>, n: usize) {
    if n < 128 {
        bytes.push(n as u8);
    } else if n < 16384 {
        bytes.extend([(n % 128 + 128) as u8, (n / 128) as u8]);
    } else {
        bytes.extend([(n % 128 + 128) as u8, (n / 128 % 128 + 128) as u8, (n / 16384) as u8]);
    }
}

/// Lays the message of a tip transaction out by hand, with the accounts in the order `order`.
fn lay_out(order: &[[u8; 32]], memo: &[u8], payer: [u8; 32], tip: [u8; 32], lamports: u64) -> Vec<u8> {
    let place = |key: [u8; 32]| order.iter().position(|k| *k == key).unwrap() as u8;
    let mut bytes = vec![1, 0, 2];
    push_compact_len(&mut bytes, order.len());
    for key in order {
        bytes.extend(key);
    }
    bytes.extend([4u8; 32]);
    push_compact_len(&mut bytes, 2);
    bytes.push(place(MEMO_PROGRAM_ID));
    push_compact_len(&mut bytes, 0);
    push_compact_len(&mut bytes, memo.len());
    bytes.extend(memo);
    bytes.push(place(SYSTEM_PROGRAM_ID));
    push_compact_len(&mut bytes, 2);
    bytes.extend([place(payer), place(tip)]);
    push_compact_len(&mut bytes, 12);
    bytes.extend([2, 0, 0, 0]);
    bytes.extend(lamports.to_le_bytes());
    bytes
}

#[test]
fn message_bytes_say_payer_block_and_calls() {
    let payer = keypair().pubkey();
    let tip = [9u8; 32];
    for len in [0, 112, 113, 114, 16368, 16369, 16370, 65520] {
        let text = "m".repeat(len);
        let built = build_tip_transaction(0, &keypair(), &text, 77, &tip, &[4; 32]);
        let order = [payer, tip, SYSTEM_PROGRAM_ID, MEMO_PROGRAM_ID];
        let memo = format!("jito bundle 0: {text}");
        assert_eq!(built.message, lay_out(&order, memo.as_bytes(), payer, tip, 77));
    }
}

#[test]
fn message_names_an_address_once() {
    let payer = keypair().pubkey();
    let built = build_tip_transaction(0, &keypair(), "self", 1, &payer, &[4; 32]);
    let order = [payer, SYSTEM_PROGRAM_ID, MEMO_PROGRAM_ID];
    assert_eq!(built.message, lay_out(&order, b"jito bundle 0: self", payer, payer, 1));
}

#[test]
fn message_fixes_the_tip() {
    let message = |lamports: u64, tip: u8| {
        build_tip_transaction(0, &keypair(), "gm", lamports, &[tip; 32], &[4; 32]).message
    };
    assert_eq!(message(1, 9), message(1, 9));
    assert_ne!(message(1, 9), message(2, 9));
    assert_ne!(message(1, 9), message(1, 8));
}
