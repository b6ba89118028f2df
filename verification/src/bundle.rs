//! Bundles of transactions that each leave a memo and tip the block engine.
use crate::instruction::{
    byte_range, instructions_view, le_bytes, lemma_le_bytes_injective, lemma_le_bytes_len, writable,
    Address, Instruction, InstructionView,
};
use crate::message::{
    address_count, fits_message, law_message_says_one_thing, may_write, message_says,
    names_writable, needs_no_other_signer, same_call, MAX_DATA_LEN,
};
use crate::programs::{build_memo, from_raw, memo_instruction, transfer, transfer_instruction};
use crate::signing::{is_signed, public_half, Keypair, SignedTransaction, TransactionView};
use crate::text::{append_decimal, decimal, law_decimal_value};
use vstd::prelude::*;
use vstd::string::StringExecFns;
use vstd::utf8::{encode_utf8, is_ascii_chars};

verus! {

/// The most transactions that one bundle holds.
pub const MAX_BUNDLE_TRANSACTIONS: usize = 5;

/// Why a bundle was not built.
#[derive(Clone, Copy, Debug, PartialEq, Eq)]
pub enum BundleError {
    /// More transactions were asked for than a bundle holds.
    TooManyTransactions,
}

/// The memo of the transaction with this number.
pub open spec fn memo_text(index: nat, message: Seq<char>) -> Seq<char> {
    "jito bundle "@ + decimal(index) + ": "@ + message
}

/// The memo of the transaction with this number.
pub fn memo(index: usize, message: &str) -> (text: String)
    ensures
        text@ == memo_text(index as nat, message@),
{
    let mut text = String::new();
    text.append("jito bundle ");
    append_decimal(&mut text, index as u64);
    text.append(": ");
    text.append(message);
    assert(text@ =~= memo_text(index as nat, message@));
    text
}

/// What the transaction with this number does: it leaves its memo, unsigned, and then moves
/// `lamports` from the payer to the tip account.
pub open spec fn tip_instructions(
    index: nat,
    message: Seq<char>,
    payer: Seq<u8>,
    tip_account: Seq<u8>,
    lamports: u64,
) -> Seq<InstructionView> {
    seq![
        memo_instruction(encode_utf8(memo_text(index, message)), Seq::empty()),
        transfer_instruction(payer, tip_account, lamports),
    ]
}

/// The instructions of the transaction with this number.
pub fn build_tip_instructions(
    index: usize,
    message: &str,
    payer: &Address,
    tip_account: &Address,
    lamports: u64,
) -> (instructions: Vec<Instruction>)
    ensures
        instructions@.len() == 2,
        instructions_view(instructions@) == tip_instructions(
            index as nat,
            message@,
            payer@,
            tip_account@,
            lamports,
        ),
{
    let text = memo(index, message);
    let signers: Vec<Address> = Vec::new();
    let note = from_raw(build_memo(text.as_str().as_bytes(), &signers));
    assert(signers@.map_values(|signer: Address| signer@) =~= Seq::empty());
    let tip = from_raw(transfer(payer, tip_account, lamports));
    let mut instructions: Vec<Instruction> = Vec::new();
    instructions.push(note);
    instructions.push(tip);
    assert(instructions_view(instructions@) =~= tip_instructions(
        index as nat,
        message@,
        payer@,
        tip_account@,
        lamports,
    ));
    instructions
}

/// The transaction is the signed one with this number.
pub open spec fn is_tip_transaction(
    transaction: TransactionView,
    index: nat,
    keypair: Seq<u8>,
    message: Seq<char>,
    lamports: u64,
    tip_account: Seq<u8>,
    blockhash: Seq<u8>,
) -> bool {
    is_signed(
        transaction,
        keypair,
        blockhash,
        tip_instructions(index, message, public_half(keypair), tip_account, lamports),
    )
}

/// Two instructions of a tip transaction fit in a message, and only the payer signs them.
pub proof fn lemma_tip_instructions_signable(
    index: nat,
    message: Seq<char>,
    payer: Seq<u8>,
    tip_account: Seq<u8>,
    lamports: u64,
)
    requires
        encode_utf8(memo_text(index, message)).len() <= MAX_DATA_LEN,
    ensures
        needs_no_other_signer(tip_instructions(index, message, payer, tip_account, lamports), payer),
        fits_message(tip_instructions(index, message, payer, tip_account, lamports)),
{
    let instructions = tip_instructions(index, message, payer, tip_account, lamports);
    lemma_le_bytes_len(2, 4);
    lemma_le_bytes_len(lamports as nat, 8);
    reveal_with_fuel(address_count, 3);
    assert(instructions.drop_last().last() == instructions[0]);
    assert(instructions.drop_last().drop_last().len() == 0);
}

/// Builds and signs the transaction with this number. The memo has to fit in an instruction.
pub fn build_tip_transaction(
    index: usize,
    keypair: &Keypair,
    message: &str,
    lamports: u64,
    tip_account: &Address,
    blockhash: &Address,
) -> (transaction: SignedTransaction)
    requires
        encode_utf8(memo_text(index as nat, message@)).len() <= MAX_DATA_LEN,
    ensures
        is_tip_transaction(
            transaction@,
            index as nat,
            keypair@,
            message@,
            lamports,
            tip_account@,
            blockhash@,
        ),
{
    let payer = keypair.pubkey();
    let instructions = build_tip_instructions(index, message, &payer, tip_account, lamports);
    proof {
        lemma_tip_instructions_signable(index as nat, message@, payer@, tip_account@, lamports);
    }
    keypair.sign(instructions, blockhash)
}

/// The encoding of a text is the encodings of its parts.
proof fn lemma_encode_utf8_concat(a: Seq<char>, b: Seq<char>)
    ensures
        encode_utf8(a + b) == encode_utf8(a) + encode_utf8(b),
    decreases a.len(),
{
    if a.len() == 0 {
        assert(a + b =~= b);
        assert(encode_utf8(a) + encode_utf8(b) =~= encode_utf8(b));
    } else {
        assert((a + b).drop_first() =~= a.drop_first() + b);
        lemma_encode_utf8_concat(a.drop_first(), b);
        assert(encode_utf8(a + b) =~= encode_utf8(a) + encode_utf8(b));
    }
}

/// The memo of one of the first ten transactions is 15 bytes longer than the message.
pub proof fn lemma_memo_len(index: nat, message: Seq<char>)
    requires
        index < 10,
    ensures
        encode_utf8(memo_text(index, message)).len() == 15 + encode_utf8(message).len(),
{
    reveal_strlit("jito bundle ");
    reveal_strlit(": ");
    let head = "jito bundle "@ + decimal(index) + ": "@;
    assert(head.len() == 15);
    assert(is_ascii_chars(head));
    vstd::utf8::is_ascii_chars_encode_utf8(head);
    lemma_encode_utf8_concat(head, message);
}

/// Builds the transactions of a bundle, numbered from 0, or refuses if there are too many.
///
/// A message whose memo is too long for an instruction is not accepted.
pub fn build_bundle(
    keypair: &Keypair,
    message: &str,
    num_txs: usize,
    lamports: u64,
    tip_account: &Address,
    blockhash: &Address,
) -> (bundle: Result<Vec<SignedTransaction>, BundleError>)
    requires
        0 < num_txs <= MAX_BUNDLE_TRANSACTIONS ==> 15 + encode_utf8(message@).len() <= MAX_DATA_LEN,
    ensures
        bundle is Err <==> num_txs > MAX_BUNDLE_TRANSACTIONS,
        bundle matches Err(e) ==> e == BundleError::TooManyTransactions,
        bundle matches Ok(txs) ==> {
            &&& txs@.len() == num_txs
            &&& forall|i: int|
                0 <= i < num_txs ==> is_tip_transaction(
                    (#[trigger] txs@[i])@,
                    i as nat,
                    keypair@,
                    message@,
                    lamports,
                    tip_account@,
                    blockhash@,
                )
        },
{
    if num_txs > MAX_BUNDLE_TRANSACTIONS {
        return Err(BundleError::TooManyTransactions);
    }
    let mut txs: Vec<SignedTransaction> = Vec::new();
    let mut index: usize = 0;
    while index < num_txs
        invariant
            index <= num_txs <= MAX_BUNDLE_TRANSACTIONS,
            num_txs > 0 ==> 15 + encode_utf8(message@).len() <= MAX_DATA_LEN,
            txs@.len() == index,
            forall|i: int|
                0 <= i < index ==> is_tip_transaction(
                    (#[trigger] txs@[i])@,
                    i as nat,
                    keypair@,
                    message@,
                    lamports,
                    tip_account@,
                    blockhash@,
                ),
        decreases num_txs - index,
    {
        proof {
            lemma_memo_len(index as nat, message@);
        }
        txs.push(build_tip_transaction(index, keypair, message, lamports, tip_account, blockhash));
        index += 1;
    }
    Ok(txs)
}

/// Two numbers with the same memo are the same number.
pub proof fn law_memos_distinct(i: nat, j: nat, message: Seq<char>)
    requires
        memo_text(i, message) == memo_text(j, message),
    ensures
        i == j,
{
    let a = memo_text(i, message);
    let b = memo_text(j, message);
    let start = "jito bundle "@.len() as int;
    let end = ": "@.len() + message.len();
    assert(a.len() == start + decimal(i).len() + end);
    assert(b.len() == start + decimal(j).len() + end);
    assert(decimal(i) =~= a.subrange(start, start + decimal(i).len()));
    assert(decimal(j) =~= b.subrange(start, start + decimal(j).len()));
    law_decimal_value(i);
    law_decimal_value(j);
}

/// No two transactions of a bundle have the same message: their memos differ.
pub proof fn law_bundle_messages_distinct(
    i: nat,
    j: nat,
    text: Seq<char>,
    payer: Seq<u8>,
    tip_account: Seq<u8>,
    lamports: u64,
    blockhash: Seq<u8>,
    message_i: Seq<u8>,
    message_j: Seq<u8>,
)
    requires
        i != j,
        blockhash.len() == 32,
        encode_utf8(memo_text(i, text)).len() <= MAX_DATA_LEN,
        encode_utf8(memo_text(j, text)).len() <= MAX_DATA_LEN,
        message_says(
            message_i,
            payer,
            blockhash,
            tip_instructions(i, text, payer, tip_account, lamports),
        ),
        message_says(
            message_j,
            payer,
            blockhash,
            tip_instructions(j, text, payer, tip_account, lamports),
        ),
    ensures
        message_i != message_j,
{
    let a = tip_instructions(i, text, payer, tip_account, lamports);
    let b = tip_instructions(j, text, payer, tip_account, lamports);
    if message_i == message_j {
        lemma_tip_instructions_signable(i, text, payer, tip_account, lamports);
        lemma_tip_instructions_signable(j, text, payer, tip_account, lamports);
        law_message_says_one_thing(message_i, payer, blockhash, a, payer, blockhash, b);
        assert(same_call(a[0], b[0]));
        vstd::utf8::encode_utf8_decode_utf8(memo_text(i, text));
        vstd::utf8::encode_utf8_decode_utf8(memo_text(j, text));
        law_memos_distinct(i, j, text);
    }
}

/// A message that tips says how much and to whom: two tip transactions with the same message move
/// the same amount from the same payer to the same account.
pub proof fn law_message_fixes_the_tip(
    message: Seq<u8>,
    blockhash: Seq<u8>,
    i: nat,
    text_i: Seq<char>,
    payer_i: Seq<u8>,
    tip_account_i: Seq<u8>,
    lamports_i: u64,
    j: nat,
    text_j: Seq<char>,
    payer_j: Seq<u8>,
    tip_account_j: Seq<u8>,
    lamports_j: u64,
)
    requires
        blockhash.len() == 32,
        encode_utf8(memo_text(i, text_i)).len() <= MAX_DATA_LEN,
        encode_utf8(memo_text(j, text_j)).len() <= MAX_DATA_LEN,
        message_says(
            message,
            payer_i,
            blockhash,
            tip_instructions(i, text_i, payer_i, tip_account_i, lamports_i),
        ),
        message_says(
            message,
            payer_j,
            blockhash,
            tip_instructions(j, text_j, payer_j, tip_account_j, lamports_j),
        ),
    ensures
        payer_i == payer_j,
        tip_account_i == tip_account_j,
        lamports_i == lamports_j,
{
    let a = tip_instructions(i, text_i, payer_i, tip_account_i, lamports_i);
    let b = tip_instructions(j, text_j, payer_j, tip_account_j, lamports_j);
    lemma_tip_instructions_signable(i, text_i, payer_i, tip_account_i, lamports_i);
    lemma_tip_instructions_signable(j, text_j, payer_j, tip_account_j, lamports_j);
    law_message_says_one_thing(message, payer_i, blockhash, a, payer_j, blockhash, b);
    assert(same_call(a[1], b[1]));
    assert(a[1].accounts[1].pubkey == b[1].accounts[1].pubkey);
    lemma_le_bytes_len(2, 4);
    assert(le_bytes(lamports_i as nat, 8) =~= a[1].data.skip(4));
    assert(le_bytes(lamports_j as nat, 8) =~= b[1].data.skip(4));
    assert(byte_range(8) == 0x1_0000_0000_0000_0000) by {
        reveal_with_fuel(byte_range, 9);
    }
    lemma_le_bytes_injective(lamports_i as nat, lamports_j as nat, 8);
}

/// A transaction of a bundle may change the payer's account and the tip account, and no other.
pub proof fn law_tip_changes_payer_and_tip_account(
    index: nat,
    message: Seq<char>,
    payer: Seq<u8>,
    tip_account: Seq<u8>,
    lamports: u64,
    key: Seq<u8>,
)
    ensures
        may_write(payer, tip_instructions(index, message, payer, tip_account, lamports), key)
            <==> key == payer || key == tip_account,
{
    let instructions = tip_instructions(index, message, payer, tip_account, lamports);
    assert(instructions[1].accounts[0] == writable(payer, true));
    assert(instructions[1].accounts[1] == writable(tip_account, false));
    if key == tip_account {
        assert(names_writable(instructions[1], key));
    }
}

} // verus!
