//! What the transactions of a bundle say, read from the bytes that are signed: the memo, and the
//! tip that was asked for, to the account that was asked for.
use crate::bundle::{
    build_bundle, build_tip_instructions, build_tip_transaction,
    law_tip_changes_payer_and_tip_account, lemma_memo_len, lemma_tip_instructions_signable, memo,
    memo_text, tip_instructions, BundleError,
};
use crate::instruction::{
    instructions_view, le_bytes, writable, Address, Instruction, InstructionView,
};
use crate::message::{
    call_bytes, calls_bytes, compact_len, law_message_says_one_thing, lemma_account_list_covers,
    message_says, place, places, same_call,
};
use crate::programs::{
    memo_instruction, transfer_instruction, MEMO_PROGRAM_ID, SYSTEM_PROGRAM_ID,
};
use crate::reading::{
    calls_start, le_number, lemma_le_number_widths, lemma_message_front, lemma_place_is_listed,
    listed, named_at,
};
use crate::signing::{ed25519_signature, lemma_keypair_len, Keypair, SignedTransaction};
use crate::text::{decimal, law_decimal_spells, law_decimal_value, spells};
use vstd::prelude::*;
use vstd::utf8::encode_utf8;

verus! {

/// What the message of a tip transaction says, read from the bytes.
proof fn lemma_tip_message(
    message: Seq<u8>,
    blockhash: Seq<u8>,
    index: nat,
    text: Seq<char>,
    payer: Seq<u8>,
    tip_account: Seq<u8>,
    lamports: u64,
)
    requires
        blockhash.len() == 32,
        message_says(
            message,
            payer,
            blockhash,
            tip_instructions(index, text, payer, tip_account, lamports),
        ),
    ensures
        ({
            let at = calls_start(message);
            let tip = message.len() - 17;
            let note = encode_utf8(memo_text(index, text));
            &&& message[0] == 1
            &&& message[1] == 0
            &&& listed(message, 0) == payer
            &&& message.subrange(at - 32, at) == blockhash
            &&& forall|i: int|
                0 <= i < message[3] ==> (i < message[3] - message[2]
                    <==> #[trigger] listed(message, i) == payer || listed(message, i) == tip_account)
            &&& message[at] == 2
            &&& named_at(message, at + 1) == MEMO_PROGRAM_ID@
            &&& message[at + 2] == 0
            &&& tip == at + 3 + compact_len(note.len()).len() + note.len()
            &&& message.subrange(at + 3, tip - note.len()) == compact_len(note.len())
            &&& message.subrange(tip - note.len(), tip) == note
            &&& named_at(message, tip) == SYSTEM_PROGRAM_ID@
            &&& message[tip + 1] == 2
            &&& named_at(message, tip + 2) == payer
            &&& named_at(message, tip + 3) == tip_account
            &&& message[tip + 4] == 12
            &&& le_number(message.subrange(tip + 5, tip + 9)) == 2
            &&& le_number(message.subrange(tip + 9, tip + 17)) == lamports
            &&& message.len() == tip + 17
        }),
{
    let instructions = tip_instructions(index, text, payer, tip_account, lamports);
    let keys = lemma_message_front(message, payer, blockhash, instructions);
    let at = calls_start(message);
    let note = encode_utf8(memo_text(index, text));
    let first = instructions[0];
    let second = instructions[1];
    assert(first == memo_instruction(note, Seq::empty()));
    assert(first.accounts.len() == 0);
    assert(second == transfer_instruction(payer, tip_account, lamports));
    lemma_account_list_covers(message[2], keys, payer, instructions, 0);
    lemma_account_list_covers(message[2], keys, payer, instructions, 1);
    assert(second.accounts[0] == writable(payer, true));
    assert(second.accounts[1] == writable(tip_account, false));
    lemma_place_is_listed(keys, first.program_id);
    lemma_place_is_listed(keys, second.program_id);
    lemma_place_is_listed(keys, payer);
    lemma_place_is_listed(keys, tip_account);
    lemma_tip_calls(keys, instructions);
    lemma_memo_call(keys, note);
    lemma_transfer_call(keys, payer, tip_account, lamports);
    assert(compact_len(2) =~= seq![2u8]);
    lemma_tip_layout(
        message,
        at,
        place(keys, first.program_id),
        note,
        place(keys, second.program_id),
        place(keys, payer),
        place(keys, tip_account),
        lamports,
    );
    assert forall|i: int| 0 <= i < message[3] implies (i < message[3] - message[2]
        <==> #[trigger] listed(message, i) == payer || listed(message, i) == tip_account) by {
        assert(listed(message, i) == keys[i]);
        law_tip_changes_payer_and_tip_account(
            index,
            text,
            payer,
            tip_account,
            lamports,
            keys[i],
        );
    }
}

/// The call that leaves a memo.
proof fn lemma_memo_call(keys: Seq<Seq<u8>>, note: Seq<u8>)
    ensures
        call_bytes(keys, memo_instruction(note, Seq::empty())) == seq![
            place(keys, MEMO_PROGRAM_ID@),
            0u8,
        ] + compact_len(note.len()) + note,
{
    let instruction = memo_instruction(note, Seq::empty());
    assert(instruction.accounts.len() == 0);
    assert(places(keys, instruction.accounts) =~= Seq::empty());
    assert(compact_len(0) =~= seq![0u8]);
    assert(call_bytes(keys, instruction) =~= seq![place(keys, MEMO_PROGRAM_ID@), 0u8]
        + compact_len(note.len()) + note);
}

/// The call that moves lamports.
proof fn lemma_transfer_call(
    keys: Seq<Seq<u8>>,
    payer: Seq<u8>,
    tip_account: Seq<u8>,
    lamports: u64,
)
    ensures
        call_bytes(keys, transfer_instruction(payer, tip_account, lamports)) == seq![
            place(keys, SYSTEM_PROGRAM_ID@),
            2u8,
            place(keys, payer),
            place(keys, tip_account),
            12u8,
        ] + (le_bytes(2, 4) + le_bytes(lamports as nat, 8)),
{
    let instruction = transfer_instruction(payer, tip_account, lamports);
    let data = le_bytes(2, 4) + le_bytes(lamports as nat, 8);
    lemma_le_number_widths();
    assert(data.len() == 12);
    assert(places(keys, instruction.accounts) =~= seq![
        place(keys, payer),
        place(keys, tip_account),
    ]);
    assert(compact_len(2) =~= seq![2u8]);
    assert(compact_len(12) =~= seq![12u8]);
    assert(call_bytes(keys, instruction) =~= seq![
        place(keys, SYSTEM_PROGRAM_ID@),
        2u8,
        place(keys, payer),
        place(keys, tip_account),
        12u8,
    ] + data);
}

/// Where the parts of the two calls are.
proof fn lemma_tip_layout(
    message: Seq<u8>,
    at: int,
    memo_place: u8,
    note: Seq<u8>,
    system_place: u8,
    payer_place: u8,
    tip_place: u8,
    lamports: u64,
)
    requires
        0 <= at <= message.len(),
        message.skip(at) == seq![2u8] + ((seq![memo_place, 0u8] + compact_len(note.len()) + note)
            + (seq![system_place, 2u8, payer_place, tip_place, 12u8] + (le_bytes(2, 4) + le_bytes(
            lamports as nat,
            8,
        )))),
    ensures
        ({
            let tip = message.len() - 17;
            &&& tip == at + 3 + compact_len(note.len()).len() + note.len()
            &&& message[at] == 2
            &&& message[at + 1] == memo_place
            &&& message[at + 2] == 0
            &&& message.subrange(at + 3, tip - note.len()) == compact_len(note.len())
            &&& message.subrange(tip - note.len(), tip) == note
            &&& message[tip] == system_place
            &&& message[tip + 1] == 2
            &&& message[tip + 2] == payer_place
            &&& message[tip + 3] == tip_place
            &&& message[tip + 4] == 12
            &&& le_number(message.subrange(tip + 5, tip + 9)) == 2
            &&& le_number(message.subrange(tip + 9, tip + 17)) == lamports
        }),
{
    lemma_le_number_widths();
    assert(le_number(le_bytes(2u8 as nat, 4)) == 2);
    let rest = message.skip(at);
    let len_bytes = compact_len(note.len());
    let head = seq![2u8, memo_place, 0u8];
    let call = seq![system_place, 2u8, payer_place, tip_place, 12u8];
    let start = 3 + len_bytes.len() as int;
    let end = start + note.len();
    assert(rest =~= head + len_bytes + note + call + le_bytes(2, 4) + le_bytes(
        lamports as nat,
        8,
    ));
    assert(rest.len() == end + 17);
    assert(rest.len() == message.len() - at);
    let tip = message.len() - 17;
    assert(tip == at + end);
    assert(message =~= message.take(at) + rest);
    assert(message[at] == rest[0]);
    assert(message[at + 1] == rest[1]);
    assert(message[at + 2] == rest[2]);
    assert(message.subrange(at + 3, at + start) =~= len_bytes);
    assert(message.subrange(at + start, at + end) =~= note);
    assert(message[tip] == rest[end] && rest[end] == call[0]);
    assert(message[tip + 1] == rest[end + 1] && rest[end + 1] == call[1]);
    assert(message[tip + 2] == rest[end + 2] && rest[end + 2] == call[2]);
    assert(message[tip + 3] == rest[end + 3] && rest[end + 3] == call[3]);
    assert(message[tip + 4] == rest[end + 4] && rest[end + 4] == call[4]);
    assert(message.subrange(tip + 5, tip + 9) =~= le_bytes(2, 4));
    assert(message.subrange(tip + 9, tip + 17) =~= le_bytes(lamports as nat, 8));
}

/// The calls of two instructions.
proof fn lemma_tip_calls(keys: Seq<Seq<u8>>, instructions: Seq<InstructionView>)
    requires
        instructions.len() == 2,
    ensures
        calls_bytes(keys, instructions) == call_bytes(keys, instructions[0]) + call_bytes(
            keys,
            instructions[1],
        ),
{
    reveal_with_fuel(calls_bytes, 3);
    let rest = instructions.drop_first();
    assert(rest.first() == instructions[1]);
    assert(rest.drop_first().len() == 0);
    assert(calls_bytes(keys, rest) =~= call_bytes(keys, instructions[1]));
}

/// The memo of a transaction names its number, spelled in decimal, and the message.
pub proof fn law_memo_names_number_and_message(index: usize, message: &str, text: String)
    requires
        call_ensures(memo, (index, message), text),
    ensures
        exists|digits: Seq<char>| #[trigger]
            spells(digits, index as int) && text@ == "jito bundle "@ + digits + ": "@ + message@,
{
    law_decimal_spells(index as nat);
    assert(spells(decimal(index as nat), index as int));
}

/// The instructions of a transaction: the memo, without accounts; and then the transfer of exactly
/// the given lamports from the payer, who signs, to the given account.
pub proof fn law_tip_instructions_read_back(
    index: usize,
    message: &str,
    payer: &Address,
    tip_account: &Address,
    lamports: u64,
    instructions: Vec<Instruction>,
)
    requires
        call_ensures(
            build_tip_instructions,
            (index, message, payer, tip_account, lamports),
            instructions,
        ),
    ensures
        instructions@.len() == 2,
        instructions@[0].program_id@ == MEMO_PROGRAM_ID@,
        instructions@[0].accounts@.len() == 0,
        exists|digits: Seq<char>| #[trigger]
            spells(digits, index as int) && instructions@[0].data@ == encode_utf8(
                "jito bundle "@ + digits + ": "@ + message@,
            ),
        instructions@[1].program_id@ == SYSTEM_PROGRAM_ID@,
        ({
            let accounts = instructions@[1].accounts@;
            &&& accounts.len() == 2
            &&& accounts[0].pubkey@ == payer@
            &&& accounts[0].is_signer
            &&& accounts[0].is_writable
            &&& accounts[1].pubkey@ == tip_account@
            &&& !accounts[1].is_signer
            &&& accounts[1].is_writable
        }),
        instructions@[1].data@.len() == 12,
        le_number(instructions@[1].data@.subrange(0, 4)) == 2,
        le_number(instructions@[1].data@.subrange(4, 12)) == lamports,
{
    law_decimal_spells(index as nat);
    assert(spells(decimal(index as nat), index as int));
    let views = instructions_view(instructions@);
    assert(views[0] == instructions@[0]@);
    assert(views[1] == instructions@[1]@);
    assert(views[0].accounts.len() == 0);
    assert(instructions@[0]@.accounts.len() == instructions@[0].accounts@.len());
    let second = views[1];
    assert(second.accounts.len() == 2);
    assert(second.accounts.len() == instructions@[1].accounts@.len());
    assert(second.accounts[0] == writable(payer@, true));
    assert(second.accounts[1] == writable(tip_account@, false));
    assert(second.accounts[0] == instructions@[1].accounts@[0]@);
    assert(second.accounts[1] == instructions@[1].accounts@[1]@);
    lemma_le_number_widths();
    assert(le_number(le_bytes(2u8 as nat, 4)) == 2);
    assert(second.data.subrange(0, 4) =~= le_bytes(2, 4));
    assert(second.data.subrange(4, 12) =~= le_bytes(lamports as nat, 8));
}

/// A tip transaction reads back from the message that is signed for it: the payer signs and pays;
/// the first call leaves the memo; the second, to the system program, moves exactly the given
/// lamports from the payer to the given account; and no other account may be changed.
pub proof fn law_tip_transaction_reads_back(
    index: usize,
    keypair: &Keypair,
    text: &str,
    lamports: u64,
    tip_account: &Address,
    blockhash: &Address,
    transaction: SignedTransaction,
)
    requires
        call_ensures(
            build_tip_transaction,
            (index, keypair, text, lamports, tip_account, blockhash),
            transaction,
        ),
    ensures
        transaction.signatures@.len() == 1,
        transaction.signatures@[0]@ == ed25519_signature(keypair@, transaction.message@),
        exists|digits: Seq<char>| #[trigger]
            spells(digits, index as int) && {
                let message = transaction.message@;
                let at = calls_start(message);
                let tip = message.len() - 17;
                let note = encode_utf8("jito bundle "@ + digits + ": "@ + text@);
                &&& tip == at + 3 + compact_len(note.len()).len() + note.len()
                &&& message.subrange(at + 3, tip - note.len()) == compact_len(note.len())
                &&& message.subrange(tip - note.len(), tip) == note
            },
        ({
            let message = transaction.message@;
            let at = calls_start(message);
            let tip = message.len() - 17;
            &&& message[0] == 1
            &&& message[1] == 0
            &&& listed(message, 0) == keypair@.subrange(32, 64)
            &&& message.subrange(at - 32, at) == blockhash@
            &&& forall|i: int|
                0 <= i < message[3] ==> (i < message[3] - message[2]
                    <==> #[trigger] listed(message, i) == keypair@.subrange(32, 64) || listed(message, i) == tip_account@)
            &&& message[at] == 2
            &&& named_at(message, at + 1) == MEMO_PROGRAM_ID@
            &&& message[at + 2] == 0
            &&& named_at(message, tip) == SYSTEM_PROGRAM_ID@
            &&& message[tip + 1] == 2
            &&& named_at(message, tip + 2) == keypair@.subrange(32, 64)
            &&& named_at(message, tip + 3) == tip_account@
            &&& message[tip + 4] == 12
            &&& le_number(message.subrange(tip + 5, tip + 9)) == 2
            &&& le_number(message.subrange(tip + 9, tip + 17)) == lamports
            &&& message.len() == tip + 17
        }),
{
    lemma_keypair_len(keypair);
    law_decimal_spells(index as nat);
    assert(spells(decimal(index as nat), index as int));
    assert(transaction@.signatures.len() == 1);
    assert(transaction@.signatures[0] == transaction.signatures@[0]@);
    lemma_tip_message(
        transaction.message@,
        blockhash@,
        index as nat,
        text@,
        keypair@.subrange(32, 64),
        tip_account@,
        lamports,
    );
}

/// A bundle holds as many transactions as asked for, and is refused exactly if these are more than
/// five.
pub proof fn law_bundle_holds_at_most_five(
    keypair: &Keypair,
    text: &str,
    num_txs: usize,
    lamports: u64,
    tip_account: &Address,
    blockhash: &Address,
    bundle: Result<Vec<SignedTransaction>, BundleError>,
)
    requires
        call_ensures(
            build_bundle,
            (keypair, text, num_txs, lamports, tip_account, blockhash),
            bundle,
        ),
    ensures
        bundle is Ok <==> num_txs <= 5,
        bundle matches Ok(txs) ==> txs@.len() == num_txs,
        bundle matches Err(e) ==> e is TooManyTransactions,
{
}

/// Every transaction of a bundle reads back from the message that is signed for it: the payer signs
/// and pays; the first call leaves the memo with the transaction's own number; the second, to the
/// system program, moves exactly the given lamports from the payer to the given account; and no
/// other account may be changed.
pub proof fn law_bundle_reads_back(
    keypair: &Keypair,
    text: &str,
    num_txs: usize,
    lamports: u64,
    tip_account: &Address,
    blockhash: &Address,
    bundle: Result<Vec<SignedTransaction>, BundleError>,
    number: int,
)
    requires
        call_ensures(
            build_bundle,
            (keypair, text, num_txs, lamports, tip_account, blockhash),
            bundle,
        ),
        0 <= number < num_txs <= 5,
    ensures
        bundle is Ok,
        bundle->Ok_0@[number].signatures@.len() == 1,
        bundle->Ok_0@[number].signatures@[0]@ == ed25519_signature(
            keypair@,
            bundle->Ok_0@[number].message@,
        ),
        ({
            let message = bundle->Ok_0@[number].message@;
            let at = calls_start(message);
            let tip = message.len() - 17;
            let note = encode_utf8(
                "jito bundle "@ + seq!["01234"@[number]] + ": "@ + text@,
            );
            &&& message[0] == 1
            &&& message[1] == 0
            &&& listed(message, 0) == keypair@.subrange(32, 64)
            &&& message.subrange(at - 32, at) == blockhash@
            &&& forall|i: int|
                0 <= i < message[3] ==> (i < message[3] - message[2]
                    <==> #[trigger] listed(message, i) == keypair@.subrange(32, 64) || listed(message, i) == tip_account@)
            &&& message[at] == 2
            &&& named_at(message, at + 1) == MEMO_PROGRAM_ID@
            &&& message[at + 2] == 0
            &&& tip == at + 3 + compact_len(note.len()).len() + note.len()
            &&& message.subrange(at + 3, tip - note.len()) == compact_len(note.len())
            &&& message.subrange(tip - note.len(), tip) == note
            &&& named_at(message, tip) == SYSTEM_PROGRAM_ID@
            &&& message[tip + 1] == 2
            &&& named_at(message, tip + 2) == keypair@.subrange(32, 64)
            &&& named_at(message, tip + 3) == tip_account@
            &&& message[tip + 4] == 12
            &&& le_number(message.subrange(tip + 5, tip + 9)) == 2
            &&& le_number(message.subrange(tip + 9, tip + 17)) == lamports
            &&& message.len() == tip + 17
        }),
{
    let transaction = bundle->Ok_0@[number];
    lemma_keypair_len(keypair);
    reveal_strlit("01234");
    assert(decimal(number as nat) =~= seq!["01234"@[number]]);
    assert(transaction@.signatures.len() == 1);
    assert(transaction@.signatures[0] == transaction.signatures@[0]@);
    lemma_tip_message(
        transaction.message@,
        blockhash@,
        number as nat,
        text@,
        keypair@.subrange(32, 64),
        tip_account@,
        lamports,
    );
}

/// Two transactions of bundles with the same message move the same lamports from the same payer to
/// the same account, on the same block hash, with the same number and the same text. So bundles
/// that were asked for with other lamports, for another account or with another text have other
/// messages, and no two transactions of one bundle have the same.
pub proof fn law_bundle_message_tells_what_was_asked(
    keypair_a: &Keypair,
    text_a: &str,
    num_txs_a: usize,
    lamports_a: u64,
    tip_account_a: &Address,
    blockhash_a: &Address,
    bundle_a: Result<Vec<SignedTransaction>, BundleError>,
    number_a: int,
    keypair_b: &Keypair,
    text_b: &str,
    num_txs_b: usize,
    lamports_b: u64,
    tip_account_b: &Address,
    blockhash_b: &Address,
    bundle_b: Result<Vec<SignedTransaction>, BundleError>,
    number_b: int,
)
    requires
        15 + encode_utf8(text_a@).len() <= 65535,
        15 + encode_utf8(text_b@).len() <= 65535,
        call_ensures(
            build_bundle,
            (keypair_a, text_a, num_txs_a, lamports_a, tip_account_a, blockhash_a),
            bundle_a,
        ),
        call_ensures(
            build_bundle,
            (keypair_b, text_b, num_txs_b, lamports_b, tip_account_b, blockhash_b),
            bundle_b,
        ),
        0 <= number_a < num_txs_a <= 5,
        0 <= number_b < num_txs_b <= 5,
        bundle_a->Ok_0@[number_a].message@ == bundle_b->Ok_0@[number_b].message@,
    ensures
        lamports_a == lamports_b,
        tip_account_a@ == tip_account_b@,
        keypair_a@.subrange(32, 64) == keypair_b@.subrange(32, 64),
        blockhash_a@ == blockhash_b@,
        number_a == number_b,
        text_a@ == text_b@,
{
    law_bundle_reads_back(
        keypair_a,
        text_a,
        num_txs_a,
        lamports_a,
        tip_account_a,
        blockhash_a,
        bundle_a,
        number_a,
    );
    law_bundle_reads_back(
        keypair_b,
        text_b,
        num_txs_b,
        lamports_b,
        tip_account_b,
        blockhash_b,
        bundle_b,
        number_b,
    );
    let transaction_a = bundle_a->Ok_0@[number_a];
    let transaction_b = bundle_b->Ok_0@[number_b];
    let payer_a = keypair_a@.subrange(32, 64);
    let payer_b = keypair_b@.subrange(32, 64);
    lemma_memo_len(number_a as nat, text_a@);
    lemma_memo_len(number_b as nat, text_b@);
    lemma_tip_instructions_signable(
        number_a as nat,
        text_a@,
        payer_a,
        tip_account_a@,
        lamports_a,
    );
    lemma_tip_instructions_signable(
        number_b as nat,
        text_b@,
        payer_b,
        tip_account_b@,
        lamports_b,
    );
    let a = tip_instructions(number_a as nat, text_a@, payer_a, tip_account_a@, lamports_a);
    let b = tip_instructions(number_b as nat, text_b@, payer_b, tip_account_b@, lamports_b);
    law_message_says_one_thing(
        transaction_a.message@,
        payer_a,
        blockhash_a@,
        a,
        payer_b,
        blockhash_b@,
        b,
    );
    assert(same_call(a[0], b[0]));
    let memo_a = memo_text(number_a as nat, text_a@);
    let memo_b = memo_text(number_b as nat, text_b@);
    vstd::utf8::encode_utf8_decode_utf8(memo_a);
    vstd::utf8::encode_utf8_decode_utf8(memo_b);
    assert(memo_a == memo_b);
    reveal_strlit("jito bundle ");
    reveal_strlit(": ");
    assert(memo_a[12] == decimal(number_a as nat)[0]);
    assert(memo_b[12] == decimal(number_b as nat)[0]);
    law_decimal_value(number_a as nat);
    law_decimal_value(number_b as nat);
    assert(decimal(number_a as nat) =~= decimal(number_b as nat));
    assert(memo_a.skip(15) =~= text_a@);
    assert(memo_b.skip(15) =~= text_b@);
}

} // verus!
