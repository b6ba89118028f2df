//! Reading transactions from their bytes: the accounts that a message lists, the calls that it
//! makes, and the instruction that a call carries.
use crate::instruction::{
    byte_range, flag_byte, instruction_bytes, le_bytes, lemma_instruction_bytes_len,
    lemma_le_bytes_len, lemma_metas_bytes_len, meta_bytes, metas_bytes, well_formed,
    AccountMetaView, InstructionView,
};
use crate::message::{
    call_bytes, calls_bytes, compact_len, is_account_list, keys_bytes, lemma_account_list_covers,
    lemma_keys_bytes_len, lemma_message_parts,
    message_bytes, message_says, place, places,
};
use vstd::prelude::*;

verus! {

/// The number that bytes stand for, the lowest first.
pub open spec fn le_number(bytes: Seq<u8>) -> nat
    decreases bytes.len(),
{
    if bytes.len() == 0 {
        0
    } else {
        bytes[0] as nat + 256 * le_number(bytes.drop_first())
    }
}

/// The `i`-th account that a message lists.
pub open spec fn listed(message: Seq<u8>, i: int) -> Seq<u8> {
    message.subrange(4 + 32 * i, 36 + 32 * i)
}

/// Where the calls of a message begin: behind the header, the accounts and the block hash.
pub open spec fn calls_start(message: Seq<u8>) -> int {
    36 + 32 * message[3]
}

/// The listed account whose number stands at this place of a message.
pub open spec fn named_at(message: Seq<u8>, at: int) -> Seq<u8> {
    listed(message, message[at] as int)
}

/// The number of the `j`-th account that the first call of a message is made with.
pub open spec fn call_place(message: Seq<u8>, j: int) -> int {
    message[calls_start(message) + 3 + j] as int
}

/// The `j`-th account that the first call of a message is made with.
pub open spec fn call_account(message: Seq<u8>, j: int) -> Seq<u8> {
    listed(message, call_place(message, j))
}

/// The `j`-th account of an instruction that is carried as these bytes.
pub open spec fn carried_account(carried: Seq<u8>, j: int) -> Seq<u8> {
    carried.subrange(40 + 34 * j, 72 + 34 * j)
}

/// The two flags of the `j`-th account of an instruction that is carried as these bytes: whether
/// it signs, and whether it may be changed.
pub open spec fn carried_flags(carried: Seq<u8>, j: int) -> (u8, u8) {
    (carried[72 + 34 * j], carried[73 + 34 * j])
}

/// Reading the bytes of a number gives the number back.
pub proof fn law_le_number(n: nat, width: nat)
    requires
        n < byte_range(width),
    ensures
        le_number(le_bytes(n, width)) == n,
    decreases width,
{
    if width > 0 {
        let rest = (width - 1) as nat;
        law_le_number(n / 256, rest);
        assert(le_bytes(n, width)[0] == (n % 256) as u8);
        assert(le_bytes(n, width).drop_first() =~= le_bytes(n / 256, rest));
    }
}

/// Reading the bytes of a number of a usual width gives the number back.
pub proof fn lemma_le_number_widths()
    ensures
        forall|n: u64| le_number(#[trigger] le_bytes(n as nat, 8)) == n,
        forall|n: u16| le_number(#[trigger] le_bytes(n as nat, 2)) == n,
        forall|n: u8| le_number(#[trigger] le_bytes(n as nat, 4)) == n,
        forall|n: nat, width: nat| (#[trigger] le_bytes(n, width)).len() == width,
{
    reveal_with_fuel(byte_range, 9);
    assert forall|n: u64| le_number(#[trigger] le_bytes(n as nat, 8)) == n by {
        law_le_number(n as nat, 8);
    }
    assert forall|n: u16| le_number(#[trigger] le_bytes(n as nat, 2)) == n by {
        law_le_number(n as nat, 2);
    }
    assert forall|n: u8| le_number(#[trigger] le_bytes(n as nat, 4)) == n by {
        law_le_number(n as nat, 4);
    }
    assert forall|n: nat, width: nat| (#[trigger] le_bytes(n, width)).len() == width by {
        lemma_le_bytes_len(n, width);
    }
}

/// Where an address stands among the bytes of a list of addresses.
proof fn lemma_keys_bytes_at(keys: Seq<Seq<u8>>, i: int)
    requires
        0 <= i < keys.len(),
        forall|k: int| 0 <= k < keys.len() ==> (#[trigger] keys[k]).len() == 32,
    ensures
        keys_bytes(keys).len() == 32 * keys.len(),
        keys_bytes(keys).subrange(32 * i, 32 * i + 32) == keys[i],
    decreases keys.len(),
{
    let rest = keys.drop_first();
    assert forall|k: int| 0 <= k < rest.len() implies (#[trigger] rest[k]).len() == 32 by {
        assert(rest[k] == keys[k + 1]);
    }
    lemma_keys_bytes_len(keys);
    assert(keys[0].len() == 32);
    if i == 0 {
        assert(keys_bytes(keys).subrange(0, 32) =~= keys[0]);
    } else {
        lemma_keys_bytes_at(rest, i - 1);
        assert(rest[i - 1] == keys[i]);
        assert(keys_bytes(keys).subrange(32 * i, 32 * i + 32) =~= keys_bytes(rest).subrange(
            32 * (i - 1),
            32 * (i - 1) + 32,
        ));
    }
}

/// What stands in a message before its calls.
pub proof fn lemma_message_front(
    message: Seq<u8>,
    payer: Seq<u8>,
    blockhash: Seq<u8>,
    instructions: Seq<InstructionView>,
) -> (keys: Seq<Seq<u8>>)
    requires
        message_says(message, payer, blockhash, instructions),
        blockhash.len() == 32,
    ensures
        is_account_list(message[2], keys, payer, instructions),
        message[0] == 1,
        message[1] == 0,
        message[3] == keys.len(),
        forall|i: int| 0 <= i < message[3] ==> #[trigger] listed(message, i) == keys[i],
        listed(message, 0) == payer,
        message.len() > calls_start(message),
        message.subrange(calls_start(message) - 32, calls_start(message)) == blockhash,
        message.skip(calls_start(message)) == compact_len(instructions.len()) + calls_bytes(
            keys,
            instructions,
        ),
{
    let (count, keys) = choose|readonly_count: u8, keys: Seq<Seq<u8>>|
        is_account_list(readonly_count, keys, payer, instructions) && message
            == #[trigger] message_bytes(readonly_count, keys, blockhash, instructions);
    lemma_message_parts(count, keys, blockhash, instructions);
    assert forall|i: int| 0 <= i < message[3] implies #[trigger] listed(message, i) == keys[i] by {
        lemma_keys_bytes_at(keys, i);
        let all = message.subrange(4, 4 + 32 * message[3]);
        assert(listed(message, i) =~= all.subrange(32 * i, 32 * i + 32));
    }
    assert(listed(message, 0) == keys[0]);
    keys
}

/// The number of a listed address leads back to it.
pub proof fn lemma_place_is_listed(keys: Seq<Seq<u8>>, key: Seq<u8>)
    requires
        keys.len() < 128,
        keys.contains(key),
    ensures
        place(keys, key) < keys.len(),
        keys[place(keys, key) as int] == key,
{
    let i = keys.index_of(key);
    assert(0 <= i < keys.len() && keys[i] == key);
}

/// A message with one call: the program, the accounts, and the data at the end.
pub proof fn lemma_single_call(
    message: Seq<u8>,
    payer: Seq<u8>,
    blockhash: Seq<u8>,
    instruction: InstructionView,
)
    requires
        message_says(message, payer, blockhash, seq![instruction]),
        blockhash.len() == 32,
        instruction.accounts.len() < 128,
    ensures
        ({
            let at = calls_start(message);
            let count = instruction.accounts.len() as int;
            let len_bytes = compact_len(instruction.data.len());
            &&& message.len() == at + 3 + count + len_bytes.len() + instruction.data.len()
            &&& message[at] == 1
            &&& message[at + 1] < message[3]
            &&& named_at(message, at + 1) == instruction.program_id
            &&& message[at + 2] == count
            &&& forall|j: int|
                0 <= j < count ==> #[trigger] call_place(message, j) < message[3]
            &&& forall|j: int|
                0 <= j < count ==> #[trigger] call_account(message, j)
                    == instruction.accounts[j].pubkey
            &&& message.subrange(at + 3 + count, at + 3 + count + len_bytes.len()) == len_bytes
            &&& message.skip(message.len() - instruction.data.len()) == instruction.data
        }),
{
    let instructions = seq![instruction];
    let keys = lemma_message_front(message, payer, blockhash, instructions);
    let at = calls_start(message);
    let count = instruction.accounts.len() as int;
    let len_bytes = compact_len(instruction.data.len());
    let rest = message.skip(at);
    assert(instructions.drop_first().len() == 0);
    reveal_with_fuel(calls_bytes, 2);
    assert(calls_bytes(keys, instructions) =~= call_bytes(keys, instruction));
    let listing = places(keys, instruction.accounts);
    assert(rest =~= seq![1u8, place(keys, instruction.program_id), count as u8] + listing
        + len_bytes + instruction.data);
    assert(listing.len() == count);
    assert(rest.len() == 3 + count + len_bytes.len() + instruction.data.len());
    assert(rest.len() == message.len() - at);
    lemma_account_list_covers(message[2], keys, payer, instructions, 0);
    lemma_place_is_listed(keys, instruction.program_id);
    assert(message[at + 1] == rest[1]);
    assert(message[at + 2] == rest[2]);
    assert(message[at] == rest[0]);
    assert forall|j: int| 0 <= j < count implies #[trigger] call_place(message, j) < message[3]
        && listed(message, call_place(message, j)) == instruction.accounts[j].pubkey by {
        assert(message[at + 3 + j] == rest[3 + j]);
        assert(rest[3 + j] == listing[j]);
        assert(listing[j] == place(keys, instruction.accounts[j].pubkey));
        lemma_place_is_listed(keys, instruction.accounts[j].pubkey);
    }
    assert(message.subrange(at + 3 + count, at + 3 + count + len_bytes.len()) =~= len_bytes);
    assert(message.skip(message.len() - instruction.data.len()) =~= instruction.data);
}

/// Where an account stands among the bytes of a list of accounts.
proof fn lemma_metas_bytes_at(metas: Seq<AccountMetaView>, j: int)
    requires
        0 <= j < metas.len(),
        forall|k: int| 0 <= k < metas.len() ==> (#[trigger] metas[k]).pubkey.len() == 32,
    ensures
        metas_bytes(metas).len() == 34 * metas.len(),
        metas_bytes(metas).subrange(34 * j, 34 * j + 34) == meta_bytes(metas[j]),
    decreases metas.len(),
{
    let rest = metas.drop_first();
    assert forall|k: int| 0 <= k < rest.len() implies (#[trigger] rest[k]).pubkey.len()
        == 32 by {
        assert(rest[k] == metas[k + 1]);
    }
    lemma_metas_bytes_len(metas);
    assert(metas[0].pubkey.len() == 32);
    if j == 0 {
        assert(metas_bytes(metas).subrange(0, 34) =~= meta_bytes(metas[0]));
    } else {
        lemma_metas_bytes_at(rest, j - 1);
        assert(rest[j - 1] == metas[j]);
        assert(metas_bytes(metas).subrange(34 * j, 34 * j + 34) =~= metas_bytes(rest).subrange(
            34 * (j - 1),
            34 * (j - 1) + 34,
        ));
    }
}

/// The parts of a carried instruction, read from its bytes.
pub proof fn law_carried_reads_back(inner: InstructionView)
    requires
        well_formed(inner),
    ensures
        ({
            let carried = instruction_bytes(inner);
            let count = inner.accounts.len() as int;
            &&& carried.len() == 48 + 34 * count + inner.data.len()
            &&& carried.take(32) == inner.program_id
            &&& le_number(carried.subrange(32, 40)) == count
            &&& forall|j: int|
                0 <= j < count ==> #[trigger] carried_account(carried, j)
                    == inner.accounts[j].pubkey
            &&& forall|j: int|
                0 <= j < count ==> #[trigger] carried_flags(carried, j) == (
                    if inner.accounts[j].is_signer {
                        1u8
                    } else {
                        0u8
                    },
                    if inner.accounts[j].is_writable {
                        1u8
                    } else {
                        0u8
                    },
                )
            &&& le_number(carried.subrange(40 + 34 * count, 48 + 34 * count)) == inner.data.len()
            &&& carried.skip(48 + 34 * count) == inner.data
        }),
{
    let carried = instruction_bytes(inner);
    let count = inner.accounts.len() as int;
    let metas = metas_bytes(inner.accounts);
    lemma_instruction_bytes_len(inner);
    lemma_metas_bytes_len(inner.accounts);
    lemma_le_number_widths();
    let count_bytes = le_bytes(inner.accounts.len(), 8);
    let len_bytes = le_bytes(inner.data.len(), 8);
    assert(le_number(le_bytes((count as u64) as nat, 8)) == count);
    assert(le_number(le_bytes((inner.data.len() as u64) as nat, 8)) == inner.data.len());
    assert(carried.take(32) =~= inner.program_id);
    assert(carried.subrange(32, 40) =~= count_bytes);
    assert(carried.subrange(40, 40 + 34 * count) =~= metas);
    assert(carried.subrange(40 + 34 * count, 48 + 34 * count) =~= len_bytes);
    assert(carried.skip(48 + 34 * count) =~= inner.data);
    assert forall|j: int| 0 <= j < count implies {
        &&& #[trigger] carried_account(carried, j) == inner.accounts[j].pubkey
        &&& carried[72 + 34 * j] == flag_byte(inner.accounts[j].is_signer)
        &&& carried[73 + 34 * j] == flag_byte(inner.accounts[j].is_writable)
    } by {
        lemma_metas_bytes_at(inner.accounts, j);
        let meta = metas.subrange(34 * j, 34 * j + 34);
        assert(meta == meta_bytes(inner.accounts[j]));
        assert(inner.accounts[j].pubkey.len() == 32);
        assert(carried_account(carried, j) =~= meta.take(32));
        assert(meta.take(32) =~= inner.accounts[j].pubkey);
        assert(carried[72 + 34 * j] == metas[34 * j + 32]);
        assert(carried[73 + 34 * j] == metas[34 * j + 33]);
        assert(meta[32] == metas[34 * j + 32]);
        assert(meta[33] == metas[34 * j + 33]);
    }
    assert forall|j: int| 0 <= j < count implies #[trigger] carried_flags(carried, j) == (
        flag_byte(inner.accounts[j].is_signer),
        flag_byte(inner.accounts[j].is_writable),
    ) by {
        assert(carried_account(carried, j) == inner.accounts[j].pubkey);
    }
}

} // verus!
