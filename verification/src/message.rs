//! What the bytes of a transaction message say: who pays, on top of which block, and which
//! programs are called with which accounts and data.
use crate::instruction::{AccountMetaView, InstructionView};
use vstd::prelude::*;

verus! {

/// The most data bytes that one instruction of a transaction can carry.
pub const MAX_DATA_LEN: usize = 65535;

/// No account but the payer has to sign.
pub open spec fn needs_no_other_signer(
    instructions: Seq<InstructionView>,
    payer: Seq<u8>,
) -> bool {
    forall|i: int, j: int|
        0 <= i < instructions.len() && 0 <= j < instructions[i].accounts.len()
            && #[trigger] instructions[i].accounts[j].is_signer
            ==> instructions[i].accounts[j].pubkey == payer
}

/// How many addresses the instructions name, programs included and repetitions counted.
pub open spec fn address_count(instructions: Seq<InstructionView>) -> nat
    decreases instructions.len(),
{
    if instructions.len() == 0 {
        0
    } else {
        address_count(instructions.drop_last()) + 1 + instructions.last().accounts.len()
    }
}

/// The instructions fit in one message: they name few enough accounts for each of them to have
/// a number of its own, and the data of each fits.
pub open spec fn fits_message(instructions: Seq<InstructionView>) -> bool {
    &&& address_count(instructions) < 127
    &&& forall|i: int|
        0 <= i < instructions.len() ==> (#[trigger] instructions[i]).data.len() <= MAX_DATA_LEN
}

/// A length in one to three bytes, seven bits in each, the lowest first. The top bit of a byte
/// says that another one follows.
pub open spec fn compact_len(n: nat) -> Seq<u8> {
    if n < 128 {
        seq![n as u8]
    } else if n < 16384 {
        seq![(n % 128 + 128) as u8, (n / 128) as u8]
    } else {
        seq![(n % 128 + 128) as u8, (n / 128 % 128 + 128) as u8, (n / 16384) as u8]
    }
}

/// The number of an account in the list of a message.
pub open spec fn place(keys: Seq<Seq<u8>>, key: Seq<u8>) -> u8 {
    keys.index_of(key) as u8
}

/// The numbers of the accounts of an instruction.
pub open spec fn places(keys: Seq<Seq<u8>>, accounts: Seq<AccountMetaView>) -> Seq<u8> {
    accounts.map_values(|account: AccountMetaView| place(keys, account.pubkey))
}

/// An instruction inside a message: the number of its program, the numbers of its accounts, and
/// its data, each list behind its length.
pub open spec fn call_bytes(keys: Seq<Seq<u8>>, instruction: InstructionView) -> Seq<u8> {
    seq![place(keys, instruction.program_id)] + compact_len(instruction.accounts.len()) + places(
        keys,
        instruction.accounts,
    ) + compact_len(instruction.data.len()) + instruction.data
}

/// The instructions of a message, one after the other.
pub open spec fn calls_bytes(keys: Seq<Seq<u8>>, instructions: Seq<InstructionView>) -> Seq<u8>
    decreases instructions.len(),
{
    if instructions.len() == 0 {
        Seq::empty()
    } else {
        call_bytes(keys, instructions.first()) + calls_bytes(keys, instructions.drop_first())
    }
}

/// Several addresses, one after the other.
pub open spec fn keys_bytes(keys: Seq<Seq<u8>>) -> Seq<u8>
    decreases keys.len(),
{
    if keys.len() == 0 {
        Seq::empty()
    } else {
        keys.first() + keys_bytes(keys.drop_first())
    }
}

/// A message that one account signs: how many accounts sign, how many of them are only read, how
/// many others are only read, then the accounts, the block hash and the instructions.
pub open spec fn message_bytes(
    readonly_count: u8,
    keys: Seq<Seq<u8>>,
    blockhash: Seq<u8>,
    instructions: Seq<InstructionView>,
) -> Seq<u8> {
    seq![1u8, 0u8, readonly_count] + compact_len(keys.len()) + keys_bytes(keys) + blockhash
        + compact_len(instructions.len()) + calls_bytes(keys, instructions)
}

/// An instruction names an address as its program or as one of its accounts.
pub open spec fn names(instruction: InstructionView, key: Seq<u8>) -> bool {
    ||| instruction.program_id == key
    ||| exists|j: int|
        0 <= j < instruction.accounts.len() && (#[trigger] instruction.accounts[j]).pubkey == key
}

/// An instruction names an address as an account that it may change.
pub open spec fn names_writable(instruction: InstructionView, key: Seq<u8>) -> bool {
    exists|j: int|
        0 <= j < instruction.accounts.len() && (#[trigger] instruction.accounts[j]).pubkey == key
            && instruction.accounts[j].is_writable
}

/// The instructions together may change an account: it pays for them, or one of them names it
/// as writable.
pub open spec fn may_write(
    payer: Seq<u8>,
    instructions: Seq<InstructionView>,
    key: Seq<u8>,
) -> bool {
    ||| key == payer
    ||| exists|i: int|
        0 <= i < instructions.len() && #[trigger] names_writable(instructions[i], key)
}

/// An address comes before another one: it has the smaller byte where they first differ.
pub open spec fn precedes(a: Seq<u8>, b: Seq<u8>) -> bool {
    exists|i: int|
        0 <= i < a.len() && i < b.len() && #[trigger] a[i] < b[i] && a.take(i) == b.take(i)
}

/// Each address comes before all the later ones.
pub open spec fn ordered(keys: Seq<Seq<u8>>) -> bool {
    forall|i: int, j: int|
        0 <= i < j < keys.len() ==> precedes(#[trigger] keys[i], #[trigger] keys[j])
}

/// The accounts of a message: the payer and every address that the instructions name, each once.
/// The payer comes first, then the other accounts that may be changed, then the `readonly_count`
/// accounts that are only read, each kind in the order of the addresses.
pub open spec fn is_account_list(
    readonly_count: u8,
    keys: Seq<Seq<u8>>,
    payer: Seq<u8>,
    instructions: Seq<InstructionView>,
) -> bool {
    let split = keys.len() - readonly_count;
    &&& 0 < keys.len() < 128
    &&& keys[0] == payer
    &&& keys.no_duplicates()
    &&& forall|i: int| 0 <= i < keys.len() ==> (#[trigger] keys[i]).len() == 32
    &&& forall|key: Seq<u8>|
        keys.contains(key) <==> key == payer || exists|i: int|
            0 <= i < instructions.len() && #[trigger] names(instructions[i], key)
    &&& 0 < split
    &&& forall|i: int|
        0 <= i < keys.len() ==> (may_write(payer, instructions, #[trigger] keys[i]) <==> i < split)
    &&& ordered(keys.subrange(1, split))
    &&& ordered(keys.skip(split))
}

/// The message is signed by `payer` alone, rests on `blockhash`, and makes these calls.
pub open spec fn message_says(
    message: Seq<u8>,
    payer: Seq<u8>,
    blockhash: Seq<u8>,
    instructions: Seq<InstructionView>,
) -> bool {
    exists|readonly_count: u8, keys: Seq<Seq<u8>>|
        is_account_list(readonly_count, keys, payer, instructions) && message
            == #[trigger] message_bytes(readonly_count, keys, blockhash, instructions)
}

/// Two lists of instructions make the same calls: the same programs with the same accounts and
/// data. Which accounts an instruction means to change is no part of a call.
pub open spec fn same_calls(a: Seq<InstructionView>, b: Seq<InstructionView>) -> bool {
    &&& a.len() == b.len()
    &&& forall|i: int| 0 <= i < a.len() ==> same_call(#[trigger] a[i], b[i])
}

/// Two instructions call the same program with the same accounts and data.
pub open spec fn same_call(a: InstructionView, b: InstructionView) -> bool {
    &&& a.program_id == b.program_id
    &&& a.accounts.len() == b.accounts.len()
    &&& forall|j: int|
        0 <= j < a.accounts.len() ==> (#[trigger] a.accounts[j]).pubkey == b.accounts[j].pubkey
    &&& a.data == b.data
}

/// All the addresses that an instruction names are in the list.
pub open spec fn covers(keys: Seq<Seq<u8>>, instruction: InstructionView) -> bool {
    &&& keys.contains(instruction.program_id)
    &&& forall|j: int|
        0 <= j < instruction.accounts.len() ==> keys.contains(
            (#[trigger] instruction.accounts[j]).pubkey,
        )
}

/// A list of addresses takes 32 bytes for each.
pub proof fn lemma_keys_bytes_len(keys: Seq<Seq<u8>>)
    requires
        forall|i: int| 0 <= i < keys.len() ==> (#[trigger] keys[i]).len() == 32,
    ensures
        keys_bytes(keys).len() == 32 * keys.len(),
    decreases keys.len(),
{
    if keys.len() > 0 {
        let rest = keys.drop_first();
        assert forall|i: int| 0 <= i < rest.len() implies (#[trigger] rest[i]).len() == 32 by {
            assert(rest[i] == keys[i + 1]);
        }
        lemma_keys_bytes_len(rest);
    }
}

/// Equally many addresses with the same bytes are the same addresses.
proof fn lemma_keys_bytes_injective(a: Seq<Seq<u8>>, b: Seq<Seq<u8>>)
    requires
        a.len() == b.len(),
        forall|i: int| 0 <= i < a.len() ==> (#[trigger] a[i]).len() == 32,
        forall|i: int| 0 <= i < b.len() ==> (#[trigger] b[i]).len() == 32,
        keys_bytes(a) == keys_bytes(b),
    ensures
        a == b,
    decreases a.len(),
{
    if a.len() == 0 {
        assert(a =~= b);
    } else {
        let rest_a = a.drop_first();
        let rest_b = b.drop_first();
        assert(a[0].len() == 32 && b[0].len() == 32);
        assert(a[0] =~= keys_bytes(a).take(32));
        assert(b[0] =~= keys_bytes(b).take(32));
        assert(keys_bytes(rest_a) =~= keys_bytes(a).skip(32));
        assert(keys_bytes(rest_b) =~= keys_bytes(b).skip(32));
        assert forall|i: int| 0 <= i < rest_a.len() implies (#[trigger] rest_a[i]).len()
            == 32 by {
            assert(rest_a[i] == a[i + 1]);
        }
        assert forall|i: int| 0 <= i < rest_b.len() implies (#[trigger] rest_b[i]).len()
            == 32 by {
            assert(rest_b[i] == b[i + 1]);
        }
        lemma_keys_bytes_injective(rest_a, rest_b);
        assert forall|i: int| 0 <= i < a.len() implies a[i] == b[i] by {
            if i > 0 {
                assert(a[i] == rest_a[i - 1]);
                assert(b[i] == rest_b[i - 1]);
            }
        }
        assert(a =~= b);
    }
}

/// Two lengths whose encodings begin the same bytes are the same length.
proof fn lemma_compact_len_prefix(a: nat, b: nat, rest_a: Seq<u8>, rest_b: Seq<u8>)
    requires
        a <= MAX_DATA_LEN,
        b <= MAX_DATA_LEN,
        compact_len(a) + rest_a == compact_len(b) + rest_b,
    ensures
        a == b,
        rest_a == rest_b,
{
    let bytes_a = compact_len(a) + rest_a;
    let bytes_b = compact_len(b) + rest_b;
    assert(bytes_a[0] == bytes_b[0]);
    assert(bytes_a[0] == compact_len(a)[0]);
    assert(bytes_b[0] == compact_len(b)[0]);
    if a >= 128 && b >= 128 {
        assert(bytes_a[1] == compact_len(a)[1]);
        assert(bytes_b[1] == compact_len(b)[1]);
        if a >= 16384 && b >= 16384 {
            assert(bytes_a[2] == compact_len(a)[2]);
            assert(bytes_b[2] == compact_len(b)[2]);
        }
    }
    assert(a == b);
    assert(rest_a =~= bytes_a.skip(compact_len(a).len() as int));
    assert(rest_b =~= bytes_b.skip(compact_len(b).len() as int));
}

/// Listed addresses with the same number are the same address.
proof fn lemma_place_injective(keys: Seq<Seq<u8>>, a: Seq<u8>, b: Seq<u8>)
    requires
        keys.len() < 128,
        keys.contains(a),
        keys.contains(b),
        place(keys, a) == place(keys, b),
    ensures
        a == b,
{
    let i = keys.index_of(a);
    let j = keys.index_of(b);
    assert(0 <= i < keys.len() && keys[i] == a);
    assert(0 <= j < keys.len() && keys[j] == b);
}

/// Two beginnings of the same length in the same bytes are the same, and so are the rests.
proof fn lemma_same_split(a: Seq<u8>, b: Seq<u8>, rest_a: Seq<u8>, rest_b: Seq<u8>)
    requires
        a.len() == b.len(),
        a + rest_a == b + rest_b,
    ensures
        a == b,
        rest_a == rest_b,
{
    let n = a.len() as int;
    assert(a =~= (a + rest_a).take(n));
    assert(b =~= (b + rest_b).take(n));
    assert(rest_a =~= (a + rest_a).skip(n));
    assert(rest_b =~= (b + rest_b).skip(n));
}

/// An encoded instruction, read from its beginning.
proof fn lemma_call_bytes_parts(
    keys: Seq<Seq<u8>>,
    instruction: InstructionView,
    rest: Seq<u8>,
)
    ensures
        call_bytes(keys, instruction) + rest == seq![place(keys, instruction.program_id)] + (
        compact_len(instruction.accounts.len()) + (places(keys, instruction.accounts) + (
        compact_len(instruction.data.len()) + (instruction.data + rest)))),
{
    assert(call_bytes(keys, instruction) + rest =~= seq![place(keys, instruction.program_id)] + (
    compact_len(instruction.accounts.len()) + (places(keys, instruction.accounts) + (compact_len(
        instruction.data.len(),
    ) + (instruction.data + rest)))));
}

/// Two instructions whose encodings begin the same bytes make the same call.
proof fn lemma_call_bytes_prefix(
    keys: Seq<Seq<u8>>,
    a: InstructionView,
    b: InstructionView,
    rest_a: Seq<u8>,
    rest_b: Seq<u8>,
)
    requires
        keys.len() < 128,
        covers(keys, a),
        covers(keys, b),
        a.accounts.len() <= MAX_DATA_LEN,
        b.accounts.len() <= MAX_DATA_LEN,
        a.data.len() <= MAX_DATA_LEN,
        b.data.len() <= MAX_DATA_LEN,
        call_bytes(keys, a) + rest_a == call_bytes(keys, b) + rest_b,
    ensures
        same_call(a, b),
        rest_a == rest_b,
{
    let data_a = a.data + rest_a;
    let data_b = b.data + rest_b;
    let tail_a = compact_len(a.data.len()) + data_a;
    let tail_b = compact_len(b.data.len()) + data_b;
    let places_a = places(keys, a.accounts);
    let places_b = places(keys, b.accounts);
    let program_a = seq![place(keys, a.program_id)];
    let program_b = seq![place(keys, b.program_id)];
    lemma_call_bytes_parts(keys, a, rest_a);
    lemma_call_bytes_parts(keys, b, rest_b);
    lemma_same_split(
        program_a,
        program_b,
        compact_len(a.accounts.len()) + (places_a + tail_a),
        compact_len(b.accounts.len()) + (places_b + tail_b),
    );
    assert(program_a[0] == program_b[0]);
    lemma_place_injective(keys, a.program_id, b.program_id);
    lemma_compact_len_prefix(
        a.accounts.len(),
        b.accounts.len(),
        places_a + tail_a,
        places_b + tail_b,
    );
    lemma_same_split(places_a, places_b, tail_a, tail_b);
    assert forall|j: int| 0 <= j < a.accounts.len() implies (#[trigger] a.accounts[j]).pubkey
        == b.accounts[j].pubkey by {
        assert(places_a[j] == place(keys, a.accounts[j].pubkey));
        assert(places_b[j] == place(keys, b.accounts[j].pubkey));
        assert(keys.contains(b.accounts[j].pubkey));
        lemma_place_injective(keys, a.accounts[j].pubkey, b.accounts[j].pubkey);
    }
    lemma_compact_len_prefix(a.data.len(), b.data.len(), data_a, data_b);
    lemma_same_split(a.data, b.data, rest_a, rest_b);
}

/// Every instruction fits by itself where all of them fit together.
proof fn lemma_address_count_bounds(instructions: Seq<InstructionView>)
    ensures
        instructions.len() <= address_count(instructions),
        forall|i: int|
            0 <= i < instructions.len() ==> (#[trigger] instructions[i]).accounts.len()
                < address_count(instructions),
    decreases instructions.len(),
{
    if instructions.len() > 0 {
        let rest = instructions.drop_last();
        lemma_address_count_bounds(rest);
        assert forall|i: int| 0 <= i < instructions.len() implies (
        #[trigger] instructions[i]).accounts.len() < address_count(instructions) by {
            if i < rest.len() {
                assert(rest[i] == instructions[i]);
            }
        }
    }
}

/// Equally many instructions with the same bytes make the same calls.
proof fn lemma_calls_bytes_injective(
    keys: Seq<Seq<u8>>,
    a: Seq<InstructionView>,
    b: Seq<InstructionView>,
)
    requires
        keys.len() < 128,
        a.len() == b.len(),
        forall|i: int|
            0 <= i < a.len() ==> {
                &&& covers(keys, #[trigger] a[i])
                &&& a[i].accounts.len() <= MAX_DATA_LEN
                &&& a[i].data.len() <= MAX_DATA_LEN
            },
        forall|i: int|
            0 <= i < b.len() ==> {
                &&& covers(keys, #[trigger] b[i])
                &&& b[i].accounts.len() <= MAX_DATA_LEN
                &&& b[i].data.len() <= MAX_DATA_LEN
            },
        calls_bytes(keys, a) == calls_bytes(keys, b),
    ensures
        same_calls(a, b),
    decreases a.len(),
{
    if a.len() > 0 {
        let rest_a = a.drop_first();
        let rest_b = b.drop_first();
        assert(covers(keys, a[0]) && covers(keys, b[0]));
        lemma_call_bytes_prefix(
            keys,
            a[0],
            b[0],
            calls_bytes(keys, rest_a),
            calls_bytes(keys, rest_b),
        );
        assert forall|i: int| 0 <= i < rest_a.len() implies {
            &&& covers(keys, #[trigger] rest_a[i])
            &&& rest_a[i].accounts.len() <= MAX_DATA_LEN
            &&& rest_a[i].data.len() <= MAX_DATA_LEN
        } by {
            assert(rest_a[i] == a[i + 1]);
        }
        assert forall|i: int| 0 <= i < rest_b.len() implies {
            &&& covers(keys, #[trigger] rest_b[i])
            &&& rest_b[i].accounts.len() <= MAX_DATA_LEN
            &&& rest_b[i].data.len() <= MAX_DATA_LEN
        } by {
            assert(rest_b[i] == b[i + 1]);
        }
        lemma_calls_bytes_injective(keys, rest_a, rest_b);
        assert forall|i: int| 0 <= i < a.len() implies same_call(#[trigger] a[i], b[i]) by {
            if i > 0 {
                assert(a[i] == rest_a[i - 1]);
                assert(b[i] == rest_b[i - 1]);
            }
        }
    }
}

/// The account list of a message covers each of its instructions.
pub proof fn lemma_account_list_covers(
    readonly_count: u8,
    keys: Seq<Seq<u8>>,
    payer: Seq<u8>,
    instructions: Seq<InstructionView>,
    i: int,
)
    requires
        is_account_list(readonly_count, keys, payer, instructions),
        0 <= i < instructions.len(),
    ensures
        covers(keys, instructions[i]),
{
    let instruction = instructions[i];
    assert(names(instruction, instruction.program_id));
    assert forall|j: int| 0 <= j < instruction.accounts.len() implies keys.contains(
        (#[trigger] instruction.accounts[j]).pubkey,
    ) by {
        assert(names(instruction, instruction.accounts[j].pubkey));
    }
}

/// Where the parts of a message are.
pub proof fn lemma_message_parts(
    readonly_count: u8,
    keys: Seq<Seq<u8>>,
    blockhash: Seq<u8>,
    instructions: Seq<InstructionView>,
)
    requires
        0 < keys.len() < 128,
        forall|i: int| 0 <= i < keys.len() ==> (#[trigger] keys[i]).len() == 32,
        blockhash.len() == 32,
    ensures
        ({
            let message = message_bytes(readonly_count, keys, blockhash, instructions);
            let n = keys.len() as int;
            &&& message.len() > 36 + 32 * n
            &&& message[0] == 1
            &&& message[1] == 0
            &&& message[2] == readonly_count
            &&& message[3] == n
            &&& message.subrange(4, 36) == keys[0]
            &&& message.subrange(4, 4 + 32 * n) == keys_bytes(keys)
            &&& message.subrange(4 + 32 * n, 36 + 32 * n) == blockhash
            &&& message.skip(36 + 32 * n) == compact_len(instructions.len()) + calls_bytes(
                keys,
                instructions,
            )
        }),
{
    let message = message_bytes(readonly_count, keys, blockhash, instructions);
    let n = keys.len() as int;
    lemma_keys_bytes_len(keys);
    assert(keys[0].len() == 32);
    assert(compact_len(keys.len()) =~= seq![n as u8]);
    assert(compact_len(instructions.len()).len() > 0);
    assert(message.subrange(4, 36) =~= keys[0]);
    assert(message.subrange(4, 4 + 32 * n) =~= keys_bytes(keys));
    assert(message.subrange(4 + 32 * n, 36 + 32 * n) =~= blockhash);
    assert(message.skip(36 + 32 * n) =~= compact_len(instructions.len()) + calls_bytes(
        keys,
        instructions,
    ));
}

/// The account list and the instructions that a message was made of can be told from its bytes.
proof fn lemma_message_bytes_injective(
    count_a: u8,
    keys_a: Seq<Seq<u8>>,
    payer_a: Seq<u8>,
    blockhash_a: Seq<u8>,
    a: Seq<InstructionView>,
    count_b: u8,
    keys_b: Seq<Seq<u8>>,
    payer_b: Seq<u8>,
    blockhash_b: Seq<u8>,
    b: Seq<InstructionView>,
)
    requires
        fits_message(a),
        fits_message(b),
        blockhash_a.len() == 32,
        blockhash_b.len() == 32,
        is_account_list(count_a, keys_a, payer_a, a),
        is_account_list(count_b, keys_b, payer_b, b),
        message_bytes(count_a, keys_a, blockhash_a, a) == message_bytes(
            count_b,
            keys_b,
            blockhash_b,
            b,
        ),
    ensures
        count_a == count_b,
        keys_a == keys_b,
        blockhash_a == blockhash_b,
        same_calls(a, b),
{
    lemma_message_parts(count_a, keys_a, blockhash_a, a);
    lemma_message_parts(count_b, keys_b, blockhash_b, b);
    lemma_keys_bytes_injective(keys_a, keys_b);
    lemma_address_count_bounds(a);
    lemma_address_count_bounds(b);
    lemma_compact_len_prefix(a.len(), b.len(), calls_bytes(keys_a, a), calls_bytes(keys_a, b));
    assert forall|i: int| 0 <= i < a.len() implies {
        &&& covers(keys_a, #[trigger] a[i])
        &&& a[i].accounts.len() <= MAX_DATA_LEN
        &&& a[i].data.len() <= MAX_DATA_LEN
    } by {
        lemma_account_list_covers(count_a, keys_a, payer_a, a, i);
    }
    assert forall|i: int| 0 <= i < b.len() implies {
        &&& covers(keys_a, #[trigger] b[i])
        &&& b[i].accounts.len() <= MAX_DATA_LEN
        &&& b[i].data.len() <= MAX_DATA_LEN
    } by {
        lemma_account_list_covers(count_b, keys_b, payer_b, b, i);
    }
    lemma_calls_bytes_injective(keys_a, a, b);
}

/// A message names its payer as the first of its accounts, and its block hash behind them.
pub proof fn law_message_names_payer_and_blockhash(
    message: Seq<u8>,
    payer: Seq<u8>,
    blockhash: Seq<u8>,
    instructions: Seq<InstructionView>,
)
    requires
        message_says(message, payer, blockhash, instructions),
        blockhash.len() == 32,
    ensures
        message[0] == 1,
        message[1] == 0,
        0 < message[3] < 128,
        message.len() > 36 + 32 * message[3],
        message.subrange(4, 36) == payer,
        message.subrange(4 + 32 * message[3], 36 + 32 * message[3]) == blockhash,
{
    let (readonly_count, keys): (u8, Seq<Seq<u8>>) = choose|
        readonly_count: u8,
        keys: Seq<Seq<u8>>,
    |
        is_account_list(readonly_count, keys, payer, instructions) && message
            == #[trigger] message_bytes(readonly_count, keys, blockhash, instructions);
    lemma_message_parts(readonly_count, keys, blockhash, instructions);
}

/// A message says one thing only: two descriptions of the same bytes agree on the payer, on the
/// block hash, on every call, and on which accounts may be changed.
pub proof fn law_message_says_one_thing(
    message: Seq<u8>,
    payer_a: Seq<u8>,
    blockhash_a: Seq<u8>,
    a: Seq<InstructionView>,
    payer_b: Seq<u8>,
    blockhash_b: Seq<u8>,
    b: Seq<InstructionView>,
)
    requires
        fits_message(a),
        fits_message(b),
        blockhash_a.len() == 32,
        blockhash_b.len() == 32,
        message_says(message, payer_a, blockhash_a, a),
        message_says(message, payer_b, blockhash_b, b),
    ensures
        payer_a == payer_b,
        blockhash_a == blockhash_b,
        same_calls(a, b),
        forall|key: Seq<u8>| may_write(payer_a, a, key) <==> may_write(payer_b, b, key),
{
    let (count_a, keys_a): (u8, Seq<Seq<u8>>) = choose|count: u8, keys: Seq<Seq<u8>>|
        is_account_list(count, keys, payer_a, a) && message == #[trigger] message_bytes(
            count,
            keys,
            blockhash_a,
            a,
        );
    let (count_b, keys_b): (u8, Seq<Seq<u8>>) = choose|count: u8, keys: Seq<Seq<u8>>|
        is_account_list(count, keys, payer_b, b) && message == #[trigger] message_bytes(
            count,
            keys,
            blockhash_b,
            b,
        );
    lemma_message_bytes_injective(
        count_a,
        keys_a,
        payer_a,
        blockhash_a,
        a,
        count_b,
        keys_b,
        payer_b,
        blockhash_b,
        b,
    );
    assert forall|key: Seq<u8>| may_write(payer_a, a, key) <==> may_write(payer_b, b, key) by {
        lemma_writable_is_listed(count_a, keys_a, payer_a, a, key);
        lemma_writable_is_listed(count_b, keys_b, payer_b, b, key);
        if keys_a.contains(key) {
            let i = choose|i: int| 0 <= i < keys_a.len() && keys_a[i] == key;
            assert(may_write(payer_a, a, keys_a[i]) <==> may_write(payer_b, b, keys_b[i]));
        }
    }
}

/// An account that may be changed is in the account list.
proof fn lemma_writable_is_listed(
    readonly_count: u8,
    keys: Seq<Seq<u8>>,
    payer: Seq<u8>,
    instructions: Seq<InstructionView>,
    key: Seq<u8>,
)
    requires
        is_account_list(readonly_count, keys, payer, instructions),
    ensures
        may_write(payer, instructions, key) ==> keys.contains(key),
{
    if may_write(payer, instructions, key) && key != payer {
        let i = choose|i: int|
            0 <= i < instructions.len() && #[trigger] names_writable(instructions[i], key);
        assert(names(instructions[i], key));
    }
}

/// Two addresses do not come before each other.
proof fn lemma_precedes_asymmetric(a: Seq<u8>, b: Seq<u8>)
    requires
        precedes(a, b),
    ensures
        !precedes(b, a),
{
    if precedes(b, a) {
        let i = choose|i: int|
            0 <= i < a.len() && i < b.len() && #[trigger] a[i] < b[i] && a.take(i) == b.take(i);
        let j = choose|j: int|
            0 <= j < b.len() && j < a.len() && #[trigger] b[j] < a[j] && b.take(j) == a.take(j);
        if i < j {
            assert(a.take(j)[i] == b.take(j)[i]);
        } else if j < i {
            assert(a.take(i)[j] == b.take(i)[j]);
        }
    }
}

/// No address is twice in an ordered list.
pub proof fn lemma_ordered_no_duplicates(keys: Seq<Seq<u8>>)
    requires
        ordered(keys),
    ensures
        keys.no_duplicates(),
{
    assert forall|i: int, j: int|
        0 <= i < keys.len() && 0 <= j < keys.len() && i != j implies keys[i] != keys[j] by {
        if keys[i] == keys[j] {
            assert(precedes(keys[i], keys[j]));
            lemma_precedes_asymmetric(keys[i], keys[j]);
        }
    }
}

/// Two ordered lists with the same addresses are the same list.
proof fn lemma_ordered_same(a: Seq<Seq<u8>>, b: Seq<Seq<u8>>)
    requires
        ordered(a),
        ordered(b),
        forall|key: Seq<u8>| a.contains(key) <==> b.contains(key),
    ensures
        a == b,
    decreases a.len(),
{
    if a.len() == 0 {
        if b.len() > 0 {
            assert(b.contains(b[0]));
        }
        assert(a =~= b);
    } else {
        assert(a.contains(a[0]));
        assert(b.len() > 0);
        assert(b.contains(b[0]));
        let i = choose|i: int| 0 <= i < a.len() && a[i] == b[0];
        let j = choose|j: int| 0 <= j < b.len() && b[j] == a[0];
        if i > 0 && j > 0 {
            assert(precedes(a[0], a[i]));
            assert(precedes(b[0], b[j]));
            lemma_precedes_asymmetric(a[0], b[0]);
        }
        assert(a[0] == b[0]);
        let rest_a = a.drop_first();
        let rest_b = b.drop_first();
        lemma_ordered_rest(a);
        lemma_ordered_rest(b);
        assert forall|key: Seq<u8>| rest_a.contains(key) <==> rest_b.contains(key) by {
            assert(a.contains(key) <==> b.contains(key));
        }
        lemma_ordered_same(rest_a, rest_b);
        assert(a =~= seq![a[0]] + rest_a);
        assert(b =~= seq![b[0]] + rest_b);
    }
}

/// An ordered list without its first address is ordered and holds all the other addresses.
proof fn lemma_ordered_rest(a: Seq<Seq<u8>>)
    requires
        ordered(a),
        a.len() > 0,
    ensures
        ordered(a.drop_first()),
        forall|key: Seq<u8>| a.drop_first().contains(key) <==> a.contains(key) && key != a[0],
{
    let rest = a.drop_first();
    assert forall|i: int, j: int| 0 <= i < j < rest.len() implies precedes(
        #[trigger] rest[i],
        #[trigger] rest[j],
    ) by {
        assert(rest[i] == a[i + 1]);
        assert(rest[j] == a[j + 1]);
    }
    assert forall|key: Seq<u8>| rest.contains(key) <==> a.contains(key) && key != a[0] by {
        if rest.contains(key) {
            let i = choose|i: int| 0 <= i < rest.len() && rest[i] == key;
            assert(a[i + 1] == key);
            assert(precedes(a[0], a[i + 1]));
            if key == a[0] {
                lemma_precedes_asymmetric(a[0], a[0]);
            }
        }
        if a.contains(key) && key != a[0] {
            let i = choose|i: int| 0 <= i < a.len() && a[i] == key;
            assert(rest[i - 1] == key);
        }
    }
}

/// What the parts of an account list hold: behind the payer the other accounts that may be
/// changed, and then the accounts that are only read.
pub proof fn lemma_account_list_parts(
    readonly_count: u8,
    keys: Seq<Seq<u8>>,
    payer: Seq<u8>,
    instructions: Seq<InstructionView>,
)
    requires
        is_account_list(readonly_count, keys, payer, instructions),
    ensures
        ({
            let split = keys.len() - readonly_count;
            let changed = keys.subrange(1, split);
            let read = keys.skip(split);
            &&& keys == seq![payer] + changed + read
            &&& read.len() == readonly_count
            &&& changed.no_duplicates()
            &&& read.no_duplicates()
            &&& forall|key: Seq<u8>|
                #[trigger] changed.contains(key) <==> key != payer && keys.contains(key)
                    && may_write(payer, instructions, key)
            &&& forall|key: Seq<u8>|
                #[trigger] read.contains(key) <==> keys.contains(key) && !may_write(
                    payer,
                    instructions,
                    key,
                )
        }),
{
    let split = keys.len() - readonly_count;
    let changed = keys.subrange(1, split);
    let read = keys.skip(split);
    assert(keys =~= seq![payer] + changed + read);
    assert forall|key: Seq<u8>| #[trigger] changed.contains(key) <==> key != payer
        && keys.contains(key) && may_write(payer, instructions, key) by {
        if changed.contains(key) {
            let i = choose|i: int| 0 <= i < changed.len() && changed[i] == key;
            assert(keys[i + 1] == key);
            assert(keys[0] != keys[i + 1]);
        }
        if key != payer && keys.contains(key) && may_write(payer, instructions, key) {
            let i = choose|i: int| 0 <= i < keys.len() && keys[i] == key;
            assert(changed[i - 1] == key);
        }
    }
    assert forall|key: Seq<u8>| #[trigger] read.contains(key) <==> keys.contains(key)
        && !may_write(payer, instructions, key) by {
        if read.contains(key) {
            let i = choose|i: int| 0 <= i < read.len() && read[i] == key;
            assert(keys[i + split] == key);
        }
        if keys.contains(key) && !may_write(payer, instructions, key) {
            let i = choose|i: int| 0 <= i < keys.len() && keys[i] == key;
            assert(read[i - split] == key);
        }
    }
}

/// There is one account list only for a payer and instructions.
proof fn lemma_account_list_unique(
    count_a: u8,
    keys_a: Seq<Seq<u8>>,
    count_b: u8,
    keys_b: Seq<Seq<u8>>,
    payer: Seq<u8>,
    instructions: Seq<InstructionView>,
)
    requires
        is_account_list(count_a, keys_a, payer, instructions),
        is_account_list(count_b, keys_b, payer, instructions),
    ensures
        count_a == count_b,
        keys_a == keys_b,
{
    lemma_account_list_parts(count_a, keys_a, payer, instructions);
    lemma_account_list_parts(count_b, keys_b, payer, instructions);
    let split_a = keys_a.len() - count_a;
    let split_b = keys_b.len() - count_b;
    assert forall|key: Seq<u8>| keys_a.contains(key) <==> keys_b.contains(key) by {}
    assert forall|key: Seq<u8>|
        keys_a.subrange(1, split_a).contains(key) <==> keys_b.subrange(1, split_b).contains(
            key,
        ) by {}
    assert forall|key: Seq<u8>|
        keys_a.skip(split_a).contains(key) <==> keys_b.skip(split_b).contains(key) by {}
    lemma_ordered_same(keys_a.subrange(1, split_a), keys_b.subrange(1, split_b));
    lemma_ordered_same(keys_a.skip(split_a), keys_b.skip(split_b));
}

/// Two lists of instructions call the same programs with the same accounts, flags included. Only
/// their data may differ.
pub open spec fn same_accounts(a: Seq<InstructionView>, b: Seq<InstructionView>) -> bool {
    &&& a.len() == b.len()
    &&& forall|i: int|
        0 <= i < a.len() ==> (#[trigger] a[i]).program_id == b[i].program_id && a[i].accounts
            == b[i].accounts
}

/// The account list does not depend on the data of the instructions.
proof fn lemma_account_list_of_same_accounts(
    readonly_count: u8,
    keys: Seq<Seq<u8>>,
    payer: Seq<u8>,
    a: Seq<InstructionView>,
    b: Seq<InstructionView>,
)
    requires
        is_account_list(readonly_count, keys, payer, a),
        same_accounts(a, b),
    ensures
        is_account_list(readonly_count, keys, payer, b),
{
    assert forall|key: Seq<u8>, i: int| 0 <= i < a.len() implies (#[trigger] names(a[i], key)
        <==> names(b[i], key)) by {}
    assert forall|key: Seq<u8>, i: int| 0 <= i < a.len() implies (#[trigger] names_writable(
        a[i],
        key,
    ) <==> names_writable(b[i], key)) by {}
    assert forall|key: Seq<u8>| may_write(payer, a, key) <==> may_write(payer, b, key) by {
        if may_write(payer, b, key) && key != payer {
            let i = choose|i: int| 0 <= i < b.len() && #[trigger] names_writable(b[i], key);
            assert(names_writable(a[i], key));
        }
    }
    assert forall|key: Seq<u8>|
        keys.contains(key) <==> key == payer || exists|i: int|
            0 <= i < b.len() && #[trigger] names(b[i], key) by {
        if exists|i: int| 0 <= i < b.len() && #[trigger] names(b[i], key) {
            let i = choose|i: int| 0 <= i < b.len() && #[trigger] names(b[i], key);
            assert(names(a[i], key));
        }
    }
}

/// Payer, block hash and instructions fix the message: there are no two messages that say the
/// same.
pub proof fn law_message_is_fixed(
    message_a: Seq<u8>,
    message_b: Seq<u8>,
    payer: Seq<u8>,
    blockhash: Seq<u8>,
    instructions: Seq<InstructionView>,
)
    requires
        message_says(message_a, payer, blockhash, instructions),
        message_says(message_b, payer, blockhash, instructions),
    ensures
        message_a == message_b,
{
    let (count, keys) = choose|readonly_count: u8, keys: Seq<Seq<u8>>|
        is_account_list(readonly_count, keys, payer, instructions) && message_a
            == #[trigger] message_bytes(readonly_count, keys, blockhash, instructions);
    let (count_b, keys_b) = choose|readonly_count: u8, keys: Seq<Seq<u8>>|
        is_account_list(readonly_count, keys, payer, instructions) && message_b
            == #[trigger] message_bytes(readonly_count, keys, blockhash, instructions);
    lemma_account_list_unique(count, keys, count_b, keys_b, payer, instructions);
}

/// A message with one instruction, up to the data of that instruction.
pub open spec fn message_head(
    readonly_count: u8,
    keys: Seq<Seq<u8>>,
    blockhash: Seq<u8>,
    instruction: InstructionView,
) -> Seq<u8> {
    seq![1u8, 0u8, readonly_count] + compact_len(keys.len()) + keys_bytes(keys) + blockhash
        + compact_len(1) + seq![place(keys, instruction.program_id)] + compact_len(
        instruction.accounts.len(),
    ) + places(keys, instruction.accounts)
}

/// Two messages are the same but for the data of their one instruction: the same header, account
/// list, block hash, program and accounts, and then the one data or the other.
pub open spec fn same_but_for_data(
    message_a: Seq<u8>,
    message_b: Seq<u8>,
    payer: Seq<u8>,
    blockhash: Seq<u8>,
    a: InstructionView,
    b: InstructionView,
) -> bool {
    exists|readonly_count: u8, keys: Seq<Seq<u8>>|
        {
            let head = #[trigger] message_head(readonly_count, keys, blockhash, a);
            &&& is_account_list(readonly_count, keys, payer, seq![a])
            &&& is_account_list(readonly_count, keys, payer, seq![b])
            &&& message_a == head + compact_len(a.data.len()) + a.data
            &&& message_b == head + compact_len(b.data.len()) + b.data
        }
}

/// A message with one instruction is its head and then the data.
proof fn lemma_message_head(
    readonly_count: u8,
    keys: Seq<Seq<u8>>,
    blockhash: Seq<u8>,
    instruction: InstructionView,
)
    ensures
        message_bytes(readonly_count, keys, blockhash, seq![instruction]) == message_head(
            readonly_count,
            keys,
            blockhash,
            instruction,
        ) + compact_len(instruction.data.len()) + instruction.data,
{
    let instructions = seq![instruction];
    assert(instructions.drop_first().len() == 0);
    reveal_with_fuel(calls_bytes, 2);
    assert(calls_bytes(keys, instructions) =~= call_bytes(keys, instruction));
    assert(message_bytes(readonly_count, keys, blockhash, instructions) =~= message_head(
        readonly_count,
        keys,
        blockhash,
        instruction,
    ) + compact_len(instruction.data.len()) + instruction.data);
}

/// The data of an instruction reaches nothing else in its message: neither the header, nor the
/// account list, nor the program and the accounts of the call.
pub proof fn law_data_changes_only_data(
    message_a: Seq<u8>,
    message_b: Seq<u8>,
    payer: Seq<u8>,
    blockhash: Seq<u8>,
    a: InstructionView,
    b: InstructionView,
)
    requires
        a.program_id == b.program_id,
        a.accounts == b.accounts,
        message_says(message_a, payer, blockhash, seq![a]),
        message_says(message_b, payer, blockhash, seq![b]),
    ensures
        same_but_for_data(message_a, message_b, payer, blockhash, a, b),
{
    let (count, keys) = choose|readonly_count: u8, keys: Seq<Seq<u8>>|
        is_account_list(readonly_count, keys, payer, seq![a]) && message_a
            == #[trigger] message_bytes(readonly_count, keys, blockhash, seq![a]);
    let (count_b, keys_b) = choose|readonly_count: u8, keys: Seq<Seq<u8>>|
        is_account_list(readonly_count, keys, payer, seq![b]) && message_b
            == #[trigger] message_bytes(readonly_count, keys, blockhash, seq![b]);
    lemma_account_list_of_same_accounts(count, keys, payer, seq![a], seq![b]);
    lemma_account_list_unique(count, keys, count_b, keys_b, payer, seq![b]);
    lemma_message_head(count, keys, blockhash, a);
    lemma_message_head(count, keys, blockhash, b);
    assert(message_head(count, keys, blockhash, a) == message_head(count, keys, blockhash, b));
}

/// The block hash reaches nothing else in its message: messages of the same instructions on two
/// block hashes are the same before the block hash and behind it.
pub proof fn law_blockhash_changes_only_blockhash(
    message_a: Seq<u8>,
    message_b: Seq<u8>,
    payer: Seq<u8>,
    blockhash_a: Seq<u8>,
    blockhash_b: Seq<u8>,
    instructions: Seq<InstructionView>,
)
    requires
        blockhash_a.len() == 32,
        blockhash_b.len() == 32,
        message_says(message_a, payer, blockhash_a, instructions),
        message_says(message_b, payer, blockhash_b, instructions),
    ensures
        message_a[3] == message_b[3],
        message_a.len() == message_b.len(),
        ({
            let at = 4 + 32 * message_a[3];
            &&& at + 32 < message_a.len()
            &&& message_a.subrange(at, at + 32) == blockhash_a
            &&& message_b.subrange(at, at + 32) == blockhash_b
            &&& message_a.take(at) == message_b.take(at)
            &&& message_a.skip(at + 32) == message_b.skip(at + 32)
        }),
{
    let (count, keys) = choose|readonly_count: u8, keys: Seq<Seq<u8>>|
        is_account_list(readonly_count, keys, payer, instructions) && message_a
            == #[trigger] message_bytes(readonly_count, keys, blockhash_a, instructions);
    let (count_b, keys_b) = choose|readonly_count: u8, keys: Seq<Seq<u8>>|
        is_account_list(readonly_count, keys, payer, instructions) && message_b
            == #[trigger] message_bytes(readonly_count, keys, blockhash_b, instructions);
    lemma_account_list_unique(count, keys, count_b, keys_b, payer, instructions);
    lemma_message_parts(count, keys, blockhash_a, instructions);
    lemma_message_parts(count, keys, blockhash_b, instructions);
    let at = 4 + 32 * message_a[3];
    let front = seq![1u8, 0u8, count] + compact_len(keys.len()) + keys_bytes(keys);
    lemma_keys_bytes_len(keys);
    assert(front.len() == at);
    assert(message_a.take(at) =~= front);
    assert(message_b.take(at) =~= front);
    assert(message_a =~= message_a.take(at) + blockhash_a + message_a.skip(at + 32));
    assert(message_b =~= message_b.take(at) + blockhash_b + message_b.skip(at + 32));
}

/// The account list of a message, which its header counts.
pub proof fn lemma_message_account_list(
    message: Seq<u8>,
    payer: Seq<u8>,
    blockhash: Seq<u8>,
    instructions: Seq<InstructionView>,
) -> (keys: Seq<Seq<u8>>)
    requires
        message_says(message, payer, blockhash, instructions),
        blockhash.len() == 32,
    ensures
        is_account_list(message[2], keys, payer, instructions),
        message[0] == 1,
        message[1] == 0,
        message[3] == keys.len(),
        message.subrange(4, 4 + 32 * message[3]) == keys_bytes(keys),
{
    let (count, keys) = choose|readonly_count: u8, keys: Seq<Seq<u8>>|
        is_account_list(readonly_count, keys, payer, instructions) && message
            == #[trigger] message_bytes(readonly_count, keys, blockhash, instructions);
    lemma_message_parts(count, keys, blockhash, instructions);
    keys
}

} // verus!
