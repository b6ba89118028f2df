//! Key pairs, and transactions that one key pair pays for and signs.
use crate::instruction::{instructions_view, Address, Instruction, InstructionView};
use crate::message::{
    fits_message, law_message_is_fixed, law_message_says_one_thing, message_says,
    needs_no_other_signer, same_call,
};
use crate::programs::{into_raw, raw_view, RawInstruction, RawMeta};
use solana_sdk::instruction::AccountMeta as SdkAccountMeta;
use solana_sdk::instruction::Instruction as SdkInstruction;
use solana_sdk::signature::Keypair as SdkKeypair;
use solana_sdk::signer::Signer;
use solana_sdk::transaction::Transaction;
use vstd::prelude::*;

verus! {

/// A signed transaction.
#[derive(Debug, PartialEq, Eq)]
pub struct SignedTransaction {
    /// One signature for each account that has to sign.
    pub signatures: Vec<[u8; 64]>,
    /// The serialized message, which the signatures are for.
    pub message: Vec<u8>,
}

/// A [`SignedTransaction`] as sequences.
#[verifier::ext_equal]
pub struct TransactionView {
    pub signatures: Seq<Seq<u8>>,
    pub message: Seq<u8>,
}

impl View for SignedTransaction {
    type V = TransactionView;

    open spec fn view(&self) -> TransactionView {
        TransactionView {
            signatures: self.signatures@.map_values(|signature: [u8; 64]| signature@),
            message: self.message@,
        }
    }
}

/// The views of a list of transactions.
pub open spec fn transactions_view(transactions: Seq<SignedTransaction>) -> Seq<TransactionView> {
    transactions.map_values(|transaction: SignedTransaction| transaction@)
}

/// Whether `solana_sdk::signature::Keypair::from_bytes` takes these 64 bytes: a secret key and
/// the public key that belongs to it.
pub uninterp spec fn is_keypair(bytes: Seq<u8>) -> bool;

/// The signature that `solana_sdk::signature::Keypair` makes of a message with
/// `Signer::sign_message`, an Ed25519 signature: the bytes of the key pair and the message fix it.
pub uninterp spec fn ed25519_signature(keypair: Seq<u8>, message: Seq<u8>) -> Seq<u8>;

/// The public half of the bytes of a key pair.
pub open spec fn public_half(keypair: Seq<u8>) -> Seq<u8> {
    keypair.subrange(32, 64)
}

/// The transaction holds one signature, which the key pair made of the message; and the message
/// says that the key pair's account pays for these instructions, on top of `blockhash`.
pub open spec fn is_signed(
    transaction: TransactionView,
    keypair: Seq<u8>,
    blockhash: Seq<u8>,
    instructions: Seq<InstructionView>,
) -> bool {
    &&& transaction.signatures == seq![ed25519_signature(keypair, transaction.message)]
    &&& message_says(transaction.message, public_half(keypair), blockhash, instructions)
}

/// `solana_sdk::signature::Keypair::from_bytes` and `Signer::pubkey`: the public key of a key
/// pair, which is the second half of its bytes, or nothing if the bytes are no key pair.
#[verifier::external_body]
fn keypair_pubkey(bytes: &[u8; 64]) -> (pubkey: Option<Address>)
    ensures
        pubkey is Some <==> is_keypair(bytes@),
        pubkey matches Some(key) ==> key@ == public_half(bytes@),
{
    SdkKeypair::from_bytes(bytes).ok().map(|keypair| keypair.pubkey().to_bytes())
}

/// `solana_sdk::transaction::Transaction::new_signed_with_payer` with one signing key pair: the
/// message is the one that [`message_says`] describes, and the transaction holds the key pair's
/// signature of it and no other. The call panics where another account has to sign, where the key
/// pair is not the payer's, and where the message does not fit.
#[verifier::external_body]
fn new_signed_with_payer(
    instructions: Vec<RawInstruction>,
    payer: &Address,
    keypair: &[u8; 64],
    blockhash: &Address,
) -> (transaction: SignedTransaction)
    requires
        is_keypair(keypair@),
        payer@ == public_half(keypair@),
        needs_no_other_signer(instructions@.map_values(|raw: RawInstruction| raw_view(raw)), payer@),
        fits_message(instructions@.map_values(|raw: RawInstruction| raw_view(raw))),
    ensures
        transaction.signatures@.len() == 1,
        transaction.signatures@[0]@ == ed25519_signature(keypair@, transaction.message@),
        message_says(
            transaction.message@,
            payer@,
            blockhash@,
            instructions@.map_values(|raw: RawInstruction| raw_view(raw)),
        ),
{
    let meta = |(k, s, w): RawMeta| SdkAccountMeta { pubkey: k.into(), is_signer: s, is_writable: w };
    let build = |(program, metas, data): RawInstruction| SdkInstruction {
        program_id: program.into(),
        accounts: metas.into_iter().map(meta).collect(),
        data
    };
    let instructions: Vec<SdkInstruction> = instructions.into_iter().map(build).collect();
    let keypair = SdkKeypair::from_bytes(keypair).unwrap();
    let tx = Transaction::new_signed_with_payer(
        &instructions, Some(&(*payer).into()), &[&keypair], (*blockhash).into()
    );
    let signatures = tx.signatures.iter().map(|signature| (*signature).into()).collect();
    SignedTransaction { signatures, message: tx.message_data() }
}

/// A key pair that pays for transactions and signs them.
pub struct Keypair {
    bytes: [u8; 64],
}

impl View for Keypair {
    type V = Seq<u8>;

    /// The secret key and the public key, 64 bytes in all.
    closed spec fn view(&self) -> Seq<u8> {
        self.bytes@
    }
}

impl Keypair {
    #[verifier::type_invariant]
    spec fn valid(&self) -> bool {
        is_keypair(self.bytes@)
    }

    /// The key pair with these bytes, if they are one.
    pub fn from_bytes(bytes: [u8; 64]) -> (keypair: Option<Keypair>)
        ensures
            keypair is Some <==> is_keypair(bytes@),
            keypair matches Some(k) ==> k@ == bytes@,
    {
        match keypair_pubkey(&bytes) {
            Some(_) => Some(Keypair { bytes }),
            None => None,
        }
    }

    /// The public key.
    pub fn pubkey(&self) -> (pubkey: Address)
        ensures
            pubkey@ == public_half(self@),
    {
        proof {
            use_type_invariant(self);
        }
        keypair_pubkey(&self.bytes).unwrap()
    }

    /// Signs the instructions as one transaction that this key pair pays for.
    pub fn sign(&self, instructions: Vec<Instruction>, blockhash: &Address) -> (transaction:
        SignedTransaction)
        requires
            needs_no_other_signer(instructions_view(instructions@), public_half(self@)),
            fits_message(instructions_view(instructions@)),
        ensures
            is_signed(transaction@, self@, blockhash@, instructions_view(instructions@)),
    {
        proof {
            use_type_invariant(self);
        }
        let ghost views = instructions_view(instructions@);
        let mut raws: Vec<RawInstruction> = Vec::new();
        for instruction in iter: instructions
            invariant
                iter.seq() == instructions@,
                views == instructions_view(instructions@),
                raws@.len() == iter.index(),
                forall|j: int| 0 <= j < raws@.len() ==> raw_view(#[trigger] raws@[j]) == views[j],
        {
            raws.push(into_raw(instruction));
        }
        assert(raws@.map_values(|raw: RawInstruction| raw_view(raw)) =~= views);
        let transaction = new_signed_with_payer(raws, &self.pubkey(), &self.bytes, blockhash);
        assert(transaction@.signatures =~= seq![
            ed25519_signature(self@, transaction@.message),
        ]);
        transaction
    }
}

/// Key pair, block hash and instructions fix the signed transaction: signing the same again gives
/// the same transaction.
pub proof fn law_signed_transaction_is_fixed(
    a: TransactionView,
    b: TransactionView,
    keypair: Seq<u8>,
    blockhash: Seq<u8>,
    instructions: Seq<InstructionView>,
)
    requires
        is_signed(a, keypair, blockhash, instructions),
        is_signed(b, keypair, blockhash, instructions),
    ensures
        a == b,
{
    law_message_is_fixed(a.message, b.message, public_half(keypair), blockhash, instructions);
}

/// A key pair has 64 bytes.
pub proof fn lemma_keypair_len(keypair: &Keypair)
    ensures
        keypair@.len() == 64,
{
}

/// The key pair of given bytes knows its public key: the second half of the bytes, unchanged.
pub proof fn law_pubkey_is_second_half(
    bytes: [u8; 64],
    keypair: &Keypair,
    made: Option<Keypair>,
    pubkey: Address,
)
    requires
        call_ensures(Keypair::from_bytes, (bytes,), made),
        made == Some(*keypair),
        call_ensures(Keypair::pubkey, (keypair,), pubkey),
    ensures
        is_keypair(bytes@),
        forall|i: int| 0 <= i < 32 ==> #[trigger] pubkey@[i] == bytes@[32 + i],
{
    assert forall|i: int| 0 <= i < 32 implies #[trigger] pubkey@[i] == bytes@[32 + i] by {
        assert(bytes@.subrange(32, 64)[i] == bytes@[32 + i]);
    }
}

/// Two signed transactions with the same message call the same programs with the same accounts
/// and data, in the same order, on the same block hash, and the same account pays: signing leaves
/// nothing out and changes nothing.
pub proof fn law_signed_message_tells_its_instructions(
    keypair_a: &Keypair,
    keypair_b: &Keypair,
    a: Vec<Instruction>,
    b: Vec<Instruction>,
    blockhash_a: &Address,
    blockhash_b: &Address,
    transaction_a: SignedTransaction,
    transaction_b: SignedTransaction,
)
    requires
        fits_message(instructions_view(a@)),
        fits_message(instructions_view(b@)),
        call_ensures(Keypair::sign, (keypair_a, a, blockhash_a), transaction_a),
        call_ensures(Keypair::sign, (keypair_b, b, blockhash_b), transaction_b),
        transaction_a.message@ == transaction_b.message@,
    ensures
        keypair_a@.subrange(32, 64) == keypair_b@.subrange(32, 64),
        blockhash_a@ == blockhash_b@,
        a@.len() == b@.len(),
        forall|i: int|
            0 <= i < a@.len() ==> {
                &&& (#[trigger] a@[i]).program_id@ == b@[i].program_id@
                &&& a@[i].data@ == b@[i].data@
                &&& a@[i].accounts@.len() == b@[i].accounts@.len()
            },
        forall|i: int, j: int|
            0 <= i < a@.len() && 0 <= j < a@[i].accounts@.len()
                ==> #[trigger] a@[i].accounts@[j].pubkey@ == b@[i].accounts@[j].pubkey@,
{
    let views_a = instructions_view(a@);
    let views_b = instructions_view(b@);
    law_message_says_one_thing(
        transaction_a.message@,
        public_half(keypair_a@),
        blockhash_a@,
        views_a,
        public_half(keypair_b@),
        blockhash_b@,
        views_b,
    );
    assert(views_a.len() == a@.len() && views_b.len() == b@.len());
    assert forall|i: int| 0 <= i < a@.len() implies {
        &&& (#[trigger] a@[i]).program_id@ == b@[i].program_id@
        &&& a@[i].data@ == b@[i].data@
        &&& a@[i].accounts@.len() == b@[i].accounts@.len()
        &&& same_call(views_a[i], views_b[i])
    } by {
        assert(same_call(views_a[i], views_b[i]));
        assert(views_a[i] == a@[i]@ && views_b[i] == b@[i]@);
        assert(views_a[i].accounts.len() == a@[i].accounts@.len());
        assert(views_b[i].accounts.len() == b@[i].accounts@.len());
    }
    assert forall|i: int, j: int|
        0 <= i < a@.len() && 0 <= j < a@[i].accounts@.len() implies (
    #[trigger] a@[i].accounts@[j].pubkey@) == b@[i].accounts@[j].pubkey@ by {
        assert(a@[i].data@ == b@[i].data@);
        assert(views_a[i].accounts[j].pubkey == a@[i].accounts@[j].pubkey@);
        assert(views_b[i].accounts[j].pubkey == b@[i].accounts@[j].pubkey@);
    }
}

/// A signed transaction holds one signature, which the key pair made of this very message.
pub proof fn law_transaction_is_signed_by_its_payer(
    keypair: &Keypair,
    instructions: Vec<Instruction>,
    blockhash: &Address,
    transaction: SignedTransaction,
)
    requires
        call_ensures(Keypair::sign, (keypair, instructions, blockhash), transaction),
    ensures
        transaction.signatures@.len() == 1,
        transaction.signatures@[0]@ == ed25519_signature(keypair@, transaction.message@),
{
    assert(transaction@.signatures.len() == 1);
    assert(transaction@.signatures[0] == transaction.signatures@[0]@);
}

} // verus!
