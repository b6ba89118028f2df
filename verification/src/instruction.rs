//! Instructions as plain values, and the byte layout that one has inside another.
use vstd::prelude::*;

verus! {

/// A 32-byte account address, program address or block hash.
pub type Address = [u8; 32];

/// One account that an instruction names.
#[derive(Clone, Copy, Debug, PartialEq, Eq)]
pub struct AccountMeta {
    /// Address of the account.
    pub pubkey: Address,
    /// Whether the transaction needs a signature of this account.
    pub is_signer: bool,
    /// Whether the program may change the account.
    pub is_writable: bool,
}

/// An [`AccountMeta`] with its address as a sequence of bytes.
#[verifier::ext_equal]
pub struct AccountMetaView {
    pub pubkey: Seq<u8>,
    pub is_signer: bool,
    pub is_writable: bool,
}

impl View for AccountMeta {
    type V = AccountMetaView;

    open spec fn view(&self) -> AccountMetaView {
        AccountMetaView {
            pubkey: self.pubkey@,
            is_signer: self.is_signer,
            is_writable: self.is_writable,
        }
    }
}

/// A writable account.
pub open spec fn writable(pubkey: Seq<u8>, is_signer: bool) -> AccountMetaView {
    AccountMetaView { pubkey, is_signer, is_writable: true }
}

/// An account that is only read.
pub open spec fn readonly(pubkey: Seq<u8>, is_signer: bool) -> AccountMetaView {
    AccountMetaView { pubkey, is_signer, is_writable: false }
}

impl AccountMeta {
    /// A writable account.
    pub fn new(pubkey: Address, is_signer: bool) -> (meta: AccountMeta)
        ensures
            meta@ == writable(pubkey@, is_signer),
    {
        AccountMeta { pubkey, is_signer, is_writable: true }
    }

    /// An account that is only read.
    pub fn new_readonly(pubkey: Address, is_signer: bool) -> (meta: AccountMeta)
        ensures
            meta@ == readonly(pubkey@, is_signer),
    {
        AccountMeta { pubkey, is_signer, is_writable: false }
    }
}

/// The views of a list of accounts.
pub open spec fn metas_view(metas: Seq<AccountMeta>) -> Seq<AccountMetaView> {
    metas.map_values(|meta: AccountMeta| meta@)
}

/// A call of an on-chain program.
#[derive(Debug, PartialEq, Eq)]
pub struct Instruction {
    /// Address of the program.
    pub program_id: Address,
    /// The accounts handed to it, in order.
    pub accounts: Vec<AccountMeta>,
    /// The bytes handed to it.
    pub data: Vec<u8>,
}

/// An [`Instruction`] as sequences.
#[verifier::ext_equal]
pub struct InstructionView {
    pub program_id: Seq<u8>,
    pub accounts: Seq<AccountMetaView>,
    pub data: Seq<u8>,
}

impl View for Instruction {
    type V = InstructionView;

    open spec fn view(&self) -> InstructionView {
        InstructionView {
            program_id: self.program_id@,
            accounts: metas_view(self.accounts@),
            data: self.data@,
        }
    }
}

/// The views of a list of instructions.
pub open spec fn instructions_view(instructions: Seq<Instruction>) -> Seq<InstructionView> {
    instructions.map_values(|instruction: Instruction| instruction@)
}

/// The `width` low bytes of `n`, the lowest first.
pub open spec fn le_bytes(n: nat, width: nat) -> Seq<u8>
    decreases width,
{
    if width == 0 {
        Seq::empty()
    } else {
        seq![(n % 256) as u8] + le_bytes(n / 256, (width - 1) as nat)
    }
}

/// A flag as one byte.
pub open spec fn flag_byte(flag: bool) -> u8 {
    if flag {
        1
    } else {
        0
    }
}

/// An account inside an encoded instruction: its address, then the two flags.
pub open spec fn meta_bytes(meta: AccountMetaView) -> Seq<u8> {
    meta.pubkey + seq![flag_byte(meta.is_signer), flag_byte(meta.is_writable)]
}

/// The accounts of an encoded instruction, one after the other.
pub open spec fn metas_bytes(metas: Seq<AccountMetaView>) -> Seq<u8>
    decreases metas.len(),
{
    if metas.len() == 0 {
        Seq::empty()
    } else {
        meta_bytes(metas.first()) + metas_bytes(metas.drop_first())
    }
}

/// An instruction as the bytes that another instruction carries: the program, the number of
/// accounts, the accounts, the number of data bytes, the data. Numbers take eight bytes.
pub open spec fn instruction_bytes(instruction: InstructionView) -> Seq<u8> {
    instruction.program_id + le_bytes(instruction.accounts.len(), 8) + metas_bytes(
        instruction.accounts,
    ) + le_bytes(instruction.data.len(), 8) + instruction.data
}

/// The number of values that `width` bytes can hold.
pub open spec fn byte_range(width: nat) -> nat
    decreases width,
{
    if width == 0 {
        1
    } else {
        256 * byte_range((width - 1) as nat)
    }
}

/// An address has 32 bytes, and the counts fit in 64 bits. Holds of the view of every
/// [`Instruction`].
pub open spec fn well_formed(instruction: InstructionView) -> bool {
    &&& instruction.program_id.len() == 32
    &&& instruction.accounts.len() <= u64::MAX
    &&& instruction.data.len() <= u64::MAX
    &&& forall|i: int|
        0 <= i < instruction.accounts.len() ==> (#[trigger] instruction.accounts[i]).pubkey.len()
            == 32
}

/// [`le_bytes`] gives as many bytes as it was asked for.
pub proof fn lemma_le_bytes_len(n: nat, width: nat)
    ensures
        le_bytes(n, width).len() == width,
    decreases width,
{
    if width > 0 {
        lemma_le_bytes_len(n / 256, (width - 1) as nat);
    }
}

/// Two numbers with the same bytes are the same number, as long as both fit.
pub proof fn lemma_le_bytes_injective(a: nat, b: nat, width: nat)
    requires
        a < byte_range(width),
        b < byte_range(width),
        le_bytes(a, width) == le_bytes(b, width),
    ensures
        a == b,
    decreases width,
{
    if width > 0 {
        let rest = (width - 1) as nat;
        let bytes_a = le_bytes(a, width);
        let bytes_b = le_bytes(b, width);
        assert(bytes_a[0] == (a % 256) as u8);
        assert(bytes_b[0] == (b % 256) as u8);
        assert(bytes_a.drop_first() =~= le_bytes(a / 256, rest));
        assert(bytes_b.drop_first() =~= le_bytes(b / 256, rest));
        lemma_le_bytes_injective(a / 256, b / 256, rest);
    }
}

/// Each account takes 34 bytes.
pub proof fn lemma_metas_bytes_len(metas: Seq<AccountMetaView>)
    requires
        forall|i: int| 0 <= i < metas.len() ==> (#[trigger] metas[i]).pubkey.len() == 32,
    ensures
        metas_bytes(metas).len() == 34 * metas.len(),
    decreases metas.len(),
{
    if metas.len() > 0 {
        let rest = metas.drop_first();
        assert forall|i: int| 0 <= i < rest.len() implies (#[trigger] rest[i]).pubkey.len()
            == 32 by {
            assert(rest[i] == metas[i + 1]);
        }
        lemma_metas_bytes_len(rest);
    }
}

/// The length of an encoded instruction.
pub proof fn lemma_instruction_bytes_len(instruction: InstructionView)
    requires
        well_formed(instruction),
    ensures
        instruction_bytes(instruction).len() == 48 + 34 * instruction.accounts.len()
            + instruction.data.len(),
{
    lemma_le_bytes_len(instruction.accounts.len(), 8);
    lemma_le_bytes_len(instruction.data.len(), 8);
    lemma_metas_bytes_len(instruction.accounts);
}

/// Equally many accounts with the same bytes are the same accounts.
proof fn lemma_metas_bytes_injective(a: Seq<AccountMetaView>, b: Seq<AccountMetaView>)
    requires
        a.len() == b.len(),
        forall|i: int| 0 <= i < a.len() ==> (#[trigger] a[i]).pubkey.len() == 32,
        forall|i: int| 0 <= i < b.len() ==> (#[trigger] b[i]).pubkey.len() == 32,
        metas_bytes(a) == metas_bytes(b),
    ensures
        a == b,
    decreases a.len(),
{
    if a.len() > 0 {
        let rest_a = a.drop_first();
        let rest_b = b.drop_first();
        let bytes_a = metas_bytes(a);
        let bytes_b = metas_bytes(b);
        let first_a = meta_bytes(a[0]);
        let first_b = meta_bytes(b[0]);
        assert(first_a =~= bytes_a.take(34));
        assert(first_b =~= bytes_b.take(34));
        assert(a[0].pubkey =~= first_a.take(32));
        assert(b[0].pubkey =~= first_b.take(32));
        assert(first_a[32] == flag_byte(a[0].is_signer));
        assert(first_b[32] == flag_byte(b[0].is_signer));
        assert(first_a[33] == flag_byte(a[0].is_writable));
        assert(first_b[33] == flag_byte(b[0].is_writable));
        assert(a[0] == b[0]);
        assert(metas_bytes(rest_a) =~= bytes_a.skip(34));
        assert(metas_bytes(rest_b) =~= bytes_b.skip(34));
        assert forall|i: int| 0 <= i < rest_a.len() implies (#[trigger] rest_a[i]).pubkey.len()
            == 32 by {
            assert(rest_a[i] == a[i + 1]);
        }
        assert forall|i: int| 0 <= i < rest_b.len() implies (#[trigger] rest_b[i]).pubkey.len()
            == 32 by {
            assert(rest_b[i] == b[i + 1]);
        }
        lemma_metas_bytes_injective(rest_a, rest_b);
        assert forall|i: int| 0 <= i < a.len() implies a[i] == b[i] by {
            if i > 0 {
                assert(a[i] == rest_a[i - 1]);
                assert(b[i] == rest_b[i - 1]);
            }
        }
        assert(a =~= b);
    } else {
        assert(a =~= b);
    }
}

/// No two instructions have the same encoding: whoever reads the bytes recovers the instruction.
pub proof fn law_instruction_bytes_injective(a: InstructionView, b: InstructionView)
    requires
        well_formed(a),
        well_formed(b),
        instruction_bytes(a) == instruction_bytes(b),
    ensures
        a == b,
{
    let bytes_a = instruction_bytes(a);
    let bytes_b = instruction_bytes(b);
    assert(byte_range(8) == 0x1_0000_0000_0000_0000) by {
        reveal_with_fuel(byte_range, 9);
    }
    lemma_le_bytes_len(a.accounts.len(), 8);
    lemma_le_bytes_len(b.accounts.len(), 8);
    lemma_le_bytes_len(a.data.len(), 8);
    lemma_le_bytes_len(b.data.len(), 8);
    lemma_metas_bytes_len(a.accounts);
    lemma_metas_bytes_len(b.accounts);
    assert(a.program_id =~= bytes_a.take(32));
    assert(b.program_id =~= bytes_b.take(32));
    assert(le_bytes(a.accounts.len(), 8) =~= bytes_a.subrange(32, 40));
    assert(le_bytes(b.accounts.len(), 8) =~= bytes_b.subrange(32, 40));
    lemma_le_bytes_injective(a.accounts.len(), b.accounts.len(), 8);
    let end = 40 + 34 * a.accounts.len() as int;
    assert(metas_bytes(a.accounts) =~= bytes_a.subrange(40, end));
    assert(metas_bytes(b.accounts) =~= bytes_b.subrange(40, end));
    lemma_metas_bytes_injective(a.accounts, b.accounts);
    assert(a.data =~= bytes_a.skip(end + 8));
    assert(b.data =~= bytes_b.skip(end + 8));
}

/// The view of every instruction is well formed.
pub proof fn law_view_well_formed(instruction: &Instruction)
    ensures
        well_formed(instruction@),
{
    assert(instruction.accounts@.len() == instruction.accounts.len());
    assert(instruction.data@.len() == instruction.data.len());
}

/// An account is named by its own address and signs exactly if asked to; the one may be changed,
/// the other not.
pub proof fn law_account_flags(
    pubkey: Address,
    is_signer: bool,
    changed: AccountMeta,
    read: AccountMeta,
)
    requires
        call_ensures(AccountMeta::new, (pubkey, is_signer), changed),
        call_ensures(AccountMeta::new_readonly, (pubkey, is_signer), read),
    ensures
        changed.pubkey@ == pubkey@,
        changed.is_signer == is_signer,
        changed.is_writable,
        read.pubkey@ == pubkey@,
        read.is_signer == is_signer,
        !read.is_writable,
{
}

} // verus!
