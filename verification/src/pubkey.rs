//! Account addresses.

use vstd::prelude::*;
use vstd::std_specs::cmp::PartialEqSpec;

verus! {

/// The key that a base58 text stands for, or `None` where it stands for none.
pub uninterp spec fn base58_pubkey(text: Seq<char>) -> Option<Seq<u8>>;

/// The address of an account: 32 bytes.
#[derive(Clone, Copy, Debug)]
pub struct Pubkey {
    pub bytes: [u8; 32],
}

impl View for Pubkey {
    type V = Seq<u8>;

    open spec fn view(&self) -> Seq<u8> {
        self.bytes@
    }
}

impl DeepView for Pubkey {
    type V = Seq<u8>;

    open spec fn deep_view(&self) -> Seq<u8> {
        self.bytes@
    }
}

impl PartialEq for Pubkey {
    fn eq(&self, other: &Self) -> (same: bool) {
        let mut i: usize = 0;
        while i < 32
            invariant
                i <= 32,
                forall|j: int| 0 <= j < i ==> self.bytes@[j] == other.bytes@[j],
            decreases 32 - i,
        {
            if self.bytes[i] != other.bytes[i] {
                return false;
            }
            i = i + 1;
        }
        assert(self@ =~= other@);
        true
    }
}

impl vstd::std_specs::cmp::PartialEqSpecImpl for Pubkey {
    open spec fn obeys_eq_spec() -> bool {
        true
    }

    open spec fn eq_spec(&self, other: &Self) -> bool {
        self@ == other@
    }
}

impl Eq for Pubkey {

}

impl Pubkey {
    /// The key with the given bytes.
    pub fn new_from_array(bytes: [u8; 32]) -> (key: Self)
        ensures
            key@ == bytes@,
            key.bytes == bytes,
    {
        Pubkey { bytes }
    }

    /// The key that a base58 text stands for.
    ///
    /// Calls `solana_pubkey::Pubkey::from_str`, which fails on a text that is not base58 and on
    /// one that does not stand for exactly 32 bytes. What it returns is a function of the text
    /// alone, named `base58_pubkey` here. It asks of the text as many leading `1` digits as the
    /// key has leading zero bytes, so no other text stands for the same key.
    #[verifier::external_body]
    pub(crate) fn from_base58(text: &str) -> (key: Option<Self>)
        ensures
            key.deep_view() == base58_pubkey(text@),
            key matches Some(k) ==> forall|other: Seq<char>| #[trigger]
                base58_pubkey(other) == Some(k@) ==> other == text@,
    {
        match text.parse::<solana_pubkey::Pubkey>() {
            Ok(parsed) => Some(Pubkey { bytes: parsed.to_bytes() }),
            Err(_) => None,
        }
    }
}

/// The model of a key is its bytes, all of them, and keys are equal exactly where their bytes are.
pub proof fn keys_are_their_bytes(key: Pubkey, other: Pubkey)
    ensures
        key@.len() == 32,
        forall|i: int| 0 <= i < 32 ==> #[trigger] key@[i] == key.bytes[i],
        key.deep_view() == key@,
        key.eq_spec(&other) <==> (forall|i: int|
            0 <= i < 32 ==> #[trigger] key.bytes[i] == other.bytes[i]),
{
    if forall|i: int| 0 <= i < 32 ==> #[trigger] key.bytes[i] == other.bytes[i] {
        assert(key@ =~= other@);
    }
    if key@ == other@ {
        assert forall|i: int| 0 <= i < 32 implies #[trigger] key.bytes[i] == other.bytes[i] by {
            assert(key@[i] == other@[i]);
        }
    }
}

} // verus!
