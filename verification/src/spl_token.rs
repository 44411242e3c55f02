//! Token accounts and mints of the SPL token programs.

use crate::pubkey::Pubkey;
use vstd::prelude::*;

verus! {

/// The address of the SPL Token program, `TokenkegQfeZyiNwAJbNbGKPFXCWuBvf9Ss623VQ5DA`.
pub open spec fn token_program_id() -> Seq<u8> {
    seq![
        6u8, 221, 246, 225, 215, 101, 161, 147, 217, 203, 225, 70, 206, 235, 121, 172,
        28, 180, 133, 237, 95, 91, 55, 145, 58, 140, 245, 133, 126, 255, 0, 169,
    ]
}

/// The address of the SPL Token-2022 program, `TokenzQdBNbLqP5VEhdkAS6EPFLC1PHnBqCXEpPxuEb`.
pub open spec fn token_2022_program_id() -> Seq<u8> {
    seq![
        6u8, 221, 246, 225, 238, 117, 143, 222, 24, 66, 93, 188, 228, 108, 205, 218,
        182, 26, 252, 77, 131, 185, 13, 39, 254, 189, 249, 40, 216, 161, 139, 252,
    ]
}

/// One of the two SPL token programs.
pub open spec fn known_spl_token_id(id: Seq<u8>) -> bool {
    id == token_program_id() || id == token_2022_program_id()
}

/// The little-endian number in the eight bytes from `at`.
pub open spec fn le_u64(data: Seq<u8>, at: int) -> int {
    data[at] + 0x100 * data[at + 1] + 0x1_0000 * data[at + 2] + 0x100_0000 * data[at + 3]
        + 0x1_0000_0000 * data[at + 4] + 0x100_0000_0000 * data[at + 5]
        + 0x1_0000_0000_0000 * data[at + 6] + 0x100_0000_0000_0000 * data[at + 7]
}

/// Data of exactly the base length of its kind, with a nonzero state byte.
pub open spec fn is_base_state(data: Seq<u8>, length: int, state_at: int) -> bool {
    data.len() == length && data[state_at] != 0
}

/// Data with extensions: longer than a base token account, not of the length of a multisig,
/// marked with its kind behind the base account, and with a nonzero state byte.
pub open spec fn is_extended_state(data: Seq<u8>, kind: u8, state_at: int) -> bool {
    data.len() > 165 && data.len() != 355 && data[165] == kind && data[state_at] != 0
}

/// `data` is an initialized token account of the token program `program_id`.
pub open spec fn is_token_account(data: Seq<u8>, program_id: Seq<u8>) -> bool {
    ||| known_spl_token_id(program_id) && is_base_state(data, 165, 108)
    ||| program_id == token_2022_program_id() && is_extended_state(data, 2, 108)
}

/// `data` is an initialized mint of the token program `program_id`.
pub open spec fn is_mint(data: Seq<u8>, program_id: Seq<u8>) -> bool {
    ||| known_spl_token_id(program_id) && is_base_state(data, 82, 45)
    ||| program_id == token_2022_program_id() && is_extended_state(data, 1, 45)
}

/// What is read of a token account.
#[derive(Clone, Copy, Debug)]
pub struct TokenAccount {
    pub mint: Pubkey,
    pub owner: Pubkey,
    pub amount: u64,
}

/// The model of a [`TokenAccount`].
#[verifier::ext_equal]
pub struct TokenAccountView {
    pub mint: Seq<u8>,
    pub owner: Seq<u8>,
    pub amount: int,
}

impl DeepView for TokenAccount {
    type V = TokenAccountView;

    open spec fn deep_view(&self) -> TokenAccountView {
        TokenAccountView { mint: self.mint@, owner: self.owner@, amount: self.amount as int }
    }
}

/// The token account that `data` holds for the token program `program_id`.
pub open spec fn token_account(data: Seq<u8>, program_id: Seq<u8>) -> Option<TokenAccountView> {
    if is_token_account(data, program_id) {
        Some(
            TokenAccountView {
                mint: data.subrange(0, 32),
                owner: data.subrange(32, 64),
                amount: le_u64(data, 64),
            },
        )
    } else {
        None
    }
}

/// What is read of a mint.
#[derive(Clone, Copy, Debug)]
pub struct Mint {
    pub supply: u64,
    pub decimals: u8,
}

/// The model of a [`Mint`].
pub struct MintView {
    pub supply: int,
    pub decimals: u8,
}

impl DeepView for Mint {
    type V = MintView;

    open spec fn deep_view(&self) -> MintView {
        MintView { supply: self.supply as int, decimals: self.decimals }
    }
}

/// The mint that `data` holds for the token program `program_id`.
pub open spec fn mint(data: Seq<u8>, program_id: Seq<u8>) -> Option<MintView> {
    if is_mint(data, program_id) {
        Some(MintView { supply: le_u64(data, 36), decimals: data[44] })
    } else {
        None
    }
}

/// Whether `id` is the address of one of the two SPL token programs.
///
/// Calls `spl_generic_token::is_known_spl_token_id`, which compares the address with those of
/// the two programs.
#[verifier::external_body]
pub(crate) fn is_known_spl_token_id(id: &Pubkey) -> (known: bool)
    ensures
        known == known_spl_token_id(id@),
{
    spl_generic_token::is_known_spl_token_id(&solana_pubkey::Pubkey::new_from_array(id.bytes))
}

/// The token account in `data`, read as the token program `program_id` lays it out.
///
/// Calls `spl_generic_token::generic_token::Account::unpack`. It gives a token account exactly
/// for initialized account data of the program: mint, owner and amount stand one behind the
/// other at the start, the amount as a little-endian number.
#[verifier::external_body]
pub(crate) fn unpack_account(data: &[u8], program_id: &Pubkey) -> (account: Option<TokenAccount>)
    ensures
        account.deep_view() == token_account(data@, program_id@),
{
    let program_id = solana_pubkey::Pubkey::new_from_array(program_id.bytes);
    let unpacked = spl_generic_token::generic_token::Account::unpack(data, &program_id)?;
    Some(
        TokenAccount {
            mint: Pubkey { bytes: unpacked.mint.to_bytes() },
            owner: Pubkey { bytes: unpacked.owner.to_bytes() },
            amount: unpacked.amount,
        },
    )
}

/// The mint in `data`, read as the token program `program_id` lays it out.
///
/// Calls `spl_generic_token::generic_token::Mint::unpack`. It gives a mint exactly for
/// initialized mint data of the program: the supply is a little-endian number, the decimals are
/// the byte behind it.
#[verifier::external_body]
pub(crate) fn unpack_mint(data: &[u8], program_id: &Pubkey) -> (mint: Option<Mint>)
    ensures
        mint.deep_view() == self::mint(data@, program_id@),
{
    let program_id = solana_pubkey::Pubkey::new_from_array(program_id.bytes);
    let unpacked = spl_generic_token::generic_token::Mint::unpack(data, &program_id)?;
    Some(Mint { supply: unpacked.supply, decimals: unpacked.decimals })
}

/// The two token programs, by the bytes of their addresses.
pub proof fn token_programs_are_these_two(id: Seq<u8>)
    ensures
        known_spl_token_id(id) <==> {
            ||| id == seq![
                6u8, 221, 246, 225, 215, 101, 161, 147, 217, 203, 225, 70, 206, 235, 121, 172,
                28, 180, 133, 237, 95, 91, 55, 145, 58, 140, 245, 133, 126, 255, 0, 169,
            ]
            ||| id == seq![
                6u8, 221, 246, 225, 238, 117, 143, 222, 24, 66, 93, 188, 228, 108, 205, 218,
                182, 26, 252, 77, 131, 185, 13, 39, 254, 189, 249, 40, 216, 161, 139, 252,
            ]
        },
        id == token_2022_program_id() <==> id == seq![
            6u8, 221, 246, 225, 238, 117, 143, 222, 24, 66, 93, 188, 228, 108, 205, 218,
            182, 26, 252, 77, 131, 185, 13, 39, 254, 189, 249, 40, 216, 161, 139, 252,
        ],
{
}

/// Each byte counts 256 times as much as the one before it.
pub proof fn le_u64_weighs_each_byte(data: Seq<u8>, at: int)
    requires
        0 <= at,
        at + 8 <= data.len(),
    ensures
        le_u64(data, at) == data[at] + 256 * (data[at + 1] + 256 * (data[at + 2] + 256 * (data[at
            + 3] + 256 * (data[at + 4] + 256 * (data[at + 5] + 256 * (data[at + 6] + 256 * data[at
            + 7])))))),
        0 <= le_u64(data, at) <= u64::MAX,
{
}

/// Which data is a token account, and what it holds: of the base length with a nonzero state, or,
/// for Token-2022 alone, longer, marked as an account, and not of the length of a multisig.
pub proof fn token_accounts_by_their_bytes(data: Seq<u8>, program_id: Seq<u8>)
    ensures
        token_account(data, program_id) is Some <==> {
            &&& known_spl_token_id(program_id)
            &&& data.len() >= 165
            &&& data[108] != 0
            &&& data.len() > 165 ==> program_id == token_2022_program_id() && data.len() != 355
                && data[165] == 2
        },
        token_account(data, program_id) matches Some(token) ==> {
            &&& token.mint.len() == 32
            &&& token.owner.len() == 32
            &&& forall|i: int| 0 <= i < 32 ==> #[trigger] token.mint[i] == data[i]
            &&& forall|i: int| 0 <= i < 32 ==> #[trigger] token.owner[i] == data[32 + i]
            &&& token.amount == le_u64(data, 64)
        },
{
}

/// Which data is a mint, and what it holds: of the base length with a nonzero state, or, for
/// Token-2022 alone, longer than a token account, marked as a mint, and not of the length of a
/// multisig.
pub proof fn mints_by_their_bytes(data: Seq<u8>, program_id: Seq<u8>)
    ensures
        mint(data, program_id) is Some <==> {
            &&& known_spl_token_id(program_id)
            &&& data.len() == 82 || (program_id == token_2022_program_id() && data.len() > 165
                && data.len() != 355 && data[165] == 1)
            &&& data[45] != 0
        },
        mint(data, program_id) matches Some(minted) ==> {
            &&& minted.supply == le_u64(data, 36)
            &&& minted.decimals == data[44]
        },
{
}

/// The models of what is unpacked are faithful.
pub proof fn token_models_are_faithful(token: TokenAccount, minted: Mint)
    ensures
        token.deep_view().mint == token.mint.bytes@,
        token.deep_view().owner == token.owner.bytes@,
        token.deep_view().amount == token.amount,
        minted.deep_view().supply == minted.supply,
        minted.deep_view().decimals == minted.decimals,
{
}

} // verus!
