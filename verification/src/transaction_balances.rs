//! Balances and datums of a transaction's accounts, from before and after it ran.

use crate::account::{
    Account, AccountKeyView, AccountLoader, AccountView, Load, Transaction,
};
use crate::pubkey::Pubkey;
use crate::spl_token::{
    is_known_spl_token_id, is_mint, known_spl_token_id, mint, token_account, unpack_account,
    unpack_mint, TokenAccount, TokenAccountView,
};
use vstd::prelude::*;

pub use crate::datum_inclusion::{
    DatumInclusion, DatumInclusionView, PreOrPostDatum, ProgramDatumInclusions,
};

verus! {

/// The token balance of one account.
#[derive(Clone, Copy, Debug)]
pub struct SvmTokenInfo {
    /// The position of the account among the transaction's account keys.
    pub account_index: u8,
    pub mint: Pubkey,
    pub amount: u64,
    /// Who holds the tokens.
    pub owner: Pubkey,
    /// The token program that owns the account.
    pub program_id: Pubkey,
    pub decimals: u8,
}

/// The model of a [`SvmTokenInfo`].
#[verifier::ext_equal]
pub struct SvmTokenInfoView {
    pub account_index: int,
    pub mint: Seq<u8>,
    pub amount: int,
    pub owner: Seq<u8>,
    pub program_id: Seq<u8>,
    pub decimals: u8,
}

impl DeepView for SvmTokenInfo {
    type V = SvmTokenInfoView;

    open spec fn deep_view(&self) -> SvmTokenInfoView {
        SvmTokenInfoView {
            account_index: self.account_index as int,
            mint: self.mint@,
            amount: self.amount as int,
            owner: self.owner@,
            program_id: self.program_id@,
            decimals: self.decimals,
        }
    }
}

/// The balance of `token`, an account of the token program `program_id` at `index`, once its
/// mint account is known: the mint must belong to the same program and be initialized, and the
/// index must fit in a byte.
pub open spec fn balance_with_mint(
    token: TokenAccountView,
    program_id: Seq<u8>,
    mint_account: Option<AccountView>,
    index: int,
) -> Option<SvmTokenInfoView> {
    match mint_account {
        Some(minted) => if minted.owner == program_id && mint(minted.data, program_id) is Some
            && index <= u8::MAX {
            Some(
                SvmTokenInfoView {
                    account_index: index,
                    mint: token.mint,
                    amount: token.amount,
                    owner: token.owner,
                    program_id,
                    decimals: mint(minted.data, program_id)->0.decimals,
                },
            )
        } else {
            None
        },
        None => None,
    }
}

/// The token balance of `account` at `index`, where `mint_account` is what its mint loads as.
pub open spec fn token_info(
    account: AccountView,
    mint_account: Option<AccountView>,
    index: int,
) -> Option<SvmTokenInfoView> {
    match token_account(account.data, account.owner) {
        Some(token) => balance_with_mint(token, account.owner, mint_account, index),
        None => None,
    }
}

impl SvmTokenInfo {
    /// The balance of a token account, once its mint account is loaded.
    pub fn with_mint_account(
        token: &TokenAccount,
        program_id: Pubkey,
        mint_account: &Option<Account>,
        index: usize,
    ) -> (info: Option<Self>)
        ensures
            info.deep_view() == balance_with_mint(
                token.deep_view(),
                program_id@,
                mint_account.deep_view(),
                index as int,
            ),
            info is Some <==> {
                &&& mint_account matches Some(minted)
                &&& minted.owner@ == program_id@
                &&& is_mint(minted.data@, program_id@)
                &&& index <= 255
            },
            info matches Some(balance) ==> {
                &&& balance.account_index == index
                &&& balance.mint@ == token.mint@
                &&& balance.amount == token.amount
                &&& balance.owner@ == token.owner@
                &&& balance.program_id@ == program_id@
                &&& balance.decimals == mint_account->0.data@[44]
            },
    {
        let mint_account = match mint_account {
            Some(account) => account,
            None => {
                return None;
            },
        };
        if mint_account.owner != program_id {
            return None;
        }
        let decimals: u8 = match unpack_mint(mint_account.data.as_slice(), &program_id) {
            Some(minted) => minted.decimals,
            None => {
                return None;
            },
        };
        if index > 255 {
            return None;
        }
        Some(
            SvmTokenInfo {
                account_index: index as u8,
                mint: token.mint,
                amount: token.amount,
                owner: token.owner,
                program_id,
                decimals,
            },
        )
    }

    /// The token balance of an account, for which its mint account is loaded. There is none
    /// where the account or its mint is not a valid, initialized one of the same token program.
    /// Only the mint that a valid token account names is asked for.
    pub fn unpack_token_account<L: Fn(&Pubkey) -> Option<Account>>(
        account_loader: &mut AccountLoader<L>,
        account: &Account,
        index: usize,
    ) -> (info: Option<Self>)
        requires
            old(account_loader).wf(),
        ensures
            final(account_loader).wf(),
            final(account_loader).function() == old(account_loader).function(),
            match token_account(account.data@, account.owner@) {
                Some(token) => exists|mint_account: Option<AccountView>|
                    final(account_loader).asked() == #[trigger] old(account_loader).asked().push(
                        Load { key: token.mint, reply: mint_account },
                    ) && info.deep_view() == token_info(
                        account.deep_view(),
                        mint_account,
                        index as int,
                    ),
                None => info is None && final(account_loader).asked() == old(
                    account_loader,
                ).asked(),
            },
    {
        let program_id = account.owner;
        let token = match unpack_account(account.data.as_slice(), &program_id) {
            Some(token) => token,
            None => {
                return None;
            },
        };
        let mint_account = account_loader.load_account(&token.mint);
        let info = Self::with_mint_account(&token, program_id, &mint_account, index);
        assert(info.deep_view() == token_info(
            account.deep_view(),
            mint_account.deep_view(),
            index as int,
        ));
        assert(account_loader.asked() == old(account_loader).asked().push(
            Load { key: token.deep_view().mint, reply: mint_account.deep_view() },
        ));
        info
    }
}

/// What was loaded on account of one account key.
#[verifier::ext_equal]
pub struct KeyLoads {
    /// The account itself.
    pub account: Option<AccountView>,
    /// The mint of the token account in it, where that was asked for.
    pub mint: Option<AccountView>,
}

/// One of the keys is a token program.
pub open spec fn has_token_program(keys: Seq<AccountKeyView>) -> bool {
    exists|i: int| 0 <= i < keys.len() && known_spl_token_id(#[trigger] keys[i].pubkey)
}

/// The account at `index` is looked at for a token balance: a token program takes part in the
/// transaction and owns the account, which is neither invoked nor a token program itself.
pub open spec fn may_hold_tokens(
    keys: Seq<AccountKeyView>,
    index: int,
    account: AccountView,
) -> bool {
    &&& has_token_program(keys)
    &&& !keys[index].invoked
    &&& !known_spl_token_id(keys[index].pubkey)
    &&& known_spl_token_id(account.owner)
}

/// The mint that is loaded for the account at `index`.
pub open spec fn wanted_mint(
    keys: Seq<AccountKeyView>,
    index: int,
    account: Option<AccountView>,
) -> Option<Seq<u8>> {
    match account {
        Some(loaded) => if may_hold_tokens(keys, index, loaded) {
            match token_account(loaded.data, loaded.owner) {
                Some(token) => Some(token.mint),
                None => None,
            }
        } else {
            None
        },
        None => None,
    }
}

/// What is asked on account of the key at `index`: the key, and directly behind it the mint that
/// is wanted.
pub open spec fn asked_for_key(
    keys: Seq<AccountKeyView>,
    index: int,
    loads: KeyLoads,
) -> Seq<Load> {
    let account = seq![Load { key: keys[index].pubkey, reply: loads.account }];
    match wanted_mint(keys, index, loads.account) {
        Some(wanted) => account.push(Load { key: wanted, reply: loads.mint }),
        None => account,
    }
}

/// What is asked for balances: what is asked on account of each key, one key after the other.
pub open spec fn asked_for_balances(keys: Seq<AccountKeyView>, loads: Seq<KeyLoads>) -> Seq<Load>
    decreases loads.len(),
{
    if loads.len() == 0 {
        Seq::empty()
    } else {
        asked_for_balances(keys, loads.drop_last()) + asked_for_key(
            keys,
            loads.len() - 1,
            loads.last(),
        )
    }
}

/// The native balance of each account, zero where there is none.
pub open spec fn native_balances(loads: Seq<KeyLoads>) -> Seq<u64> {
    Seq::new(
        loads.len(),
        |i: int|
            match loads[i].account {
                Some(account) => account.lamports,
                None => 0,
            },
    )
}

/// The token balance of the account at `index`.
pub open spec fn token_balance(
    keys: Seq<AccountKeyView>,
    index: int,
    loads: KeyLoads,
) -> Option<SvmTokenInfoView> {
    match loads.account {
        Some(account) => if may_hold_tokens(keys, index, account) {
            token_info(account, loads.mint, index)
        } else {
            None
        },
        None => None,
    }
}

/// The token balances of the accounts that have one, in the order of the account keys.
pub open spec fn token_balances(
    keys: Seq<AccountKeyView>,
    loads: Seq<KeyLoads>,
) -> Seq<SvmTokenInfoView> {
    Seq::new(loads.len(), |i: int| token_balance(keys, i, loads[i])).filter_map(
        |balance: Option<SvmTokenInfoView>| balance,
    )
}

/// `loads` is what was loaded on account of each key, and with it the balances are `native` and
/// `tokens`.
pub open spec fn balances_of_loads(
    keys: Seq<AccountKeyView>,
    asked: Seq<Load>,
    native: Seq<u64>,
    tokens: Seq<SvmTokenInfoView>,
    loads: Seq<KeyLoads>,
) -> bool {
    &&& loads.len() == keys.len()
    &&& asked == asked_for_balances(keys, loads)
    &&& native == native_balances(loads)
    &&& tokens == token_balances(keys, loads)
}

/// `asked` is all that is asked for the balances of the given account keys, and with its answers
/// they are `native` and `tokens`.
pub open spec fn balances_collected(
    keys: Seq<AccountKeyView>,
    asked: Seq<Load>,
    native: Seq<u64>,
    tokens: Seq<SvmTokenInfoView>,
) -> bool {
    exists|loads: Seq<KeyLoads>| balances_of_loads(keys, asked, native, tokens, loads)
}

/// What one more account adds to the token balances.
pub(crate) proof fn lemma_token_balances_push(
    keys: Seq<AccountKeyView>,
    loads: Seq<KeyLoads>,
    next: KeyLoads,
)
    ensures
        token_balances(keys, loads.push(next)) == match token_balance(
            keys,
            loads.len() as int,
            next,
        ) {
            Some(balance) => token_balances(keys, loads).push(balance),
            None => token_balances(keys, loads),
        },
{
    let shorter = Seq::new(loads.len(), |i: int| token_balance(keys, i, loads[i]));
    let longer = Seq::new(
        loads.push(next).len(),
        |i: int| token_balance(keys, i, loads.push(next)[i]),
    );
    assert(longer.drop_last() =~= shorter);
    reveal_with_fuel(Seq::filter_map, 2);
}

/// The datum that is recorded of an account, of which `reply` is what it loads as: its data,
/// where its owner has an inclusion that takes it.
pub open spec fn datum(
    inclusions: Map<Seq<u8>, DatumInclusionView>,
    pre_or_post: PreOrPostDatum,
    reply: Option<AccountView>,
) -> Option<Seq<u8>> {
    match reply {
        Some(account) => if inclusions.contains_key(account.owner)
            && inclusions[account.owner].includes(pre_or_post, account.data.len()) {
            Some(account.data)
        } else {
            None
        },
        None => None,
    }
}

/// The owner of an account, of which `reply` is what it loads as.
pub open spec fn owner(reply: Option<AccountView>) -> Option<Seq<u8>> {
    match reply {
        Some(account) => Some(account.owner),
        None => None,
    }
}

/// `asked` is all that is asked for the datums of the given account keys, each key once and in
/// order, and with its answers they are `datums` and `owners`.
pub open spec fn datums_collected(
    keys: Seq<AccountKeyView>,
    inclusions: Map<Seq<u8>, DatumInclusionView>,
    pre_or_post: PreOrPostDatum,
    asked: Seq<Load>,
    datums: Seq<Option<Seq<u8>>>,
    owners: Seq<Option<Seq<u8>>>,
) -> bool {
    &&& asked.len() == keys.len()
    &&& forall|i: int| 0 <= i < asked.len() ==> (#[trigger] asked[i]).key == keys[i].pubkey
    &&& datums == asked.map_values(|load: Load| datum(inclusions, pre_or_post, load.reply))
    &&& owners == asked.map_values(|load: Load| owner(load.reply))
}

/// What is recorded of one transaction, from before or after it ran.
#[verifier::ext_equal]
pub struct TransactionRecord {
    /// The native balance of each account.
    pub native: Seq<u64>,
    /// The token balances of the accounts that have one.
    pub tokens: Seq<SvmTokenInfoView>,
    /// The datum of each account, where it is included.
    pub datums: Seq<Option<Seq<u8>>>,
    /// The owner of each account, where it exists.
    pub owners: Seq<Option<Seq<u8>>>,
}

/// `asked` is all that is asked to record a transaction with the given account keys, first for
/// its balances and then for its datums, and with its answers the record is `record`.
pub open spec fn record_collected(
    keys: Seq<AccountKeyView>,
    inclusions: Map<Seq<u8>, DatumInclusionView>,
    pre_or_post: PreOrPostDatum,
    asked: Seq<Load>,
    record: TransactionRecord,
) -> bool {
    let split = asked.len() - keys.len();
    &&& 0 <= split
    &&& balances_collected(keys, asked.take(split), record.native, record.tokens)
    &&& datums_collected(
        keys,
        inclusions,
        pre_or_post,
        asked.skip(split),
        record.datums,
        record.owners,
    )
}

/// The model of a [`BalanceCollector`]: one record for each transaction, from before and from
/// after it ran.
#[verifier::ext_equal]
pub struct BalanceCollectorView {
    pub pre: Seq<TransactionRecord>,
    pub post: Seq<TransactionRecord>,
}

impl BalanceCollectorView {
    /// With one more record on one side.
    pub open spec fn with_record(
        self,
        pre_or_post: PreOrPostDatum,
        record: TransactionRecord,
    ) -> BalanceCollectorView {
        match pre_or_post {
            PreOrPostDatum::PreDatum => BalanceCollectorView {
                pre: self.pre.push(record),
                post: self.post,
            },
            PreOrPostDatum::PostDatum => BalanceCollectorView {
                pre: self.pre,
                post: self.post.push(record),
            },
        }
    }
}

/// The records whose parts stand in four lists.
pub open spec fn records(
    native: Seq<Seq<u64>>,
    tokens: Seq<Seq<SvmTokenInfoView>>,
    datums: Seq<Seq<Option<Seq<u8>>>>,
    owners: Seq<Seq<Option<Seq<u8>>>>,
) -> Seq<TransactionRecord> {
    Seq::new(
        native.len(),
        |i: int|
            TransactionRecord {
                native: native[i],
                tokens: tokens[i],
                datums: datums[i],
                owners: owners[i],
            },
    )
}

/// Collects the balances and datums of a batch of transactions.
#[derive(Debug)]
pub struct BalanceCollector {
    native_pre: Vec<Vec<u64>>,
    native_post: Vec<Vec<u64>>,
    token_pre: Vec<Vec<SvmTokenInfo>>,
    token_post: Vec<Vec<SvmTokenInfo>>,
    pre_datum: Vec<Vec<Option<Vec<u8>>>>,
    post_datum: Vec<Vec<Option<Vec<u8>>>>,
    pre_owners: Vec<Vec<Option<Pubkey>>>,
    post_owners: Vec<Vec<Option<Pubkey>>>,
}

impl DeepView for BalanceCollector {
    type V = BalanceCollectorView;

    closed spec fn deep_view(&self) -> BalanceCollectorView {
        BalanceCollectorView {
            pre: records(
                self.native_pre.deep_view(),
                self.token_pre.deep_view(),
                self.pre_datum.deep_view(),
                self.pre_owners.deep_view(),
            ),
            post: records(
                self.native_post.deep_view(),
                self.token_post.deep_view(),
                self.post_datum.deep_view(),
                self.post_owners.deep_view(),
            ),
        }
    }
}

impl BalanceCollector {
    /// All lists of one side are equally long: each transaction has an entry in each of them,
    /// if only an empty one.
    pub closed spec fn wf(&self) -> bool {
        &&& self.token_pre.len() == self.native_pre.len()
        &&& self.pre_datum.len() == self.native_pre.len()
        &&& self.pre_owners.len() == self.native_pre.len()
        &&& self.token_post.len() == self.native_post.len()
        &&& self.post_datum.len() == self.native_post.len()
        &&& self.post_owners.len() == self.native_post.len()
    }

    /// The native balance of every account of a transaction, and the token balance of every
    /// valid, initialized token account with a valid, initialized mint.
    pub fn collect_balances<L: Fn(&Pubkey) -> Option<Account>>(
        &mut self,
        account_loader: &mut AccountLoader<L>,
        transaction: &Transaction,
    ) -> (balances: (Vec<u64>, Vec<SvmTokenInfo>))
        requires
            old(account_loader).wf(),
        ensures
            *final(self) == *old(self),
            final(account_loader).continues(old(account_loader)),
            balances_collected(
                transaction.deep_view(),
                final(account_loader).asked_since(old(account_loader)),
                balances.0@,
                balances.1.deep_view(),
            ),
    {
        let count: usize = transaction.account_keys.len();
        let ghost keys = transaction.deep_view();
        let mut native_balances: Vec<u64> = Vec::with_capacity(count);
        let mut token_balances: Vec<SvmTokenInfo> = Vec::new();

        let mut has_token_program = false;
        let mut i: usize = 0;
        while i < count && !has_token_program
            invariant
                i <= count,
                count == transaction.account_keys.len(),
                keys == transaction.deep_view(),
                has_token_program ==> self::has_token_program(keys),
                !has_token_program ==> forall|j: int|
                    0 <= j < i ==> !known_spl_token_id(#[trigger] keys[j].pubkey),
            decreases count - i,
        {
            has_token_program = is_known_spl_token_id(&transaction.account_keys[i].pubkey);
            assert(keys[i as int].pubkey == transaction.account_keys[i as int].pubkey@);
            i = i + 1;
        }

        let ghost start = account_loader.asked();
        let ghost mut loads: Seq<KeyLoads> = Seq::empty();
        assert(start + asked_for_balances(keys, loads) =~= start);
        assert(native_balances@ =~= self::native_balances(loads));
        assert(token_balances.deep_view() =~= self::token_balances(keys, loads));
        let mut index: usize = 0;
        while index < count
            invariant
                index <= count,
                count == transaction.account_keys.len(),
                keys == transaction.deep_view(),
                has_token_program == self::has_token_program(keys),
                account_loader.wf(),
                account_loader.function() == old(account_loader).function(),
                start == old(account_loader).asked(),
                account_loader.asked() == start + asked_for_balances(keys, loads),
                loads.len() == index,
                native_balances@ == self::native_balances(loads),
                token_balances.deep_view() == self::token_balances(keys, loads),
            decreases count - index,
        {
            let key = &transaction.account_keys[index];
            assert(keys[index as int] == key.deep_view());
            let ghost before = loads;
            let ghost native_before = native_balances@;
            let ghost mut next = KeyLoads { account: None, mint: None };
            let ghost asked_before = account_loader.asked();
            match account_loader.load_account(&key.pubkey) {
                None => {
                    native_balances.push(0);
                },
                Some(account) => {
                    native_balances.push(account.lamports);
                    proof {
                        next = KeyLoads { account: Some(account.deep_view()), mint: None };
                    }
                    if has_token_program && !key.invoked && !is_known_spl_token_id(&key.pubkey)
                        && is_known_spl_token_id(&account.owner) {
                        let ghost asked_account = account_loader.asked();
                        let info = SvmTokenInfo::unpack_token_account(
                            account_loader,
                            &account,
                            index,
                        );
                        proof {
                            if let Some(token) = token_account(account.data@, account.owner@) {
                                let mint_account = choose|mint_account: Option<AccountView>|
                                    account_loader.asked() == #[trigger] asked_account.push(
                                        Load { key: token.mint, reply: mint_account },
                                    ) && info.deep_view() == token_info(
                                        account.deep_view(),
                                        mint_account,
                                        index as int,
                                    );
                                next = KeyLoads {
                                    account: Some(account.deep_view()),
                                    mint: mint_account,
                                };
                            }
                            assert(info.deep_view() == token_balance(keys, index as int, next));
                        }
                        if let Some(token_info) = info {
                            token_balances.push(token_info);
                        }
                    }
                },
            }
            proof {
                loads = before.push(next);
                assert(loads.drop_last() =~= before);
                assert(account_loader.asked() =~= asked_before + asked_for_key(
                    keys,
                    index as int,
                    next,
                ));
                assert(account_loader.asked() =~= start + asked_for_balances(keys, loads));
                lemma_token_balances_push(keys, before, next);
                let lamports = match next.account {
                    Some(account) => account.lamports,
                    None => 0u64,
                };
                assert(native_balances@ =~= native_before.push(lamports));
                assert(self::native_balances(loads) =~= native_before.push(lamports));
                assert(token_balances.deep_view() =~= self::token_balances(keys, loads));
            }
            index = index + 1;
        }
        proof {
            let asked = asked_for_balances(keys, loads);
            assert(start =~= account_loader.asked().subrange(0, start.len() as int));
            assert(account_loader.asked_since(old(account_loader)) =~= asked);
            assert(balances_of_loads(
                keys,
                asked,
                native_balances@,
                token_balances.deep_view(),
                loads,
            ));
        }
        (native_balances, token_balances)
    }

    /// The datum of every account of a transaction, where the owner's inclusion takes it, and
    /// the owner. An account that does not exist, created later or closed, has neither.
    pub fn collect_datums<L: Fn(&Pubkey) -> Option<Account>>(
        &self,
        account_loader: &mut AccountLoader<L>,
        transaction: &Transaction,
        program_data_inclusions: &ProgramDatumInclusions,
        pre_or_post: &PreOrPostDatum,
    ) -> (collected: (Vec<Option<Vec<u8>>>, Vec<Option<Pubkey>>))
        requires
            old(account_loader).wf(),
            program_data_inclusions.wf(),
        ensures
            final(account_loader).continues(old(account_loader)),
            datums_collected(
                transaction.deep_view(),
                program_data_inclusions@,
                *pre_or_post,
                final(account_loader).asked_since(old(account_loader)),
                collected.0.deep_view(),
                collected.1.deep_view(),
            ),
    {
        let count: usize = transaction.account_keys.len();
        let ghost keys = transaction.deep_view();
        let ghost datum_of = |load: Load|
            datum(program_data_inclusions@, *pre_or_post, load.reply);
        let ghost owner_of = |load: Load| owner(load.reply);
        let mut datums: Vec<Option<Vec<u8>>> = Vec::new();
        let mut owners: Vec<Option<Pubkey>> = Vec::new();

        let ghost start = account_loader.asked();
        let ghost mut asked: Seq<Load> = Seq::empty();
        assert(start + asked =~= start);
        let mut index: usize = 0;
        while index < count
            invariant
                index <= count,
                count == transaction.account_keys.len(),
                keys == transaction.deep_view(),
                account_loader.wf(),
                account_loader.function() == old(account_loader).function(),
                start == old(account_loader).asked(),
                account_loader.asked() == start + asked,
                program_data_inclusions.wf(),
                datum_of == (|load: Load|
                    datum(program_data_inclusions@, *pre_or_post, load.reply)),
                owner_of == (|load: Load| owner(load.reply)),
                asked.len() == index,
                forall|j: int| 0 <= j < index ==> (#[trigger] asked[j]).key == keys[j].pubkey,
                datums.deep_view() =~= asked.map_values(datum_of),
                owners.deep_view() =~= asked.map_values(owner_of),
            decreases count - index,
        {
            let account_key = &transaction.account_keys[index].pubkey;
            let ghost datums_before = datums.deep_view();
            let ghost owners_before = owners.deep_view();
            let loaded = account_loader.load_account(account_key);
            let ghost next = Load { key: account_key@, reply: loaded.deep_view() };
            match loaded {
                None => {
                    datums.push(None);
                    owners.push(None);
                },
                Some(account) => {
                    let included = match program_data_inclusions.get(&account.owner) {
                        Some(inclusion) => inclusion.can_include_datum(
                            pre_or_post,
                            account.data.as_slice(),
                        ),
                        None => false,
                    };
                    owners.push(Some(account.owner));
                    assert(account.data.deep_view() =~= account.data@);
                    if included {
                        datums.push(Some(account.data));
                    } else {
                        datums.push(None);
                    }
                },
            }
            proof {
                assert(start + asked.push(next) =~= (start + asked).push(next));
                asked = asked.push(next);
                assert(datums.deep_view() =~= datums_before.push(datum_of(next)));
                assert(owners.deep_view() =~= owners_before.push(owner_of(next)));
            }
            index = index + 1;
        }
        assert(start =~= account_loader.asked().subrange(0, start.len() as int));
        assert(account_loader.asked_since(old(account_loader)) =~= asked);
        (datums, owners)
    }

    /// An empty collector, with room for the given number of transactions. The room in each of
    /// its lists, three words for an entry, must not exceed `isize::MAX` bytes.
    pub fn new_with_transaction_count(transaction_count: usize) -> (collector: Self)
        requires
            transaction_count * (3 * usize::BITS / 8) <= isize::MAX,
        ensures
            collector.wf(),
            collector.deep_view() == (BalanceCollectorView {
                pre: Seq::empty(),
                post: Seq::empty(),
            }),
    {
        BalanceCollector {
            native_pre: Vec::with_capacity(transaction_count),
            native_post: Vec::with_capacity(transaction_count),
            token_pre: Vec::with_capacity(transaction_count),
            token_post: Vec::with_capacity(transaction_count),
            pre_datum: Vec::with_capacity(transaction_count),
            post_datum: Vec::with_capacity(transaction_count),
            pre_owners: Vec::with_capacity(transaction_count),
            post_owners: Vec::with_capacity(transaction_count),
        }
    }

    /// Takes the collector apart: native balances, token balances, datums and owners, of each
    /// first the lists from before and then those from after the transactions ran.
    pub fn into_vecs(self) -> (vecs: (
        Vec<Vec<u64>>,
        Vec<Vec<u64>>,
        Vec<Vec<SvmTokenInfo>>,
        Vec<Vec<SvmTokenInfo>>,
        Vec<Vec<Option<Vec<u8>>>>,
        Vec<Vec<Option<Vec<u8>>>>,
        Vec<Vec<Option<Pubkey>>>,
        Vec<Vec<Option<Pubkey>>>,
    ))
        requires
            self.wf(),
        ensures
            self.deep_view().pre == records(
                vecs.0.deep_view(),
                vecs.2.deep_view(),
                vecs.4.deep_view(),
                vecs.6.deep_view(),
            ),
            self.deep_view().post == records(
                vecs.1.deep_view(),
                vecs.3.deep_view(),
                vecs.5.deep_view(),
                vecs.7.deep_view(),
            ),
            vecs.0.len() == vecs.2.len() == vecs.4.len() == vecs.6.len(),
            vecs.1.len() == vecs.3.len() == vecs.5.len() == vecs.7.len(),
    {
        (
            self.native_pre,
            self.native_post,
            self.token_pre,
            self.token_post,
            self.pre_datum,
            self.post_datum,
            self.pre_owners,
            self.post_owners,
        )
    }

    /// Whether there are balances from before and after of exactly as many transactions.
    pub fn lengths_match_expected(&self, expected_len: usize) -> (matching: bool)
        requires
            self.wf(),
        ensures
            matching == (self.deep_view().pre.len() == expected_len && self.deep_view().post.len()
                == expected_len),
    {
        self.native_pre.len() == expected_len && self.native_post.len() == expected_len
            && self.token_pre.len() == expected_len && self.token_post.len() == expected_len
    }
}

impl Default for BalanceCollector {
    /// An empty collector.
    fn default() -> (collector: Self)
        ensures
            collector.wf(),
            collector.deep_view() == (BalanceCollectorView {
                pre: Seq::empty(),
                post: Seq::empty(),
            }),
    {
        BalanceCollector::new_with_transaction_count(0)
    }
}

/// What collecting from one side makes of a collector, if there is one: a record is added.
/// `asked` is all that is asked for it, which is nothing where there is no collector.
pub open spec fn collected(
    keys: Seq<AccountKeyView>,
    inclusions: Map<Seq<u8>, DatumInclusionView>,
    pre_or_post: PreOrPostDatum,
    asked: Seq<Load>,
    before: Option<BalanceCollectorView>,
    after: Option<BalanceCollectorView>,
) -> bool {
    match before {
        Some(collector) => exists|record: TransactionRecord| #[trigger]
            record_collected(keys, inclusions, pre_or_post, asked, record) && after == Some(
                collector.with_record(pre_or_post, record),
            ),
        None => after is None && asked.len() == 0,
    }
}

/// Collecting, on a collector and on one that may be absent.
pub trait BalanceCollectionRoutines: Sized {
    /// The collector, if there is one, is well-formed.
    spec fn collector_wf(&self) -> bool;

    /// The collector, if there is one.
    spec fn collector(&self) -> Option<BalanceCollectorView>;

    /// Records a transaction that is about to run.
    fn collect_pre_balances<L: Fn(&Pubkey) -> Option<Account>>(
        &mut self,
        account_loader: &mut AccountLoader<L>,
        transaction: &Transaction,
        program_data_inclusions: &ProgramDatumInclusions,
    )
        requires
            old(self).collector_wf(),
            old(account_loader).wf(),
            program_data_inclusions.wf(),
        ensures
            final(self).collector_wf(),
            final(account_loader).continues(old(account_loader)),
            collected(
                transaction.deep_view(),
                program_data_inclusions@,
                PreOrPostDatum::PreDatum,
                final(account_loader).asked_since(old(account_loader)),
                old(self).collector(),
                final(self).collector(),
            ),
    ;

    /// Records a transaction that has run.
    fn collect_post_balances<L: Fn(&Pubkey) -> Option<Account>>(
        &mut self,
        account_loader: &mut AccountLoader<L>,
        transaction: &Transaction,
        program_data_inclusions: &ProgramDatumInclusions,
    )
        requires
            old(self).collector_wf(),
            old(account_loader).wf(),
            program_data_inclusions.wf(),
        ensures
            final(self).collector_wf(),
            final(account_loader).continues(old(account_loader)),
            collected(
                transaction.deep_view(),
                program_data_inclusions@,
                PreOrPostDatum::PostDatum,
                final(account_loader).asked_since(old(account_loader)),
                old(self).collector(),
                final(self).collector(),
            ),
    ;
}

/// What is asked for the balances and then for the datums of a transaction is what is asked for
/// its record.
proof fn lemma_record_collected<L: Fn(&Pubkey) -> Option<Account>>(
    before: &AccountLoader<L>,
    between: AccountLoader<L>,
    after: &AccountLoader<L>,
    keys: Seq<AccountKeyView>,
    inclusions: Map<Seq<u8>, DatumInclusionView>,
    pre_or_post: PreOrPostDatum,
    record: TransactionRecord,
)
    requires
        between.continues(before),
        after.continues(&between),
        balances_collected(keys, between.asked_since(before), record.native, record.tokens),
        datums_collected(
            keys,
            inclusions,
            pre_or_post,
            after.asked_since(&between),
            record.datums,
            record.owners,
        ),
    ensures
        after.continues(before),
        record_collected(keys, inclusions, pre_or_post, after.asked_since(before), record),
{
    let asked = after.asked_since(before);
    let split = asked.len() - keys.len();
    assert(before.asked() =~= after.asked().subrange(0, before.asked().len() as int));
    assert(asked.take(split) =~= between.asked_since(before));
    assert(asked.skip(split) =~= after.asked_since(&between));
}

impl BalanceCollectionRoutines for BalanceCollector {
    open spec fn collector_wf(&self) -> bool {
        self.wf()
    }

    open spec fn collector(&self) -> Option<BalanceCollectorView> {
        Some(self.deep_view())
    }

    fn collect_pre_balances<L: Fn(&Pubkey) -> Option<Account>>(
        &mut self,
        account_loader: &mut AccountLoader<L>,
        transaction: &Transaction,
        program_data_inclusions: &ProgramDatumInclusions,
    ) {
        let ghost before = self.deep_view();
        let (native_balances, token_balances) = self.collect_balances(
            account_loader,
            transaction,
        );
        let ghost between = *account_loader;
        let ghost native = native_balances@;
        assert(native_balances.deep_view() =~= native);
        let ghost tokens = token_balances.deep_view();
        self.native_pre.push(native_balances);
        self.token_pre.push(token_balances);

        let (pre_datum, pre_owner) = self.collect_datums(
            account_loader,
            transaction,
            program_data_inclusions,
            &PreOrPostDatum::PreDatum,
        );
        let ghost record = TransactionRecord {
            native,
            tokens,
            datums: pre_datum.deep_view(),
            owners: pre_owner.deep_view(),
        };
        self.pre_datum.push(pre_datum);
        self.pre_owners.push(pre_owner);
        proof {
            lemma_record_collected(
                old(account_loader),
                between,
                account_loader,
                transaction.deep_view(),
                program_data_inclusions@,
                PreOrPostDatum::PreDatum,
                record,
            );
        }
        assert(self.deep_view() =~= before.with_record(PreOrPostDatum::PreDatum, record));
    }

    fn collect_post_balances<L: Fn(&Pubkey) -> Option<Account>>(
        &mut self,
        account_loader: &mut AccountLoader<L>,
        transaction: &Transaction,
        program_data_inclusions: &ProgramDatumInclusions,
    ) {
        let ghost before = self.deep_view();
        let (native_balances, token_balances) = self.collect_balances(
            account_loader,
            transaction,
        );
        let ghost between = *account_loader;
        let ghost native = native_balances@;
        assert(native_balances.deep_view() =~= native);
        let ghost tokens = token_balances.deep_view();
        self.native_post.push(native_balances);
        self.token_post.push(token_balances);

        let (post_datum, post_owner) = self.collect_datums(
            account_loader,
            transaction,
            program_data_inclusions,
            &PreOrPostDatum::PostDatum,
        );
        let ghost record = TransactionRecord {
            native,
            tokens,
            datums: post_datum.deep_view(),
            owners: post_owner.deep_view(),
        };
        self.post_datum.push(post_datum);
        self.post_owners.push(post_owner);
        proof {
            lemma_record_collected(
                old(account_loader),
                between,
                account_loader,
                transaction.deep_view(),
                program_data_inclusions@,
                PreOrPostDatum::PostDatum,
                record,
            );
        }
        assert(self.deep_view() =~= before.with_record(PreOrPostDatum::PostDatum, record));
    }
}

impl BalanceCollectionRoutines for Option<BalanceCollector> {
    open spec fn collector_wf(&self) -> bool {
        self matches Some(inner) ==> inner.wf()
    }

    open spec fn collector(&self) -> Option<BalanceCollectorView> {
        self.deep_view()
    }

    fn collect_pre_balances<L: Fn(&Pubkey) -> Option<Account>>(
        &mut self,
        account_loader: &mut AccountLoader<L>,
        transaction: &Transaction,
        program_data_inclusions: &ProgramDatumInclusions,
    ) {
        if let Some(inner) = self {
            inner.collect_pre_balances(account_loader, transaction, program_data_inclusions)
        }
    }

    fn collect_post_balances<L: Fn(&Pubkey) -> Option<Account>>(
        &mut self,
        account_loader: &mut AccountLoader<L>,
        transaction: &Transaction,
        program_data_inclusions: &ProgramDatumInclusions,
    ) {
        if let Some(inner) = self {
            inner.collect_post_balances(account_loader, transaction, program_data_inclusions)
        }
    }
}

} // verus!
