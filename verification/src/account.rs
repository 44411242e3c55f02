//! Accounts as they are loaded for a transaction.

use crate::pubkey::Pubkey;
use vstd::prelude::*;

verus! {

/// What is read of an account.
#[derive(Debug)]
pub struct Account {
    /// The native balance.
    pub lamports: u64,
    /// The program that owns the account.
    pub owner: Pubkey,
    pub data: Vec<u8>,
}

/// The model of an [`Account`].
#[verifier::ext_equal]
pub struct AccountView {
    pub lamports: u64,
    pub owner: Seq<u8>,
    pub data: Seq<u8>,
}

impl DeepView for Account {
    type V = AccountView;

    open spec fn deep_view(&self) -> AccountView {
        AccountView { lamports: self.lamports, owner: self.owner@, data: self.data@ }
    }
}

impl Clone for Account {
    fn clone(&self) -> (copy: Self)
        ensures
            copy.deep_view() == self.deep_view(),
    {
        let data = self.data.clone();
        assert(data@ =~= self.data@);
        Account { lamports: self.lamports, owner: self.owner, data }
    }
}

/// One of a transaction's account keys.
#[derive(Clone, Copy, Debug)]
pub struct AccountKey {
    pub pubkey: Pubkey,
    /// Whether a top-level instruction of the transaction invokes this account as a program.
    pub invoked: bool,
}

/// The model of an [`AccountKey`].
#[verifier::ext_equal]
pub struct AccountKeyView {
    pub pubkey: Seq<u8>,
    pub invoked: bool,
}

impl DeepView for AccountKey {
    type V = AccountKeyView;

    open spec fn deep_view(&self) -> AccountKeyView {
        AccountKeyView { pubkey: self.pubkey@, invoked: self.invoked }
    }
}

/// What is read of a transaction: its account keys, in order.
#[derive(Debug)]
pub struct Transaction {
    pub account_keys: Vec<AccountKey>,
}

impl DeepView for Transaction {
    type V = Seq<AccountKeyView>;

    open spec fn deep_view(&self) -> Seq<AccountKeyView> {
        self.account_keys.deep_view()
    }
}

/// `load` can be asked for any key.
pub open spec fn loads_any_key<L: Fn(&Pubkey) -> Option<Account>>(load: &L) -> bool {
    forall|key: &Pubkey| #[trigger] call_requires(load, (key,))
}

/// `reply` is what `load` may answer when it is asked for `key`.
pub open spec fn answers<L: Fn(&Pubkey) -> Option<Account>>(
    load: &L,
    key: Seq<u8>,
    reply: Option<AccountView>,
) -> bool {
    exists|asked: &Pubkey, loaded: Option<Account>|
        asked@ == key && loaded.deep_view() == reply && #[trigger] call_ensures(
            load,
            (asked,),
            loaded,
        )
}

/// `load` answers each key with what `accounts` holds there.
pub open spec fn loads_from<L: Fn(&Pubkey) -> Option<Account>>(
    load: &L,
    accounts: Map<Seq<u8>, AccountView>,
) -> bool {
    forall|asked: &Pubkey, loaded: Option<Account>| #[trigger]
        call_ensures(load, (asked,), loaded) ==> loaded.deep_view() == lookup(accounts, asked@)
}

/// What `accounts` holds at `key`.
pub open spec fn lookup(accounts: Map<Seq<u8>, AccountView>, key: Seq<u8>) -> Option<AccountView> {
    if accounts.contains_key(key) {
        Some(accounts[key])
    } else {
        None
    }
}

/// A key that was asked for, and the answer.
#[verifier::ext_equal]
pub struct Load {
    pub key: Seq<u8>,
    pub reply: Option<AccountView>,
}

/// Loads accounts through a function. It keeps account of what the function was asked, which
/// only [`AccountLoader::load_account`] does.
pub struct AccountLoader<L> {
    load: L,
    asked: Ghost<Seq<Load>>,
}

impl<L: Fn(&Pubkey) -> Option<Account>> AccountLoader<L> {
    /// The function that accounts are loaded through.
    pub closed spec fn function(&self) -> L {
        self.load
    }

    /// What the function was asked, in order, and what it answered.
    pub closed spec fn asked(&self) -> Seq<Load> {
        self.asked@
    }

    /// The function can be asked for any key, and what it was asked it has answered.
    pub open spec fn wf(&self) -> bool {
        &&& loads_any_key(&self.function())
        &&& forall|i: int|
            0 <= i < self.asked().len() ==> answers(
                &self.function(),
                (#[trigger] self.asked()[i]).key,
                self.asked()[i].reply,
            )
    }

    /// `earlier` became this one by asking the same function for more.
    pub open spec fn continues(&self, earlier: &Self) -> bool {
        &&& self.wf()
        &&& self.function() == earlier.function()
        &&& earlier.asked().is_prefix_of(self.asked())
    }

    /// What was asked since `earlier`.
    pub open spec fn asked_since(&self, earlier: &Self) -> Seq<Load> {
        self.asked().skip(earlier.asked().len() as int)
    }

    /// A loader that has not been asked for anything.
    pub fn new(load: L) -> (loader: Self)
        requires
            loads_any_key(&load),
        ensures
            loader.wf(),
            loader.function() == load,
            loader.asked() == Seq::<Load>::empty(),
    {
        AccountLoader { load, asked: Ghost(Seq::empty()) }
    }

    /// Asks for one key, once.
    pub fn load_account(&mut self, key: &Pubkey) -> (loaded: Option<Account>)
        requires
            old(self).wf(),
        ensures
            final(self).wf(),
            final(self).function() == old(self).function(),
            final(self).asked() == old(self).asked().push(
                Load { key: key@, reply: loaded.deep_view() },
            ),
    {
        let load = &self.load;
        let loaded = load(key);
        assert(answers(&self.load, key@, loaded.deep_view()));
        self.asked = Ghost(self.asked@.push(Load { key: key@, reply: loaded.deep_view() }));
        loaded
    }
}

/// All answers are what `accounts` holds.
pub open spec fn answered_from(asked: Seq<Load>, accounts: Map<Seq<u8>, AccountView>) -> bool {
    forall|i: int|
        0 <= i < asked.len() ==> (#[trigger] asked[i]).reply == lookup(accounts, asked[i].key)
}

/// Where the function of a loader answers from given accounts, so do all answers that the loader
/// got.
pub proof fn loader_answers_from_its_accounts<L: Fn(&Pubkey) -> Option<Account>>(
    earlier: &AccountLoader<L>,
    loader: &AccountLoader<L>,
    accounts: Map<Seq<u8>, AccountView>,
)
    requires
        loader.continues(earlier),
        loads_from(&loader.function(), accounts),
    ensures
        answered_from(loader.asked(), accounts),
        answered_from(loader.asked_since(earlier), accounts),
{
    assert forall|i: int| 0 <= i < loader.asked().len() implies (
    #[trigger] loader.asked()[i]).reply == lookup(accounts, loader.asked()[i].key) by {
        assert(answers(&loader.function(), loader.asked()[i].key, loader.asked()[i].reply));
    }
    let since = loader.asked_since(earlier);
    assert forall|i: int| 0 <= i < since.len() implies (#[trigger] since[i]).reply == lookup(
        accounts,
        since[i].key,
    ) by {
        assert(since[i] == loader.asked()[earlier.asked().len() + i]);
    }
}

/// The model of an account is all that is read of it.
pub proof fn account_models_are_faithful(account: Account, key: AccountKey)
    ensures
        account.deep_view().lamports == account.lamports,
        account.deep_view().owner == account.owner.bytes@,
        account.deep_view().data == account.data@,
        key.deep_view().pubkey == key.pubkey.bytes@,
        key.deep_view().invoked == key.invoked,
{
}

/// The model of a transaction has its account keys, all of them and in order.
pub proof fn transaction_models_are_faithful(transaction: Transaction)
    ensures
        transaction.deep_view().len() == transaction.account_keys@.len(),
        forall|i: int|
            0 <= i < transaction.account_keys@.len() ==> {
                &&& (#[trigger] transaction.deep_view()[i]).pubkey
                    == transaction.account_keys@[i].pubkey.bytes@
                &&& transaction.deep_view()[i].invoked == transaction.account_keys@[i].invoked
            },
{
}

/// Each answer that a loader got is one that its function gave when it was asked for that key,
/// unchanged.
pub proof fn answers_are_those_of_the_function<L: Fn(&Pubkey) -> Option<Account>>(
    loader: &AccountLoader<L>,
    i: int,
)
    requires
        loader.wf(),
        0 <= i < loader.asked().len(),
    ensures
        exists|asked: &Pubkey, loaded: Option<Account>| #[trigger]
            call_ensures(&loader.function(), (asked,), loaded) && asked.bytes@
                == loader.asked()[i].key && match loaded {
                Some(account) => loader.asked()[i].reply matches Some(reply) && reply.lamports
                    == account.lamports && reply.owner == account.owner.bytes@ && reply.data
                    == account.data@,
                None => loader.asked()[i].reply is None,
            },
{
    let load = loader.asked()[i];
    assert(answers(&loader.function(), load.key, load.reply));
    let (asked, loaded) = choose|asked: &Pubkey, loaded: Option<Account>|
        asked@ == load.key && loaded.deep_view() == load.reply && #[trigger] call_ensures(
            &loader.function(),
            (asked,),
            loaded,
        );
    assert(call_ensures(&loader.function(), (asked,), loaded));
}

/// What a loader was asked is what it had been asked earlier and what it was asked since.
pub proof fn asked_is_what_was_asked_earlier_and_since<L: Fn(&Pubkey) -> Option<Account>>(
    earlier: &AccountLoader<L>,
    loader: &AccountLoader<L>,
)
    requires
        loader.continues(earlier),
    ensures
        loader.wf(),
        loader.function() == earlier.function(),
        loader.asked() == earlier.asked() + loader.asked_since(earlier),
{
    assert(loader.asked() =~= earlier.asked() + loader.asked_since(earlier));
}

/// Answers from given accounts are the account where there is one, and none where there is none.
pub proof fn answers_from_accounts(
    asked: Seq<Load>,
    accounts: Map<Seq<u8>, AccountView>,
)
    ensures
        answered_from(asked, accounts) <==> (forall|i: int|
            0 <= i < asked.len() ==> match (#[trigger] asked[i]).reply {
                Some(account) => accounts.contains_key(asked[i].key) && accounts[asked[i].key]
                    == account,
                None => !accounts.contains_key(asked[i].key),
            }),
{
}

} // verus!
