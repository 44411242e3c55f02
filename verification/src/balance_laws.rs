//! What holds of everything that a collector records.

use crate::account::{answered_from, lookup, AccountKeyView, AccountView, Load};
use crate::datum_inclusion::{DatumInclusionView, PreOrPostDatum};
use crate::spl_token::{is_mint, is_token_account, known_spl_token_id, le_u64, TokenAccountView};
use crate::transaction_balances::{
    asked_for_balances, asked_for_key, balance_with_mint, balances_collected, balances_of_loads,
    collected, datum, datums_collected, has_token_program, lemma_token_balances_push,
    may_hold_tokens, native_balances, owner, record_collected, records, token_balance,
    token_balances, token_info, wanted_mint, BalanceCollectionRoutines, BalanceCollector,
    BalanceCollectorView, KeyLoads, SvmTokenInfo, SvmTokenInfoView, TransactionRecord,
};
use vstd::prelude::*;

verus! {

/// What is loaded from `accounts` on account of each key.
pub open spec fn loads_in(
    accounts: Map<Seq<u8>, AccountView>,
    keys: Seq<AccountKeyView>,
) -> Seq<KeyLoads> {
    Seq::new(
        keys.len(),
        |i: int|
            {
                let account = lookup(accounts, keys[i].pubkey);
                KeyLoads {
                    account,
                    mint: match wanted_mint(keys, i, account) {
                        Some(wanted) => lookup(accounts, wanted),
                        None => None,
                    },
                }
            },
    )
}

/// Where all answers are those of given accounts, so is what was loaded on account of each key.
proof fn lemma_loads_in(
    accounts: Map<Seq<u8>, AccountView>,
    keys: Seq<AccountKeyView>,
    loads: Seq<KeyLoads>,
)
    requires
        loads.len() <= keys.len(),
        answered_from(asked_for_balances(keys, loads), accounts),
    ensures
        forall|i: int|
            0 <= i < loads.len() ==> {
                &&& (#[trigger] loads[i]).account == loads_in(accounts, keys)[i].account
                &&& wanted_mint(keys, i, loads[i].account) is Some ==> loads[i].mint == loads_in(
                    accounts,
                    keys,
                )[i].mint
            },
    decreases loads.len(),
{
    if loads.len() > 0 {
        let index = loads.len() - 1;
        let earlier = asked_for_balances(keys, loads.drop_last());
        let here = asked_for_key(keys, index, loads.last());
        let asked = asked_for_balances(keys, loads);
        assert forall|i: int| 0 <= i < earlier.len() implies (#[trigger] earlier[i]).reply
            == lookup(accounts, earlier[i].key) by {
            assert(asked[i] == earlier[i]);
        }
        lemma_loads_in(accounts, keys, loads.drop_last());
        assert(asked[earlier.len() as int] == here[0]);
        if wanted_mint(keys, index, loads.last().account) is Some {
            assert(asked[earlier.len() as int + 1] == here[1]);
        }
        assert forall|i: int| 0 <= i < loads.len() implies {
            &&& (#[trigger] loads[i]).account == loads_in(accounts, keys)[i].account
            &&& wanted_mint(keys, i, loads[i].account) is Some ==> loads[i].mint == loads_in(
                accounts,
                keys,
            )[i].mint
        } by {
            if i < index {
                assert(loads.drop_last()[i] == loads[i]);
            }
        }
    }
}

/// Where all answers are those of given accounts, these alone decide the balances.
pub proof fn balances_are_those_of_the_accounts(
    accounts: Map<Seq<u8>, AccountView>,
    keys: Seq<AccountKeyView>,
    asked: Seq<Load>,
    native: Seq<u64>,
    tokens: Seq<SvmTokenInfoView>,
)
    requires
        answered_from(asked, accounts),
        balances_collected(keys, asked, native, tokens),
    ensures
        native == native_balances(loads_in(accounts, keys)),
        tokens == token_balances(keys, loads_in(accounts, keys)),
{
    let expected = loads_in(accounts, keys);
    let loads = choose|loads: Seq<KeyLoads>|
        balances_of_loads(keys, asked, native, tokens, loads);
    lemma_loads_in(accounts, keys, loads);
    assert forall|i: int| 0 <= i < keys.len() implies token_balance(
        keys,
        i,
        #[trigger] loads[i],
    ) == token_balance(keys, i, expected[i]) by {}
    assert(native_balances(loads) =~= native_balances(expected));
    assert(Seq::new(loads.len(), |i: int| token_balance(keys, i, loads[i])) =~= Seq::new(
        expected.len(),
        |i: int| token_balance(keys, i, expected[i]),
    ));
}

/// Where all answers are those of given accounts, these alone decide the datums and owners.
pub proof fn datums_are_those_of_the_accounts(
    accounts: Map<Seq<u8>, AccountView>,
    keys: Seq<AccountKeyView>,
    inclusions: Map<Seq<u8>, DatumInclusionView>,
    pre_or_post: PreOrPostDatum,
    asked: Seq<Load>,
    datums: Seq<Option<Seq<u8>>>,
    owners: Seq<Option<Seq<u8>>>,
)
    requires
        answered_from(asked, accounts),
        datums_collected(keys, inclusions, pre_or_post, asked, datums, owners),
    ensures
        datums == Seq::new(
            keys.len(),
            |i: int| datum(inclusions, pre_or_post, lookup(accounts, keys[i].pubkey)),
        ),
        owners == Seq::new(keys.len(), |i: int| owner(lookup(accounts, keys[i].pubkey))),
{
    assert forall|i: int| 0 <= i < keys.len() implies (#[trigger] asked[i]).reply == lookup(
        accounts,
        keys[i].pubkey,
    ) by {
        assert(asked[i].key == keys[i].pubkey);
    }
}

/// A record has one native balance, one datum and one owner for each account key, if only an
/// empty one.
pub proof fn record_has_an_entry_for_each_key(
    keys: Seq<AccountKeyView>,
    inclusions: Map<Seq<u8>, DatumInclusionView>,
    pre_or_post: PreOrPostDatum,
    asked: Seq<Load>,
    record: TransactionRecord,
)
    requires
        record_collected(keys, inclusions, pre_or_post, asked, record),
    ensures
        record.native.len() == keys.len(),
        record.datums.len() == keys.len(),
        record.owners.len() == keys.len(),
        record.tokens.len() <= keys.len(),
{
    let for_balances = asked.take(asked.len() - keys.len());
    let loads = choose|loads: Seq<KeyLoads>|
        balances_of_loads(keys, for_balances, record.native, record.tokens, loads);
    lemma_token_balances(keys, loads);
}

/// `tokens` are listed by ascending account index.
pub open spec fn ascending(tokens: Seq<SvmTokenInfoView>) -> bool {
    forall|i: int, j: int|
        0 <= i < j < tokens.len() ==> (#[trigger] tokens[i]).account_index < (
        #[trigger] tokens[j]).account_index
}

/// The token balances are those of the accounts that have one, each at its index, ascending.
pub proof fn lemma_token_balances(keys: Seq<AccountKeyView>, loads: Seq<KeyLoads>)
    ensures
        token_balances(keys, loads).len() <= loads.len(),
        ascending(token_balances(keys, loads)),
        forall|i: int|
            0 <= i < token_balances(keys, loads).len() ==> {
                let index = (#[trigger] token_balances(keys, loads)[i]).account_index;
                &&& 0 <= index < loads.len()
                &&& token_balance(keys, index, loads[index]) == Some(
                    token_balances(keys, loads)[i],
                )
            },
        forall|index: int|
            0 <= index < loads.len() ==> (token_balance(
                keys,
                index,
                #[trigger] loads[index],
            ) matches Some(balance) ==> token_balances(keys, loads).contains(balance)),
    decreases loads.len(),
{
    let tokens = token_balances(keys, loads);
    if loads.len() > 0 {
        let earlier = loads.drop_last();
        let before = token_balances(keys, earlier);
        lemma_token_balances(keys, earlier);
        lemma_token_balances_push(keys, earlier, loads.last());
        assert(earlier.push(loads.last()) =~= loads);
        assert forall|i: int| 0 <= i < tokens.len() implies {
            let index = (#[trigger] tokens[i]).account_index;
            &&& 0 <= index < loads.len()
            &&& token_balance(keys, index, loads[index]) == Some(tokens[i])
        } by {
            if i < before.len() {
                assert(tokens[i] == before[i]);
                assert(earlier[before[i].account_index] == loads[before[i].account_index]);
            }
        }
        assert forall|i: int, j: int| 0 <= i < j < tokens.len() implies (
        #[trigger] tokens[i]).account_index < (#[trigger] tokens[j]).account_index by {
            assert(tokens[i] == before[i]);
            if j < before.len() {
                assert(tokens[j] == before[j]);
            }
        }
        assert forall|index: int|
            0 <= index < loads.len() && token_balance(
                keys,
                index,
                #[trigger] loads[index],
            ) is Some implies tokens.contains(token_balance(keys, index, loads[index])->0) by {
            if index < earlier.len() {
                assert(earlier[index] == loads[index]);
                let balance = token_balance(keys, index, loads[index])->0;
                assert(before.contains(balance));
                let at = choose|at: int| 0 <= at < before.len() && before[at] == balance;
                assert(tokens[at] == balance);
            } else {
                assert(tokens[tokens.len() - 1] == token_balance(keys, index, loads[index])->0);
            }
        }
    } else {
        assert(tokens =~= Seq::empty());
    }
}

/// Token balances are listed by ascending account index. Each is that of the account at its index,
/// one of the first 256, which is neither invoked nor a token program but owned by one.
pub proof fn token_balances_are_of_token_accounts(
    keys: Seq<AccountKeyView>,
    asked: Seq<Load>,
    native: Seq<u64>,
    tokens: Seq<SvmTokenInfoView>,
    loads: Seq<KeyLoads>,
)
    requires
        balances_of_loads(keys, asked, native, tokens, loads),
    ensures
        ascending(tokens),
        forall|i: int|
            0 <= i < tokens.len() ==> {
                let index = (#[trigger] tokens[i]).account_index;
                &&& 0 <= index < keys.len()
                &&& index <= u8::MAX
                &&& token_balance(keys, index, loads[index]) == Some(tokens[i])
                &&& !keys[index].invoked
                &&& !known_spl_token_id(keys[index].pubkey)
                &&& known_spl_token_id(tokens[i].program_id)
                &&& loads[index].account matches Some(account) && account.owner
                    == tokens[i].program_id
            },
{
    lemma_token_balances(keys, loads);
}

/// Every account with a token balance has it listed.
pub proof fn token_balances_leave_none_out(
    keys: Seq<AccountKeyView>,
    loads: Seq<KeyLoads>,
    index: int,
)
    requires
        0 <= index < loads.len(),
    ensures
        token_balance(keys, index, loads[index]) matches Some(balance) ==> token_balances(
            keys,
            loads,
        ).contains(balance),
{
    lemma_token_balances(keys, loads);
}

/// Where no token program takes part, each account key is asked for once and in order, and
/// nothing else is.
proof fn lemma_only_keys_asked(keys: Seq<AccountKeyView>, loads: Seq<KeyLoads>)
    requires
        loads.len() <= keys.len(),
        !has_token_program(keys),
    ensures
        asked_for_balances(keys, loads).len() == loads.len(),
        forall|i: int|
            0 <= i < loads.len() ==> (#[trigger] asked_for_balances(keys, loads)[i]).key
                == keys[i].pubkey,
    decreases loads.len(),
{
    if loads.len() > 0 {
        let earlier = asked_for_balances(keys, loads.drop_last());
        lemma_only_keys_asked(keys, loads.drop_last());
        assert(wanted_mint(keys, loads.len() - 1, loads.last().account) is None);
        assert forall|i: int| 0 <= i < loads.len() implies (
        #[trigger] asked_for_balances(keys, loads)[i]).key == keys[i].pubkey by {
            if i < earlier.len() {
                assert(asked_for_balances(keys, loads)[i] == earlier[i]);
            }
        }
    }
}

/// Where no token program takes part in a transaction, it has no token balances, and the loader
/// is asked for the account keys alone, each once and in order, never for a mint.
pub proof fn no_token_program_no_token_balances(
    keys: Seq<AccountKeyView>,
    asked: Seq<Load>,
    native: Seq<u64>,
    tokens: Seq<SvmTokenInfoView>,
)
    requires
        balances_collected(keys, asked, native, tokens),
        !has_token_program(keys),
    ensures
        tokens.len() == 0,
        native.len() == keys.len(),
        asked.len() == keys.len(),
        forall|i: int| 0 <= i < asked.len() ==> (#[trigger] asked[i]).key == keys[i].pubkey,
{
    let loads = choose|loads: Seq<KeyLoads>|
        balances_of_loads(keys, asked, native, tokens, loads);
    lemma_token_balances(keys, loads);
    lemma_only_keys_asked(keys, loads);
    if tokens.len() > 0 {
        assert(token_balance(keys, tokens[0].account_index, loads[tokens[0].account_index])
            == Some(tokens[0]));
    }
}

/// How much was asked before what is asked on account of the key at `index`.
pub open spec fn asked_before(keys: Seq<AccountKeyView>, loads: Seq<KeyLoads>, index: int) -> int {
    asked_for_balances(keys, loads.take(index)).len() as int
}

/// The loader is asked for each account key once, in order, and between one key and the next at
/// most once more: for the mint that is wanted on account of the first.
pub proof fn keys_are_asked_for_in_order(
    keys: Seq<AccountKeyView>,
    asked: Seq<Load>,
    native: Seq<u64>,
    tokens: Seq<SvmTokenInfoView>,
    loads: Seq<KeyLoads>,
    index: int,
)
    requires
        balances_of_loads(keys, asked, native, tokens, loads),
        0 <= index < keys.len(),
    ensures
        asked_before(keys, loads, 0) == 0,
        asked_before(keys, loads, keys.len() as int) == asked.len(),
        0 <= asked_before(keys, loads, index) < asked.len(),
        asked[asked_before(keys, loads, index)] == (Load {
            key: keys[index].pubkey,
            reply: loads[index].account,
        }),
        match wanted_mint(keys, index, loads[index].account) {
            Some(wanted) => {
                &&& asked_before(keys, loads, index + 1) == asked_before(keys, loads, index) + 2
                &&& asked[asked_before(keys, loads, index) + 1] == (Load {
                    key: wanted,
                    reply: loads[index].mint,
                })
            },
            None => asked_before(keys, loads, index + 1) == asked_before(keys, loads, index) + 1,
        },
{
    assert(loads.take(keys.len() as int) =~= loads);
    lemma_asked_up_to(keys, loads, index + 1);
    let upto = asked_for_balances(keys, loads.take(index + 1));
    let before = asked_for_balances(keys, loads.take(index));
    let here = asked_for_key(keys, index, loads[index]);
    assert(loads.take(index + 1).drop_last() =~= loads.take(index));
    assert(upto == before + here);
    assert(upto[before.len() as int] == here[0]);
    assert(asked[before.len() as int] == upto[before.len() as int]);
    if wanted_mint(keys, index, loads[index].account) is Some {
        assert(upto[before.len() as int + 1] == here[1]);
        assert(asked[before.len() as int + 1] == upto[before.len() as int + 1]);
    }
}

/// What is asked on account of the first keys is asked first.
proof fn lemma_asked_up_to(keys: Seq<AccountKeyView>, loads: Seq<KeyLoads>, count: int)
    requires
        0 <= count <= loads.len(),
    ensures
        asked_for_balances(keys, loads.take(count)).is_prefix_of(asked_for_balances(keys, loads)),
    decreases loads.len(),
{
    if count == loads.len() {
        assert(loads.take(count) =~= loads);
    } else {
        let earlier = loads.drop_last();
        lemma_asked_up_to(keys, earlier, count);
        assert(earlier.take(count) =~= loads.take(count));
        let first = asked_for_balances(keys, loads.take(count));
        let all = asked_for_balances(keys, loads);
        assert(all.subrange(0, first.len() as int) =~= asked_for_balances(
            keys,
            earlier,
        ).subrange(0, first.len() as int));
    }
}

/// A datum is recorded only with its owner, and only where the owner's inclusion takes a datum of
/// its length from that side.
pub proof fn recorded_datums_are_included(
    keys: Seq<AccountKeyView>,
    inclusions: Map<Seq<u8>, DatumInclusionView>,
    pre_or_post: PreOrPostDatum,
    asked: Seq<Load>,
    datums: Seq<Option<Seq<u8>>>,
    owners: Seq<Option<Seq<u8>>>,
)
    requires
        datums_collected(keys, inclusions, pre_or_post, asked, datums, owners),
    ensures
        datums.len() == owners.len(),
        forall|i: int|
            0 <= i < datums.len() ==> ((#[trigger] datums[i]) matches Some(recorded) ==> {
                &&& owners[i] is Some
                &&& inclusions.contains_key(owners[i]->0)
                &&& inclusions[owners[i]->0].includes(pre_or_post, recorded.len())
            }),
{
}

/// Where no program has an inclusion for a side, no datum is recorded from that side.
pub proof fn side_without_inclusions_records_nothing(
    keys: Seq<AccountKeyView>,
    inclusions: Map<Seq<u8>, DatumInclusionView>,
    pre_or_post: PreOrPostDatum,
    asked: Seq<Load>,
    datums: Seq<Option<Seq<u8>>>,
    owners: Seq<Option<Seq<u8>>>,
)
    requires
        datums_collected(keys, inclusions, pre_or_post, asked, datums, owners),
        forall|program: Seq<u8>| #[trigger]
            inclusions.contains_key(program) ==> match pre_or_post {
                PreOrPostDatum::PreDatum => !inclusions[program].pre,
                PreOrPostDatum::PostDatum => !inclusions[program].post,
            },
    ensures
        forall|i: int| 0 <= i < datums.len() ==> (#[trigger] datums[i]) is None,
{
}

/// The collector after records were added, one after the other.
pub open spec fn with_records(
    initial: BalanceCollectorView,
    added: Seq<(PreOrPostDatum, TransactionRecord)>,
) -> BalanceCollectorView
    decreases added.len(),
{
    if added.len() == 0 {
        initial
    } else {
        with_records(initial, added.drop_last()).with_record(added.last().0, added.last().1)
    }
}

/// The records among `added` that are of one side.
pub open spec fn records_of_side(
    added: Seq<(PreOrPostDatum, TransactionRecord)>,
    pre_or_post: PreOrPostDatum,
) -> Seq<TransactionRecord> {
    added.filter_map(
        |entry: (PreOrPostDatum, TransactionRecord)|
            if entry.0 == pre_or_post {
                Some(entry.1)
            } else {
                None
            },
    )
}

/// In whatever order the two sides of the transactions of a batch are collected, each side holds
/// its records in the order in which they were added, one for each time it was collected.
pub proof fn each_side_keeps_its_records(
    initial: BalanceCollectorView,
    added: Seq<(PreOrPostDatum, TransactionRecord)>,
)
    ensures
        with_records(initial, added).pre == initial.pre + records_of_side(
            added,
            PreOrPostDatum::PreDatum,
        ),
        with_records(initial, added).post == initial.post + records_of_side(
            added,
            PreOrPostDatum::PostDatum,
        ),
        with_records(initial, added).pre.len() == initial.pre.len() + records_of_side(
            added,
            PreOrPostDatum::PreDatum,
        ).len(),
        with_records(initial, added).post.len() == initial.post.len() + records_of_side(
            added,
            PreOrPostDatum::PostDatum,
        ).len(),
    decreases added.len(),
{
    if added.len() > 0 {
        each_side_keeps_its_records(initial, added.drop_last());
    }
    reveal_with_fuel(Seq::filter_map, 2);
    assert(with_records(initial, added).pre =~= initial.pre + records_of_side(
        added,
        PreOrPostDatum::PreDatum,
    ));
    assert(with_records(initial, added).post =~= initial.post + records_of_side(
        added,
        PreOrPostDatum::PostDatum,
    ));
}

/// The model of a token balance is faithful.
pub proof fn token_info_models_are_faithful(info: SvmTokenInfo)
    ensures
        info.deep_view().account_index == info.account_index,
        info.deep_view().mint == info.mint.bytes@,
        info.deep_view().amount == info.amount,
        info.deep_view().owner == info.owner.bytes@,
        info.deep_view().program_id == info.program_id.bytes@,
        info.deep_view().decimals == info.decimals,
{
}

/// Whatever a token account holds, it has a balance exactly if its mint was loaded, belongs to
/// the same program and is an initialized mint, and the index fits in a byte. The balance repeats
/// the account's mint, holder and amount, and has the decimals of the mint.
pub proof fn loaded_mint_decides_the_balance(
    token: TokenAccountView,
    program_id: Seq<u8>,
    mint_account: Option<AccountView>,
    index: int,
)
    ensures
        balance_with_mint(token, program_id, mint_account, index) is Some <==> {
            &&& mint_account matches Some(minted)
            &&& minted.owner == program_id
            &&& is_mint(minted.data, program_id)
            &&& index <= 255
        },
        balance_with_mint(token, program_id, mint_account, index) matches Some(info) ==> {
            &&& info.account_index == index
            &&& info.mint == token.mint
            &&& info.amount == token.amount
            &&& info.owner == token.owner
            &&& info.program_id == program_id
            &&& info.decimals == mint_account->0.data[44]
        },
{
}

/// An account has a token balance exactly if its data is an initialized token account, its mint
/// was loaded, belongs to the same program and is an initialized mint, and the index fits in a
/// byte. The balance stands in the data of the two.
pub proof fn account_and_mint_data_give_the_balance(
    account: AccountView,
    mint_account: Option<AccountView>,
    index: int,
)
    ensures
        token_info(account, mint_account, index) is Some <==> {
            &&& is_token_account(account.data, account.owner)
            &&& mint_account matches Some(minted)
            &&& minted.owner == account.owner
            &&& is_mint(minted.data, account.owner)
            &&& index <= 255
        },
        token_info(account, mint_account, index) matches Some(info) ==> {
            &&& info.account_index == index
            &&& info.mint == account.data.subrange(0, 32)
            &&& info.amount == le_u64(account.data, 64)
            &&& info.owner == account.data.subrange(32, 64)
            &&& info.program_id == account.owner
            &&& info.decimals == mint_account->0.data[44]
        },
{
}

/// The accounts that are looked at for a token balance, and the mint that is asked for: wherever
/// one of the keys is a token program, of every account that is owned by one, is not one itself
/// and is not invoked, and whose data is an initialized token account, the mint it names.
pub proof fn mints_of_token_accounts_are_wanted(
    keys: Seq<AccountKeyView>,
    index: int,
    account: AccountView,
)
    ensures
        has_token_program(keys) <==> exists|i: int|
            0 <= i < keys.len() && known_spl_token_id(#[trigger] keys[i].pubkey),
        may_hold_tokens(keys, index, account) <==> {
            &&& has_token_program(keys)
            &&& !keys[index].invoked
            &&& !known_spl_token_id(keys[index].pubkey)
            &&& known_spl_token_id(account.owner)
        },
        wanted_mint(keys, index, None) is None,
        wanted_mint(keys, index, Some(account)) is Some <==> {
            &&& has_token_program(keys)
            &&& !keys[index].invoked
            &&& !known_spl_token_id(keys[index].pubkey)
            &&& is_token_account(account.data, account.owner)
        },
        wanted_mint(keys, index, Some(account)) matches Some(wanted) ==> wanted
            == account.data.subrange(0, 32),
{
}

/// There is one native balance for each key: the lamports of the account that was loaded for it,
/// all of them, or zero where there is no account.
pub proof fn native_balances_are_the_lamports(
    keys: Seq<AccountKeyView>,
    asked: Seq<Load>,
    native: Seq<u64>,
    tokens: Seq<SvmTokenInfoView>,
    loads: Seq<KeyLoads>,
)
    requires
        balances_of_loads(keys, asked, native, tokens, loads),
    ensures
        native.len() == keys.len(),
        loads.len() == keys.len(),
        forall|i: int|
            0 <= i < keys.len() ==> #[trigger] native[i] == match loads[i].account {
                Some(account) => account.lamports,
                None => 0,
            },
{
}

/// Where all answers are those of given accounts, each native balance is the lamports of the
/// account at its key, or zero where there is none.
pub proof fn native_balances_are_the_lamports_of_the_accounts(
    accounts: Map<Seq<u8>, AccountView>,
    keys: Seq<AccountKeyView>,
    asked: Seq<Load>,
    native: Seq<u64>,
    tokens: Seq<SvmTokenInfoView>,
    index: int,
)
    requires
        answered_from(asked, accounts),
        balances_collected(keys, asked, native, tokens),
        0 <= index < keys.len(),
    ensures
        native.len() == keys.len(),
        accounts.contains_key(keys[index].pubkey) ==> native[index]
            == accounts[keys[index].pubkey].lamports,
        !accounts.contains_key(keys[index].pubkey) ==> native[index] == 0,
{
    let loads = choose|loads: Seq<KeyLoads>|
        balances_of_loads(keys, asked, native, tokens, loads);
    native_balances_are_the_lamports(keys, asked, native, tokens, loads);
    lemma_loads_in(accounts, keys, loads);
    assert(native[index] == match loads[index].account {
        Some(account) => account.lamports,
        None => 0,
    });
}

/// Every token account is listed, an empty one too: where one of the keys is a token program, and
/// an account among the first 256 is neither invoked nor a token program itself, its data is an
/// initialized token account, and its mint is an initialized mint of the same program, there is a
/// balance with what stands in the data of the two.
pub proof fn every_token_account_is_listed(
    keys: Seq<AccountKeyView>,
    asked: Seq<Load>,
    native: Seq<u64>,
    tokens: Seq<SvmTokenInfoView>,
    loads: Seq<KeyLoads>,
    program_index: int,
    index: int,
    account: AccountView,
    minted: AccountView,
)
    requires
        balances_of_loads(keys, asked, native, tokens, loads),
        0 <= program_index < keys.len(),
        known_spl_token_id(keys[program_index].pubkey),
        0 <= index < keys.len(),
        index <= 255,
        !keys[index].invoked,
        !known_spl_token_id(keys[index].pubkey),
        loads[index].account == Some(account),
        is_token_account(account.data, account.owner),
        loads[index].mint == Some(minted),
        minted.owner == account.owner,
        is_mint(minted.data, minted.owner),
    ensures
        exists|i: int|
            {
                &&& 0 <= i < tokens.len()
                &&& (#[trigger] tokens[i]).account_index == index
                &&& tokens[i].mint == account.data.subrange(0, 32)
                &&& tokens[i].owner == account.data.subrange(32, 64)
                &&& tokens[i].amount == le_u64(account.data, 64)
                &&& tokens[i].program_id == account.owner
                &&& tokens[i].decimals == minted.data[44]
            },
{
    lemma_token_balances(keys, loads);
    let balance = token_balance(keys, index, loads[index])->0;
    assert(tokens.contains(balance));
    let at = choose|at: int| 0 <= at < tokens.len() && tokens[at] == balance;
    assert(tokens[at].account_index == index);
}

/// Where all answers are those of given accounts, every token account among them is listed, an
/// empty one too, whose mint is the account at the address in the first 32 bytes of its data.
pub proof fn every_token_account_of_the_accounts_is_listed(
    accounts: Map<Seq<u8>, AccountView>,
    keys: Seq<AccountKeyView>,
    asked: Seq<Load>,
    native: Seq<u64>,
    tokens: Seq<SvmTokenInfoView>,
    program_index: int,
    index: int,
    account: AccountView,
    minted: AccountView,
)
    requires
        answered_from(asked, accounts),
        balances_collected(keys, asked, native, tokens),
        0 <= program_index < keys.len(),
        known_spl_token_id(keys[program_index].pubkey),
        0 <= index < keys.len(),
        index <= 255,
        !keys[index].invoked,
        !known_spl_token_id(keys[index].pubkey),
        accounts.contains_key(keys[index].pubkey),
        accounts[keys[index].pubkey] == account,
        is_token_account(account.data, account.owner),
        accounts.contains_key(account.data.subrange(0, 32)),
        accounts[account.data.subrange(0, 32)] == minted,
        minted.owner == account.owner,
        is_mint(minted.data, minted.owner),
    ensures
        exists|i: int|
            {
                &&& 0 <= i < tokens.len()
                &&& (#[trigger] tokens[i]).account_index == index
                &&& tokens[i].mint == account.data.subrange(0, 32)
                &&& tokens[i].owner == account.data.subrange(32, 64)
                &&& tokens[i].amount == le_u64(account.data, 64)
                &&& tokens[i].program_id == account.owner
                &&& tokens[i].decimals == minted.data[44]
            },
{
    let loads = choose|loads: Seq<KeyLoads>|
        balances_of_loads(keys, asked, native, tokens, loads);
    lemma_loads_in(accounts, keys, loads);
    assert(loads[index].account == Some(account));
    assert(has_token_program(keys)) by {
        assert(known_spl_token_id(keys[program_index].pubkey));
    }
    assert(loads[index].mint == Some(minted));
    every_token_account_is_listed(
        keys,
        asked,
        native,
        tokens,
        loads,
        program_index,
        index,
        account,
        minted,
    );
}

/// Nothing else is listed: the balances stand by ascending index, so each account has one at most,
/// and each is that of an account among the first 256 that is neither invoked nor a token program
/// itself, in a transaction with one. It repeats what stands in the account's data and in that of
/// its mint, an initialized token account and an initialized mint of the same program.
pub proof fn only_token_accounts_are_listed(
    keys: Seq<AccountKeyView>,
    asked: Seq<Load>,
    native: Seq<u64>,
    tokens: Seq<SvmTokenInfoView>,
    loads: Seq<KeyLoads>,
)
    requires
        balances_of_loads(keys, asked, native, tokens, loads),
    ensures
        forall|i: int, j: int|
            0 <= i < j < tokens.len() ==> (#[trigger] tokens[i]).account_index < (
            #[trigger] tokens[j]).account_index,
        tokens.len() > 0 ==> exists|i: int|
            0 <= i < keys.len() && known_spl_token_id(#[trigger] keys[i].pubkey),
        forall|i: int|
            0 <= i < tokens.len() ==> {
                let index = (#[trigger] tokens[i]).account_index;
                &&& 0 <= index < keys.len()
                &&& index <= 255
                &&& !keys[index].invoked
                &&& !known_spl_token_id(keys[index].pubkey)
                &&& loads[index].account matches Some(account)
                &&& loads[index].mint matches Some(minted)
                &&& is_token_account(account.data, account.owner)
                &&& minted.owner == account.owner
                &&& is_mint(minted.data, minted.owner)
                &&& tokens[i].mint == account.data.subrange(0, 32)
                &&& tokens[i].owner == account.data.subrange(32, 64)
                &&& tokens[i].amount == le_u64(account.data, 64)
                &&& tokens[i].program_id == account.owner
                &&& tokens[i].decimals == minted.data[44]
            },
{
    lemma_token_balances(keys, loads);
    if tokens.len() > 0 {
        let index = tokens[0].account_index;
        assert(token_balance(keys, index, loads[index]) == Some(tokens[0]));
        assert(has_token_program(keys));
    }
}

/// Where all answers are those of given accounts, nothing else is listed than what stands in the
/// data of a token account among them and of its mint.
pub proof fn only_token_accounts_of_the_accounts_are_listed(
    accounts: Map<Seq<u8>, AccountView>,
    keys: Seq<AccountKeyView>,
    asked: Seq<Load>,
    native: Seq<u64>,
    tokens: Seq<SvmTokenInfoView>,
    i: int,
)
    requires
        answered_from(asked, accounts),
        balances_collected(keys, asked, native, tokens),
        0 <= i < tokens.len(),
    ensures
        ({
            let index = tokens[i].account_index;
            let account = accounts[keys[index].pubkey];
            let minted = accounts[tokens[i].mint];
            &&& 0 <= index < keys.len()
            &&& index <= 255
            &&& !keys[index].invoked
            &&& !known_spl_token_id(keys[index].pubkey)
            &&& accounts.contains_key(keys[index].pubkey)
            &&& is_token_account(account.data, account.owner)
            &&& tokens[i].mint == account.data.subrange(0, 32)
            &&& accounts.contains_key(tokens[i].mint)
            &&& minted.owner == account.owner
            &&& is_mint(minted.data, minted.owner)
            &&& tokens[i].owner == account.data.subrange(32, 64)
            &&& tokens[i].amount == le_u64(account.data, 64)
            &&& tokens[i].program_id == account.owner
            &&& tokens[i].decimals == minted.data[44]
        }),
{
    let loads = choose|loads: Seq<KeyLoads>|
        balances_of_loads(keys, asked, native, tokens, loads);
    let index = tokens[i].account_index;
    lemma_loads_in(accounts, keys, loads);
    only_token_accounts_are_listed(keys, asked, native, tokens, loads);
    mints_of_token_accounts_are_wanted(keys, index, loads[index].account->0);
    assert(loads[index].mint == lookup(accounts, tokens[i].mint));
}

/// Whatever the loader answers, the balances follow its answers. The answer for each key stands
/// at its place in what was asked, and directly behind it the answer for its mint, exactly where
/// one of the keys is a token program and the account is an initialized token account that is
/// neither invoked nor a token program itself; nothing else is asked. The native balance of a key
/// is the lamports in its answer, or zero; every token account has its balance listed.
pub proof fn balances_follow_the_answers(
    keys: Seq<AccountKeyView>,
    asked: Seq<Load>,
    native: Seq<u64>,
    tokens: Seq<SvmTokenInfoView>,
) -> (at: Seq<int>)
    requires
        balances_collected(keys, asked, native, tokens),
    ensures
        native.len() == keys.len(),
        at.len() == keys.len() + 1,
        at[0] == 0,
        at[keys.len() as int] == asked.len(),
        forall|i: int|
            0 <= i < keys.len() ==> {
                let place = #[trigger] at[i];
                let for_mint = {
                    &&& exists|p: int|
                        0 <= p < keys.len() && known_spl_token_id(#[trigger] keys[p].pubkey)
                    &&& !keys[i].invoked
                    &&& !known_spl_token_id(keys[i].pubkey)
                    &&& asked[place].reply matches Some(account) && is_token_account(
                        account.data,
                        account.owner,
                    )
                };
                &&& 0 <= place < asked.len()
                &&& asked[place].key == keys[i].pubkey
                &&& native[i] == match asked[place].reply {
                    Some(account) => account.lamports,
                    None => 0,
                }
                &&& !for_mint ==> at[i + 1] == place + 1
                &&& for_mint ==> {
                    let account = asked[place].reply->0;
                    let minted = asked[place + 1].reply->0;
                    &&& at[i + 1] == place + 2
                    &&& place + 1 < asked.len()
                    &&& asked[place + 1].key == account.data.subrange(0, 32)
                    &&& asked[place + 1].reply is Some && minted.owner == account.owner && is_mint(
                        minted.data,
                        minted.owner,
                    ) && i <= 255 ==> exists|t: int|
                        {
                            &&& 0 <= t < tokens.len()
                            &&& (#[trigger] tokens[t]).account_index == i
                            &&& tokens[t].mint == account.data.subrange(0, 32)
                            &&& tokens[t].owner == account.data.subrange(32, 64)
                            &&& tokens[t].amount == le_u64(account.data, 64)
                            &&& tokens[t].program_id == account.owner
                            &&& tokens[t].decimals == minted.data[44]
                        }
                }
            },
        forall|t: int|
            0 <= t < tokens.len() ==> {
                let i = (#[trigger] tokens[t]).account_index;
                &&& 0 <= i < keys.len()
                &&& i <= 255
                &&& at[i + 1] == at[i] + 2
                &&& asked[at[i]].reply matches Some(account)
                &&& asked[at[i] + 1].reply matches Some(minted)
                &&& minted.owner == account.owner
                &&& is_mint(minted.data, minted.owner)
                &&& tokens[t].mint == account.data.subrange(0, 32)
                &&& tokens[t].owner == account.data.subrange(32, 64)
                &&& tokens[t].amount == le_u64(account.data, 64)
                &&& tokens[t].program_id == account.owner
                &&& tokens[t].decimals == minted.data[44]
            },
{
    let loads = choose|loads: Seq<KeyLoads>|
        balances_of_loads(keys, asked, native, tokens, loads);
    let at = Seq::new(keys.len() + 1, |i: int| asked_before(keys, loads, i));
    native_balances_are_the_lamports(keys, asked, native, tokens, loads);
    only_token_accounts_are_listed(keys, asked, native, tokens, loads);
    assert(loads.take(0) =~= Seq::empty());
    assert(loads.take(keys.len() as int) =~= loads);
    assert forall|i: int| 0 <= i < keys.len() implies {
        let place = #[trigger] at[i];
        let for_mint = {
            &&& exists|p: int| 0 <= p < keys.len() && known_spl_token_id(#[trigger] keys[p].pubkey)
            &&& !keys[i].invoked
            &&& !known_spl_token_id(keys[i].pubkey)
            &&& asked[place].reply matches Some(account) && is_token_account(
                account.data,
                account.owner,
            )
        };
        &&& 0 <= place < asked.len()
        &&& asked[place].key == keys[i].pubkey
        &&& asked[place].reply == loads[i].account
        &&& native[i] == match asked[place].reply {
            Some(account) => account.lamports,
            None => 0,
        }
        &&& !for_mint ==> at[i + 1] == place + 1
        &&& for_mint ==> {
            let account = asked[place].reply->0;
            let minted = asked[place + 1].reply->0;
            &&& at[i + 1] == place + 2
            &&& place + 1 < asked.len()
            &&& asked[place + 1].key == account.data.subrange(0, 32)
            &&& asked[place + 1].reply == loads[i].mint
            &&& asked[place + 1].reply is Some && minted.owner == account.owner && is_mint(
                minted.data,
                minted.owner,
            ) && i <= 255 ==> exists|t: int|
                {
                    &&& 0 <= t < tokens.len()
                    &&& (#[trigger] tokens[t]).account_index == i
                    &&& tokens[t].mint == account.data.subrange(0, 32)
                    &&& tokens[t].owner == account.data.subrange(32, 64)
                    &&& tokens[t].amount == le_u64(account.data, 64)
                    &&& tokens[t].program_id == account.owner
                    &&& tokens[t].decimals == minted.data[44]
                }
        }
    } by {
        keys_are_asked_for_in_order(keys, asked, native, tokens, loads, i);
        if i + 1 < keys.len() {
            keys_are_asked_for_in_order(keys, asked, native, tokens, loads, i + 1);
        }
        assert(native[i] == match loads[i].account {
            Some(account) => account.lamports,
            None => 0,
        });
        mints_of_token_accounts_are_wanted(keys, i, loads[i].account->0);
        if has_token_program(keys) && !keys[i].invoked && !known_spl_token_id(keys[i].pubkey)
            && loads[i].account is Some && is_token_account(
            loads[i].account->0.data,
            loads[i].account->0.owner,
        ) && loads[i].mint is Some && loads[i].mint->0.owner == loads[i].account->0.owner
            && is_mint(loads[i].mint->0.data, loads[i].mint->0.owner) && i <= 255 {
            let program_index = choose|p: int|
                0 <= p < keys.len() && known_spl_token_id(#[trigger] keys[p].pubkey);
            every_token_account_is_listed(
                keys,
                asked,
                native,
                tokens,
                loads,
                program_index,
                i,
                loads[i].account->0,
                loads[i].mint->0,
            );
        }
    }
    assert forall|t: int| 0 <= t < tokens.len() implies {
        let i = (#[trigger] tokens[t]).account_index;
        &&& at[i + 1] == at[i] + 2
        &&& asked[at[i]].reply == loads[i].account
        &&& asked[at[i] + 1].reply == loads[i].mint
    } by {
        let i = tokens[t].account_index;
        assert(at[i] == asked_before(keys, loads, i));
    }
    at
}

/// Each key is asked for once and in order, and what is recorded follows its answer, whatever the
/// length of the data. Where there is no account, neither a datum nor an owner is recorded. Where
/// there is one, its owner is, and its data, all of it, exactly if its owner has an inclusion that
/// is set for this side and does not exclude the length of the data.
pub proof fn datums_follow_the_answers(
    keys: Seq<AccountKeyView>,
    inclusions: Map<Seq<u8>, DatumInclusionView>,
    pre_or_post: PreOrPostDatum,
    asked: Seq<Load>,
    datums: Seq<Option<Seq<u8>>>,
    owners: Seq<Option<Seq<u8>>>,
)
    requires
        datums_collected(keys, inclusions, pre_or_post, asked, datums, owners),
    ensures
        asked.len() == keys.len(),
        datums.len() == keys.len(),
        owners.len() == keys.len(),
        forall|i: int|
            0 <= i < keys.len() ==> {
                &&& (#[trigger] asked[i]).key == keys[i].pubkey
                &&& match asked[i].reply {
                    None => datums[i] is None && owners[i] is None,
                    Some(account) => {
                        let inclusion = inclusions[account.owner];
                        &&& owners[i] == Some(account.owner)
                        &&& datums[i] is Some ==> datums[i] == Some(account.data)
                        &&& datums[i] is Some <==> {
                            &&& inclusions.contains_key(account.owner)
                            &&& pre_or_post == PreOrPostDatum::PreDatum ==> inclusion.pre
                            &&& pre_or_post == PreOrPostDatum::PostDatum ==> inclusion.post
                            &&& forall|j: int|
                                0 <= j < inclusion.length_exclusions.len()
                                    ==> inclusion.length_exclusions[j] != account.data.len()
                        }
                    },
                }
            },
{
    assert forall|i: int| 0 <= i < keys.len() implies {
        &&& datums[i] == datum(inclusions, pre_or_post, (#[trigger] asked[i]).reply)
        &&& owners[i] == owner(asked[i].reply)
    } by {}
}

/// Where all answers are those of given accounts, the datum of an account is its data wherever the
/// inclusion of its owner takes data of that length from this side, and is absent elsewhere.
pub proof fn datums_are_the_data_of_the_accounts(
    accounts: Map<Seq<u8>, AccountView>,
    keys: Seq<AccountKeyView>,
    inclusions: Map<Seq<u8>, DatumInclusionView>,
    pre_or_post: PreOrPostDatum,
    asked: Seq<Load>,
    datums: Seq<Option<Seq<u8>>>,
    owners: Seq<Option<Seq<u8>>>,
    index: int,
)
    requires
        answered_from(asked, accounts),
        datums_collected(keys, inclusions, pre_or_post, asked, datums, owners),
        0 <= index < keys.len(),
    ensures
        ({
            let key = keys[index].pubkey;
            let account = accounts[key];
            let taken = accounts.contains_key(key) && inclusions.contains_key(account.owner)
                && inclusions[account.owner].includes(pre_or_post, account.data.len());
            &&& accounts.contains_key(key) ==> owners[index] == Some(account.owner)
            &&& !accounts.contains_key(key) ==> owners[index] is None
            &&& taken ==> datums[index] == Some(account.data)
            &&& !taken ==> datums[index] is None
        }),
{
    datums_follow_the_answers(keys, inclusions, pre_or_post, asked, datums, owners);
    assert(asked[index].key == keys[index].pubkey);
    assert(asked[index].reply == lookup(accounts, keys[index].pubkey));
}

/// What is asked for a record is asked for its balances first, as many times as that takes, and
/// then once more for each key, for its datums; each part of the record follows the answers that
/// were given for it.
pub proof fn records_follow_the_answers(
    keys: Seq<AccountKeyView>,
    inclusions: Map<Seq<u8>, DatumInclusionView>,
    pre_or_post: PreOrPostDatum,
    asked: Seq<Load>,
    record: TransactionRecord,
) -> (between: int)
    requires
        record_collected(keys, inclusions, pre_or_post, asked, record),
    ensures
        keys.len() <= between,
        between + keys.len() == asked.len(),
        balances_collected(keys, asked.take(between), record.native, record.tokens),
        datums_collected(
            keys,
            inclusions,
            pre_or_post,
            asked.skip(between),
            record.datums,
            record.owners,
        ),
{
    let between = asked.len() - keys.len();
    let at = balances_follow_the_answers(
        keys,
        asked.take(between),
        record.native,
        record.tokens,
    );
    lemma_places_ascend(at, keys.len() as int);
    between
}

/// Where each place stands behind the one before, at least as much was asked before a place as
/// there are places before it.
proof fn lemma_places_ascend(at: Seq<int>, count: int)
    requires
        0 <= count < at.len(),
        at[0] == 0,
        forall|i: int| 0 <= i < at.len() - 1 ==> (#[trigger] at[i]) < at[i + 1],
    ensures
        count <= at[count],
    decreases count,
{
    if count > 0 {
        lemma_places_ascend(at, count - 1);
        assert(at[count - 1] < at[count - 1 + 1]);
    }
}

/// Where all answers are those of given accounts, a record holds for each key the lamports of its
/// account, its owner, and its data where the inclusion of the owner takes it.
pub proof fn record_is_that_of_the_accounts(
    accounts: Map<Seq<u8>, AccountView>,
    keys: Seq<AccountKeyView>,
    inclusions: Map<Seq<u8>, DatumInclusionView>,
    pre_or_post: PreOrPostDatum,
    asked: Seq<Load>,
    record: TransactionRecord,
    index: int,
)
    requires
        answered_from(asked, accounts),
        record_collected(keys, inclusions, pre_or_post, asked, record),
        0 <= index < keys.len(),
    ensures
        ({
            let key = keys[index].pubkey;
            let account = accounts[key];
            let taken = accounts.contains_key(key) && inclusions.contains_key(account.owner)
                && inclusions[account.owner].includes(pre_or_post, account.data.len());
            &&& accounts.contains_key(key) ==> record.native[index] == account.lamports
            &&& !accounts.contains_key(key) ==> record.native[index] == 0
            &&& accounts.contains_key(key) ==> record.owners[index] == Some(account.owner)
            &&& !accounts.contains_key(key) ==> record.owners[index] is None
            &&& taken ==> record.datums[index] == Some(account.data)
            &&& !taken ==> record.datums[index] is None
        }),
{
    let between = asked.len() - keys.len();
    let first = asked.take(between);
    let second = asked.skip(between);
    assert forall|i: int| 0 <= i < first.len() implies (#[trigger] first[i]).reply == lookup(
        accounts,
        first[i].key,
    ) by {
        assert(first[i] == asked[i]);
    }
    assert forall|i: int| 0 <= i < second.len() implies (#[trigger] second[i]).reply == lookup(
        accounts,
        second[i].key,
    ) by {
        assert(second[i] == asked[between + i]);
    }
    native_balances_are_the_lamports_of_the_accounts(
        accounts,
        keys,
        first,
        record.native,
        record.tokens,
        index,
    );
    datums_are_the_data_of_the_accounts(
        accounts,
        keys,
        inclusions,
        pre_or_post,
        second,
        record.datums,
        record.owners,
        index,
    );
}

/// Collecting adds one record to its own side, behind those that are there, and leaves the other
/// side as it is. Without a collector nothing is recorded and nothing is asked.
pub proof fn collecting_adds_one_record(
    keys: Seq<AccountKeyView>,
    inclusions: Map<Seq<u8>, DatumInclusionView>,
    pre_or_post: PreOrPostDatum,
    asked: Seq<Load>,
    before: Option<BalanceCollectorView>,
    after: Option<BalanceCollectorView>,
)
    requires
        collected(keys, inclusions, pre_or_post, asked, before, after),
    ensures
        match before {
            None => after is None && asked == Seq::<Load>::empty(),
            Some(earlier) => {
                &&& after matches Some(later)
                &&& pre_or_post == PreOrPostDatum::PreDatum ==> {
                    &&& later.post == earlier.post
                    &&& later.pre.len() == earlier.pre.len() + 1
                    &&& later.pre.drop_last() == earlier.pre
                    &&& record_collected(keys, inclusions, pre_or_post, asked, later.pre.last())
                }
                &&& pre_or_post == PreOrPostDatum::PostDatum ==> {
                    &&& later.pre == earlier.pre
                    &&& later.post.len() == earlier.post.len() + 1
                    &&& later.post.drop_last() == earlier.post
                    &&& record_collected(keys, inclusions, pre_or_post, asked, later.post.last())
                }
            },
        },
{
    if let Some(earlier) = before {
        let record = choose|record: TransactionRecord| #[trigger]
            record_collected(keys, inclusions, pre_or_post, asked, record) && after == Some(
                earlier.with_record(pre_or_post, record),
            );
        assert(earlier.pre.push(record).drop_last() =~= earlier.pre);
        assert(earlier.post.push(record).drop_last() =~= earlier.post);
    }
}

/// A record is made of the entries that stand at its place in the four lists.
pub proof fn records_are_the_lists_side_by_side(
    native: Seq<Seq<u64>>,
    tokens: Seq<Seq<SvmTokenInfoView>>,
    datums: Seq<Seq<Option<Seq<u8>>>>,
    owners: Seq<Seq<Option<Seq<u8>>>>,
)
    ensures
        records(native, tokens, datums, owners).len() == native.len(),
        forall|i: int|
            0 <= i < native.len() ==> {
                let record = #[trigger] records(native, tokens, datums, owners)[i];
                &&& record.native == native[i]
                &&& record.tokens == tokens[i]
                &&& record.datums == datums[i]
                &&& record.owners == owners[i]
            },
{
}

/// A collector that is there is collected into, whether or not it might have been absent.
pub proof fn present_collector_is_the_collector(collector: BalanceCollector)
    ensures
        collector.collector() == Some(collector.deep_view()),
        collector.collector_wf() == collector.wf(),
        Some(collector).collector() == Some(collector.deep_view()),
        Some(collector).collector_wf() == collector.wf(),
        None::<BalanceCollector>.collector() is None,
        None::<BalanceCollector>.collector_wf(),
{
}

} // verus!
