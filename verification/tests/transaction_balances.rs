use std::cell::RefCell;
use svm_datum::account::{Account, AccountKey, AccountLoader, Transaction};
use svm_datum::pubkey::Pubkey;
use svm_datum::spl_token::TokenAccount;
use svm_datum::transaction_balances::{
    BalanceCollectionRoutines, BalanceCollector, DatumInclusion, PreOrPostDatum,
    ProgramDatumInclusions, SvmTokenInfo,
};

fn key(byte: u8) -> Pubkey {
    Pubkey::new_from_array([byte; 32])
}

fn token_program() -> Pubkey {
    Pubkey::new_from_array(spl_generic_token::token::id().to_bytes())
}

fn token_2022_program() -> Pubkey {
    Pubkey::new_from_array(spl_generic_token::token_2022::id().to_bytes())
}

fn account(lamports: u64, owner: Pubkey, data: Vec<u8>) -> Account {
    Account { lamports, owner, data }
}

fn token_data(mint: Pubkey, owner: Pubkey, amount: u64) -> Vec<u8> {
    let mut data = vec![0; 165];
    data[0..32].copy_from_slice(&mint.bytes);
    data[32..64].copy_from_slice(&owner.bytes);
    data[64..72].copy_from_slice(&amount.to_le_bytes());
    data[108] = 1;
    data
}

fn mint_data(decimals: u8) -> Vec<u8> {
    let mut data = vec![0; 82];
    data[36..44].copy_from_slice(&77u64.to_le_bytes());
    data[44] = decimals;
    data[45] = 1;
    data
}

fn transaction(keys: &[(Pubkey, bool)]) -> Transaction {
    Transaction {
        account_keys: keys
            .iter()
            .map(|(pubkey, invoked)| AccountKey { pubkey: *pubkey, invoked: *invoked })
            .collect(),
    }
}

fn find(accounts: &[(Pubkey, Account)], wanted: &Pubkey) -> Option<Account> {
    accounts.iter().find(|(key, _)| key == wanted).map(|(_, account)| account.clone())
}

fn balances(
    accounts: &[(Pubkey, Account)],
    transaction: &Transaction,
) -> (Vec<u64>, Vec<SvmTokenInfo>) {
    let load = |wanted: &Pubkey| find(accounts, wanted);
    BalanceCollector::default().collect_balances(&mut AccountLoader::new(&load), transaction)
}

fn assert_info(info: &SvmTokenInfo, index: u8, amount: u64, program_id: Pubkey, decimals: u8) {
    assert_eq!(info.account_index, index);
    assert_eq!(info.mint, key(50));
    assert_eq!(info.owner, key(60));
    assert_eq!(info.amount, amount);
    assert_eq!(info.program_id, program_id);
    assert_eq!(info.decimals, decimals);
}

#[test]
fn native_balances_of_all_accounts() {
    let accounts = [(key(1), account(10, key(9), vec![])), (key(3), account(30, key(9), vec![]))];
    let keys = transaction(&[(key(1), false), (key(2), false), (key(3), true), (key(1), false)]);
    let (native, tokens) = balances(&accounts, &keys);
    assert_eq!(native, vec![10, 0, 30, 10]);
    assert!(tokens.is_empty());
}

#[test]
fn empty_transaction_has_no_balances() {
    let (native, tokens) = balances(&[], &transaction(&[]));
    assert!(native.is_empty());
    assert!(tokens.is_empty());
}

#[test]
fn token_balances_of_both_programs() {
    for program in [token_program(), token_2022_program()] {
        let accounts = [
            (key(1), account(1, program, token_data(key(50), key(60), 0x0102_0304_0506_0708))),
            (key(2), account(2, program, token_data(key(50), key(60), 5))),
            (key(50), account(3, program, mint_data(6))),
            (program, account(4, key(9), vec![])),
        ];
        let keys = transaction(&[(key(1), false), (program, true), (key(2), false)]);
        let (native, tokens) = balances(&accounts, &keys);
        assert_eq!(native, vec![1, 4, 2]);
        assert_eq!(tokens.len(), 2);
        assert_info(&tokens[0], 0, 0x0102_0304_0506_0708, program, 6);
        assert_info(&tokens[1], 2, 5, program, 6);
    }
}

#[test]
fn token_program_must_take_part() {
    let program = token_program();
    let accounts = [
        (key(1), account(1, program, token_data(key(50), key(60), 5))),
        (key(50), account(3, program, mint_data(6))),
    ];
    let (_, tokens) = balances(&accounts, &transaction(&[(key(1), false)]));
    assert!(tokens.is_empty());
    let keys = transaction(&[(key(1), false), (token_2022_program(), false)]);
    assert_eq!(balances(&accounts, &keys).1.len(), 1);
}

#[test]
fn invoked_accounts_have_no_token_balance() {
    let program = token_program();
    let accounts = [
        (key(1), account(1, program, token_data(key(50), key(60), 5))),
        (key(50), account(3, program, mint_data(6))),
        (program, account(1, program, token_data(key(50), key(60), 5))),
    ];
    let (native, tokens) = balances(&accounts, &transaction(&[(key(1), true), (program, false)]));
    assert_eq!(native, vec![1, 1]);
    assert!(tokens.is_empty());
}

fn unpacked(holder: Account, mint: Option<Account>, index: usize) -> Option<SvmTokenInfo> {
    let load = |wanted: &Pubkey| {
        assert_eq!(*wanted, key(50));
        mint.clone()
    };
    SvmTokenInfo::unpack_token_account(&mut AccountLoader::new(load), &holder, index)
}

fn holder(program: Pubkey) -> Account {
    account(1, program, token_data(key(50), key(60), 5))
}

#[test]
fn token_account_must_be_valid() {
    let program = token_program();
    let mint = Some(account(1, program, mint_data(2)));
    assert_info(&unpacked(holder(program), mint.clone(), 7).unwrap(), 7, 5, program, 2);
    assert!(unpacked(holder(key(9)), mint.clone(), 7).is_none());
    let mut uninitialized = holder(program);
    uninitialized.data[108] = 0;
    assert!(unpacked(uninitialized, mint.clone(), 7).is_none());
    let mut short = holder(program);
    short.data.pop();
    assert!(unpacked(short, mint.clone(), 7).is_none());
    let mut long = holder(program);
    long.data.push(2);
    assert!(unpacked(long, mint, 7).is_none());
}

#[test]
fn extended_token_accounts_are_told_by_their_kind() {
    let program = token_2022_program();
    let mint = Some(account(1, program, mint_data(2)));
    let mut extended = holder(program);
    extended.data.push(2);
    assert_info(&unpacked(extended.clone(), mint.clone(), 0).unwrap(), 0, 5, program, 2);
    extended.data[165] = 1;
    assert!(unpacked(extended.clone(), mint.clone(), 0).is_none());
    extended.data[165] = 2;
    extended.data.resize(355, 0);
    assert!(unpacked(extended.clone(), mint.clone(), 0).is_none());
    extended.data.resize(356, 0);
    assert!(unpacked(extended, mint, 0).is_some());
}

#[test]
fn mint_must_be_valid_and_of_the_same_program() {
    let program = token_program();
    assert!(unpacked(holder(program), None, 0).is_none());
    let other = Some(account(1, token_2022_program(), mint_data(2)));
    assert!(unpacked(holder(program), other, 0).is_none());
    let mut uninitialized = mint_data(2);
    uninitialized[45] = 0;
    assert!(unpacked(holder(program), Some(account(1, program, uninitialized)), 0).is_none());
    let mut long = mint_data(2);
    long.push(0);
    assert!(unpacked(holder(program), Some(account(1, program, long)), 0).is_none());
}

#[test]
fn extended_mints_are_told_by_their_kind() {
    let program = token_2022_program();
    let mut data = mint_data(8);
    data.resize(165, 0);
    data.push(1);
    let mint = account(1, program, data.clone());
    assert_info(&unpacked(holder(program), Some(mint), 3).unwrap(), 3, 5, program, 8);
    data[165] = 2;
    assert!(unpacked(holder(program), Some(account(1, program, data)), 3).is_none());
}

#[test]
fn account_index_must_fit_in_a_byte() {
    let program = token_program();
    let mint = Some(account(1, program, mint_data(2)));
    assert_eq!(unpacked(holder(program), mint.clone(), 255).unwrap().account_index, 255);
    assert!(unpacked(holder(program), mint, 256).is_none());
}

#[test]
fn balance_with_a_loaded_mint() {
    let token = TokenAccount { mint: key(50), owner: key(60), amount: 5 };
    let program = token_program();
    let mint = Some(account(1, program, mint_data(4)));
    let info = SvmTokenInfo::with_mint_account(&token, program, &mint, 9).unwrap();
    assert_info(&info, 9, 5, program, 4);
    assert!(SvmTokenInfo::with_mint_account(&token, program, &None, 9).is_none());
    assert!(SvmTokenInfo::with_mint_account(&token, key(8), &mint, 9).is_none());
}

#[test]
fn mints_are_loaded_behind_their_accounts() {
    let program = token_program();
    let accounts = [
        (key(1), account(1, program, token_data(key(50), key(60), 5))),
        (key(50), account(3, program, mint_data(6))),
    ];
    let asked = RefCell::new(Vec::new());
    let load = |wanted: &Pubkey| {
        asked.borrow_mut().push(*wanted);
        find(&accounts, wanted)
    };
    let keys = transaction(&[(key(1), false), (key(2), false), (program, true)]);
    BalanceCollector::default().collect_balances(&mut AccountLoader::new(&load), &keys);
    assert_eq!(asked.into_inner(), vec![key(1), key(50), key(2), program]);
}

#[test]
fn without_a_token_program_no_mint_is_loaded() {
    let program = token_program();
    let accounts = [
        (key(1), account(1, program, token_data(key(50), key(60), 5))),
        (key(50), account(3, program, mint_data(6))),
    ];
    let asked = RefCell::new(Vec::new());
    let load = |wanted: &Pubkey| {
        asked.borrow_mut().push(*wanted);
        find(&accounts, wanted)
    };
    let keys = transaction(&[(key(1), false), (key(2), false), (key(1), false)]);
    BalanceCollector::default().collect_balances(&mut AccountLoader::new(&load), &keys);
    assert_eq!(asked.into_inner(), vec![key(1), key(2), key(1)]);
}

#[test]
fn only_a_token_account_has_its_mint_loaded() {
    let program = token_program();
    let asked = RefCell::new(Vec::new());
    let load = |wanted: &Pubkey| {
        asked.borrow_mut().push(*wanted);
        None
    };
    let mut loader = AccountLoader::new(&load);
    let other = account(1, program, vec![1; 10]);
    assert!(SvmTokenInfo::unpack_token_account(&mut loader, &other, 0).is_none());
    assert!(asked.borrow().is_empty());
    assert!(SvmTokenInfo::unpack_token_account(&mut loader, &holder(program), 256).is_none());
    assert_eq!(*asked.borrow(), vec![key(50)]);
}

#[test]
fn a_record_loads_for_balances_and_then_for_datums() {
    let asked = RefCell::new(Vec::new());
    let load = |wanted: &Pubkey| {
        asked.borrow_mut().push(*wanted);
        None
    };
    let keys = transaction(&[(key(1), false), (key(2), false)]);
    let mut present = Some(BalanceCollector::default());
    present.collect_pre_balances(&mut AccountLoader::new(&load), &keys, &inclusions());
    assert_eq!(asked.into_inner(), vec![key(1), key(2), key(1), key(2)]);
}

fn inclusions() -> ProgramDatumInclusions {
    let mut inclusions = ProgramDatumInclusions::new();
    let first = DatumInclusion { pre: true, post: true, length_exclusions: vec![2] };
    let second = DatumInclusion { pre: false, post: true, length_exclusions: vec![] };
    inclusions.insert(key(20), first);
    inclusions.insert(key(21), second);
    inclusions
}

fn datum_accounts() -> [(Pubkey, Account); 4] {
    [
        (key(1), account(1, key(20), vec![1, 2, 3])),
        (key(2), account(2, key(20), vec![1, 2])),
        (key(3), account(3, key(21), vec![7])),
        (key(4), account(4, key(22), vec![8])),
    ]
}

fn datum_keys() -> Transaction {
    transaction(&[
        (key(1), false),
        (key(2), false),
        (key(3), false),
        (key(4), false),
        (key(5), false),
    ])
}

#[test]
fn datums_follow_their_owners_inclusions() {
    let accounts = datum_accounts();
    let load = |wanted: &Pubkey| find(&accounts, wanted);
    let collector = BalanceCollector::default();
    let (datums, owners) = collector.collect_datums(
        &mut AccountLoader::new(&load),
        &datum_keys(),
        &inclusions(),
        &PreOrPostDatum::PreDatum,
    );
    assert_eq!(datums, vec![Some(vec![1, 2, 3]), None, None, None, None]);
    let expected = vec![Some(key(20)), Some(key(20)), Some(key(21)), Some(key(22)), None];
    assert_eq!(owners, expected);
    let (datums, owners) = collector.collect_datums(
        &mut AccountLoader::new(&load),
        &datum_keys(),
        &inclusions(),
        &PreOrPostDatum::PostDatum,
    );
    assert_eq!(datums, vec![Some(vec![1, 2, 3]), None, Some(vec![7]), None, None]);
    assert_eq!(owners, expected);
}

#[test]
fn each_side_gets_one_entry_per_transaction() {
    let accounts = datum_accounts();
    let load = |wanted: &Pubkey| find(&accounts, wanted);
    let none = |_: &Pubkey| None;
    let mut collector = BalanceCollector::new_with_transaction_count(2);
    assert!(collector.lengths_match_expected(0));
    collector.collect_pre_balances(&mut AccountLoader::new(&load), &datum_keys(), &inclusions());
    let empty = transaction(&[]);
    collector.collect_pre_balances(&mut AccountLoader::new(&none), &empty, &inclusions());
    assert!(!collector.lengths_match_expected(0));
    assert!(!collector.lengths_match_expected(2));
    collector.collect_post_balances(&mut AccountLoader::new(&none), &datum_keys(), &inclusions());
    assert!(!collector.lengths_match_expected(1));
    collector.collect_post_balances(&mut AccountLoader::new(&load), &datum_keys(), &inclusions());
    assert!(collector.lengths_match_expected(2));
    assert!(!collector.lengths_match_expected(3));

    let (native_pre, native_post, token_pre, token_post, pre, post, pre_owners, post_owners) =
        collector.into_vecs();
    assert_eq!(native_pre, vec![vec![1, 2, 3, 4, 0], vec![]]);
    assert_eq!(native_post, vec![vec![0; 5], vec![1, 2, 3, 4, 0]]);
    assert_eq!(token_pre.len(), 2);
    assert_eq!(token_post.len(), 2);
    assert_eq!(pre, vec![vec![Some(vec![1, 2, 3]), None, None, None, None], vec![]]);
    assert_eq!(
        post,
        vec![vec![None; 5], vec![Some(vec![1, 2, 3]), None, Some(vec![7]), None, None]]
    );
    let owners = vec![Some(key(20)), Some(key(20)), Some(key(21)), Some(key(22)), None];
    assert_eq!(pre_owners, vec![owners.clone(), vec![]]);
    assert_eq!(post_owners, vec![vec![None; 5], owners]);
}

#[test]
fn token_balances_reach_their_side() {
    let program = token_program();
    let accounts = [
        (key(1), account(1, program, token_data(key(50), key(60), 5))),
        (key(50), account(3, program, mint_data(6))),
    ];
    let load = |wanted: &Pubkey| find(&accounts, wanted);
    let keys = transaction(&[(program, true), (key(1), false)]);
    let mut collector = BalanceCollector::default();
    let nothing = ProgramDatumInclusions::new();
    collector.collect_post_balances(&mut AccountLoader::new(&load), &keys, &nothing);
    let vecs = collector.into_vecs();
    assert!(vecs.2.is_empty());
    assert_eq!(vecs.3.len(), 1);
    assert_info(&vecs.3[0][0], 1, 5, program, 6);
}

#[test]
fn absent_collector_collects_nothing() {
    let load = |_: &Pubkey| -> Option<Account> { panic!("loaded for no collector") };
    let mut absent: Option<BalanceCollector> = None;
    absent.collect_pre_balances(&mut AccountLoader::new(&load), &datum_keys(), &inclusions());
    absent.collect_post_balances(&mut AccountLoader::new(&load), &datum_keys(), &inclusions());
    assert!(absent.is_none());
}

#[test]
fn present_collector_collects() {
    let none = |_: &Pubkey| None;
    let mut present = Some(BalanceCollector::default());
    present.collect_pre_balances(&mut AccountLoader::new(&none), &datum_keys(), &inclusions());
    present.collect_post_balances(&mut AccountLoader::new(&none), &datum_keys(), &inclusions());
    assert!(present.unwrap().lengths_match_expected(1));
}
