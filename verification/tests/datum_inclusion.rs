use svm_datum::datum_inclusion::{DatumInclusion, PreOrPostDatum, ProgramDatumInclusions};
use svm_datum::pubkey::Pubkey;

fn inclusion(pre: bool, post: bool, length_exclusions: Vec<usize>) -> DatumInclusion {
    DatumInclusion { pre, post, length_exclusions }
}

#[test]
fn datum_needs_its_side() {
    let pre_only = inclusion(true, false, vec![]);
    assert!(pre_only.can_include_datum(&PreOrPostDatum::PreDatum, &[1, 2, 3]));
    assert!(!pre_only.can_include_datum(&PreOrPostDatum::PostDatum, &[1, 2, 3]));
    let post_only = inclusion(false, true, vec![]);
    assert!(!post_only.can_include_datum(&PreOrPostDatum::PreDatum, &[1, 2, 3]));
    assert!(post_only.can_include_datum(&PreOrPostDatum::PostDatum, &[1, 2, 3]));
}

#[test]
fn excluded_lengths_are_left_out() {
    let both = inclusion(true, true, vec![0, 3, 165]);
    assert!(!both.can_include_datum(&PreOrPostDatum::PreDatum, &[]));
    assert!(both.can_include_datum(&PreOrPostDatum::PreDatum, &[9; 2]));
    assert!(!both.can_include_datum(&PreOrPostDatum::PostDatum, &[9; 3]));
    assert!(both.can_include_datum(&PreOrPostDatum::PostDatum, &[9; 164]));
    assert!(!both.can_include_datum(&PreOrPostDatum::PostDatum, &[9; 165]));
}

#[test]
fn default_inclusion_takes_nothing() {
    let nothing = DatumInclusion::default();
    assert!(!nothing.pre);
    assert!(!nothing.post);
    assert!(nothing.length_exclusions.is_empty());
    assert!(!nothing.can_include_datum(&PreOrPostDatum::PreDatum, &[]));
    assert!(!nothing.can_include_datum(&PreOrPostDatum::PostDatum, &[1]));
}

#[test]
fn clone_keeps_the_fields() {
    let copy = inclusion(true, false, vec![7, 8]).clone();
    assert!(copy.pre);
    assert!(!copy.post);
    assert_eq!(copy.length_exclusions, vec![7, 8]);
}

#[test]
fn inserted_inclusions_are_found() {
    let first = Pubkey::new_from_array([1; 32]);
    let second = Pubkey::new_from_array([2; 32]);
    let mut inclusions = ProgramDatumInclusions::new();
    assert!(inclusions.get(&first).is_none());
    inclusions.insert(first, inclusion(true, false, vec![1]));
    inclusions.insert(second, inclusion(false, true, vec![]));
    assert_eq!(inclusions.get(&first).unwrap().length_exclusions, vec![1]);
    assert!(inclusions.get(&second).unwrap().post);
    inclusions.insert(first, inclusion(false, false, vec![5, 6]));
    assert_eq!(inclusions.get(&first).unwrap().length_exclusions, vec![5, 6]);
    assert!(!inclusions.get(&first).unwrap().pre);
    assert!(inclusions.get(&second).unwrap().post);
    assert!(inclusions.get(&Pubkey::new_from_array([3; 32])).is_none());
}

#[test]
fn pubkeys_compare_by_their_bytes() {
    let mut bytes = [4; 32];
    let key = Pubkey::new_from_array(bytes);
    assert_eq!(key, Pubkey::new_from_array([4; 32]));
    bytes[31] = 5;
    assert_ne!(key, Pubkey::new_from_array(bytes));
}
