use std::cell::RefCell;
use svm_datum::program_inclusions::{
    load_datum_program_inclusions, merge_inclusions, BadPubkey, ConfigReader,
    DatumInclusion, InclusionsFromConfig, ProgramDatumInclusions,
};
use svm_datum::pubkey::Pubkey;

const TOKEN: &str = "TokenkegQfeZyiNwAJbNbGKPFXCWuBvf9Ss623VQ5DA";
const SYSTEM: &str = "11111111111111111111111111111111";

fn entry(text: &str, length: usize) -> (String, DatumInclusion) {
    (text.to_string(), DatumInclusion { pre: true, post: true, length_exclusions: vec![length] })
}

fn token_key() -> Pubkey {
    Pubkey::new_from_array([
        6, 221, 246, 225, 215, 101, 161, 147, 217, 203, 225, 70, 206, 235, 121, 172, 28, 180, 133,
        237, 95, 91, 55, 145, 58, 140, 245, 133, 126, 255, 0, 169,
    ])
}

fn excluded(inclusions: &ProgramDatumInclusions, key: &Pubkey) -> Option<Vec<usize>> {
    inclusions.get(key).map(|found| found.length_exclusions.clone())
}

#[test]
fn texts_are_read_as_base58_keys() {
    let mut inclusions = ProgramDatumInclusions::new();
    let merged = merge_inclusions(&mut inclusions, &vec![entry(TOKEN, 1), entry(SYSTEM, 2)]);
    assert_eq!(merged, Ok(()));
    assert_eq!(excluded(&inclusions, &token_key()), Some(vec![1]));
    assert_eq!(excluded(&inclusions, &Pubkey::new_from_array([0; 32])), Some(vec![2]));
    assert_eq!(excluded(&inclusions, &Pubkey::new_from_array([1; 32])), None);
}

#[test]
fn order_of_distinct_texts_does_not_matter() {
    for entries in [
        vec![entry(TOKEN, 1), entry(SYSTEM, 2)],
        vec![entry(SYSTEM, 2), entry(TOKEN, 1)],
    ] {
        let mut inclusions = ProgramDatumInclusions::new();
        merge_inclusions(&mut inclusions, &entries).unwrap();
        assert_eq!(excluded(&inclusions, &token_key()), Some(vec![1]));
        assert_eq!(excluded(&inclusions, &Pubkey::new_from_array([0; 32])), Some(vec![2]));
    }
}

#[test]
fn last_entry_for_a_program_wins() {
    let mut inclusions = ProgramDatumInclusions::new();
    merge_inclusions(&mut inclusions, &vec![entry(TOKEN, 1), entry(TOKEN, 9)]).unwrap();
    assert_eq!(excluded(&inclusions, &token_key()), Some(vec![9]));
}

#[test]
fn bad_text_is_reported_with_its_position() {
    for bad in ["", "not base58 0OIl", "abc", "1111111111111111111111111111111"] {
        let mut inclusions = ProgramDatumInclusions::new();
        let entries = vec![entry(TOKEN, 1), entry(bad, 2), entry(SYSTEM, 3)];
        let merged = merge_inclusions(&mut inclusions, &entries);
        assert_eq!(merged, Err(1));
        assert_eq!(excluded(&inclusions, &token_key()), Some(vec![1]));
        assert_eq!(excluded(&inclusions, &Pubkey::new_from_array([0; 32])), None);
    }
}

fn read_file(path: &u8) -> Option<InclusionsFromConfig> {
    match path {
        0 => None,
        1 => Some(vec![entry(TOKEN, 1), entry(SYSTEM, 2)]),
        2 => Some(vec![entry(TOKEN, 4)]),
        3 => Some(vec![entry(SYSTEM, 5), entry("?", 6)]),
        _ => Some(vec![]),
    }
}

fn load(paths: Option<Vec<u8>>) -> ProgramDatumInclusions {
    load_datum_program_inclusions(&paths, &mut ConfigReader::new(read_file)).unwrap()
}

#[test]
fn no_paths_give_no_inclusions() {
    let loaded = load(None);
    assert_eq!(excluded(&loaded, &token_key()), None);
    let loaded = load(Some(vec![]));
    assert_eq!(excluded(&loaded, &token_key()), None);
}

#[test]
fn later_files_replace_earlier_inclusions() {
    let loaded = load(Some(vec![1, 2]));
    assert_eq!(excluded(&loaded, &token_key()), Some(vec![4]));
    assert_eq!(excluded(&loaded, &Pubkey::new_from_array([0; 32])), Some(vec![2]));
    let loaded = load(Some(vec![2, 1]));
    assert_eq!(excluded(&loaded, &token_key()), Some(vec![1]));
}

#[test]
fn unreadable_files_are_skipped() {
    let loaded = load(Some(vec![0, 1, 0, 2, 0]));
    assert_eq!(excluded(&loaded, &token_key()), Some(vec![4]));
    assert_eq!(excluded(&loaded, &Pubkey::new_from_array([0; 32])), Some(vec![2]));
}

#[test]
fn files_are_read_once_and_in_order() {
    let asked = RefCell::new(Vec::new());
    let read = |path: &u8| {
        asked.borrow_mut().push(*path);
        read_file(path)
    };
    let mut reader = ConfigReader::new(read);
    assert!(load_datum_program_inclusions(&None, &mut reader).is_ok());
    assert!(asked.borrow().is_empty());
    assert!(load_datum_program_inclusions(&Some(vec![2, 0, 1, 2]), &mut reader).is_ok());
    assert_eq!(*asked.borrow(), vec![2, 0, 1, 2]);
}

#[test]
fn bad_text_stops_the_loading() {
    let asked = RefCell::new(Vec::new());
    let read = |path: &u8| {
        asked.borrow_mut().push(*path);
        read_file(path)
    };
    let paths = Some(vec![1, 0, 3, 2]);
    let loaded = load_datum_program_inclusions(&paths, &mut ConfigReader::new(&read));
    assert_eq!(loaded.err(), Some(BadPubkey { file: 2, entry: 1 }));
    assert_eq!(asked.into_inner(), vec![1, 0, 3]);
}
