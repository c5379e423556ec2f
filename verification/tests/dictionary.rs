use term_streamer::term_info::{TermInfo, TermOrdinal};
use term_streamer::termdict::TermDictionary;

fn record(doc_freq: u32) -> TermInfo {
    TermInfo { doc_freq, postings_offset: 7, positions_offset: 9, positions_inner_offset: 3 }
}

fn keys(keys: &[&str]) -> Vec<Vec<u8>> {
    keys.iter().map(|key| key.as_bytes().to_vec()).collect()
}

#[test]
fn default_term_info_is_all_zero() {
    let info = TermInfo::default();
    assert_eq!(info.doc_freq, 0);
    assert_eq!(info.postings_offset, 0);
    assert_eq!(info.positions_offset, 0);
    assert_eq!(info.positions_inner_offset, 0);
}

#[test]
fn dictionary_finds_metadata_by_ordinal() {
    let dictionary =
        TermDictionary::new(&keys(&["one", "three", "two"]), vec![record(1), record(3), record(2)])
            .unwrap();
    assert_eq!(dictionary.num_terms(), 3);
    let middle: TermOrdinal = 1;
    assert_eq!(dictionary.term_info_from_ord(0), record(1));
    assert_eq!(dictionary.term_info_from_ord(middle), record(3));
    assert_eq!(dictionary.term_info_from_ord(2), record(2));
}

#[test]
fn ordinal_of_a_term_is_its_rank_among_the_keys() {
    let dictionary = TermDictionary::new(
        &keys(&["", "a", "aa", "b", "ba", "c"]),
        (0..6u32).map(record).collect(),
    )
    .unwrap();
    let mut cursor = dictionary.stream();
    let mut rank: u64 = 0;
    while cursor.advance() {
        assert_eq!(cursor.term_ord(), rank);
        assert_eq!(cursor.value().doc_freq, rank as u32);
        rank += 1;
    }
    assert_eq!(rank, 6);
}

#[test]
fn cursor_reports_the_metadata_of_each_ordinal() {
    let dictionary =
        TermDictionary::new(&keys(&["one", "three", "two"]), vec![record(1), record(3), record(2)])
            .unwrap();
    let mut cursor = dictionary.range().gt(b"one").into_stream();
    assert!(cursor.advance());
    assert_eq!(cursor.key(), b"three");
    assert_eq!(*cursor.value(), record(3));
    assert_eq!(*cursor.value(), dictionary.term_info_from_ord(cursor.term_ord()));
    assert!(cursor.advance());
    assert_eq!(cursor.key(), b"two");
    assert_eq!(*cursor.value(), record(2));
    assert!(!cursor.advance());
    assert_eq!(*cursor.value(), record(2));
}

#[test]
fn dictionary_is_refused_when_keys_do_not_ascend() {
    assert!(TermDictionary::new(&keys(&["b", "a"]), vec![record(0), record(1)]).is_none());
    assert!(TermDictionary::new(&keys(&["a", "c", "b"]), vec![record(0); 3]).is_none());
    assert!(TermDictionary::new(&keys(&["ab", "a"]), vec![record(0); 2]).is_none());
    assert!(TermDictionary::new(&keys(&["a", ""]), vec![record(0); 2]).is_none());
    let bytes: Vec<Vec<u8>> = vec![vec![0x80], vec![0x7f]];
    assert!(TermDictionary::new(&bytes, vec![record(0); 2]).is_none());
}

#[test]
fn dictionary_is_refused_when_a_key_occurs_twice() {
    assert!(TermDictionary::new(&keys(&["a", "a"]), vec![record(0), record(1)]).is_none());
    assert!(TermDictionary::new(&keys(&["a", "b", "b", "c"]), vec![record(0); 4]).is_none());
    assert!(TermDictionary::new(&keys(&["", ""]), vec![record(0); 2]).is_none());
}

#[test]
fn dictionary_is_refused_when_records_and_keys_differ_in_number() {
    assert!(TermDictionary::new(&keys(&["a", "b"]), vec![record(0)]).is_none());
    assert!(TermDictionary::new(&keys(&["a", "b"]), vec![record(0); 3]).is_none());
    assert!(TermDictionary::new(&keys(&["a"]), Vec::new()).is_none());
    assert!(TermDictionary::new(&keys(&[]), vec![record(0)]).is_none());
}

#[test]
fn keys_in_ascending_byte_order_are_accepted() {
    assert!(TermDictionary::new(&keys(&["a", "ab", "b"]), vec![record(0); 3]).is_some());
    assert!(TermDictionary::new(&keys(&["", "a"]), vec![record(0); 2]).is_some());
    assert!(TermDictionary::new(&keys(&[""]), vec![record(5)]).is_some());
    let bytes: Vec<Vec<u8>> = vec![vec![0x00], vec![0x7f], vec![0x80], vec![0xff], vec![0xff, 0x00]];
    assert!(TermDictionary::new(&bytes, vec![record(0); 5]).is_some());
}

#[test]
fn empty_dictionary_is_accepted() {
    let dictionary = TermDictionary::new(&Vec::new(), Vec::new()).unwrap();
    assert_eq!(dictionary.num_terms(), 0);
    let mut cursor = dictionary.stream();
    assert!(!cursor.advance());
    assert!(cursor.key().is_empty());
    assert_eq!(cursor.term_ord(), 0);
}

#[test]
fn dictionary_of_the_empty_key_alone_has_one_term() {
    let dictionary = TermDictionary::new(&keys(&[""]), vec![record(4)]).unwrap();
    assert_eq!(dictionary.num_terms(), 1);
    let mut cursor = dictionary.stream();
    assert_eq!(cursor.value().doc_freq, 0);
    assert!(cursor.advance());
    assert!(cursor.key().is_empty());
    assert_eq!(cursor.term_ord(), 0);
    assert_eq!(*cursor.value(), record(4));
    assert!(!cursor.advance());
    assert_eq!(*cursor.value(), record(4));
}

#[test]
fn large_dictionary_is_walked_in_order() {
    let names: Vec<String> = (0..2000u64).map(|rank| format!("term{:05}", rank)).collect();
    let all: Vec<Vec<u8>> = names.iter().map(|name| name.as_bytes().to_vec()).collect();
    let infos: Vec<TermInfo> = (0..2000u32).map(record).collect();
    let dictionary = TermDictionary::new(&all, infos).unwrap();
    let mut cursor = dictionary.range().ge(b"term00500").lt(b"term01500").into_stream();
    let mut expected: u64 = 500;
    let mut previous: Vec<u8> = Vec::new();
    while cursor.advance() {
        assert_eq!(cursor.term_ord(), expected);
        assert_eq!(cursor.key(), names[expected as usize].as_bytes());
        assert_eq!(cursor.value().doc_freq, expected as u32);
        assert!(previous.as_slice() < cursor.key());
        previous = cursor.key().to_vec();
        expected += 1;
    }
    assert_eq!(expected, 1500);
    assert_eq!(cursor.term_ord(), 1499);
    assert_eq!(cursor.key(), b"term01499");
}
