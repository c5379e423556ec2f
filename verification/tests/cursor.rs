use term_streamer::term_info::TermInfo;
use term_streamer::termdict::TermDictionary;

fn info(ordinal: u64) -> TermInfo {
    TermInfo {
        doc_freq: ordinal as u32 + 1,
        postings_offset: 10 * ordinal,
        positions_offset: 100 * ordinal,
        positions_inner_offset: ordinal as u8,
    }
}

fn dictionary_of(keys: &[&[u8]]) -> TermDictionary {
    let keys: Vec<Vec<u8>> = keys.iter().map(|key| key.to_vec()).collect();
    let infos: Vec<TermInfo> = (0..keys.len() as u64).map(info).collect();
    TermDictionary::new(&keys, infos).unwrap()
}

fn fruits() -> TermDictionary {
    dictionary_of(&[b"apple", b"banana", b"cherry", b"date"])
}

#[test]
fn closed_range_yields_its_two_terms_then_stays_on_the_last() {
    let dictionary = fruits();
    let mut cursor = dictionary.range().ge(b"banana").le(b"cherry").into_stream();
    assert!(cursor.advance());
    assert_eq!(cursor.key(), b"banana");
    assert_eq!(cursor.term_ord(), 1);
    assert_eq!(*cursor.value(), info(1));
    assert!(cursor.advance());
    assert_eq!(cursor.key(), b"cherry");
    assert_eq!(cursor.term_ord(), 2);
    assert_eq!(*cursor.value(), info(2));
    assert!(!cursor.advance());
    assert_eq!(cursor.key(), b"cherry");
    assert_eq!(cursor.term_ord(), 2);
    assert_eq!(*cursor.value(), info(2));
}

#[test]
fn unbounded_builder_yields_every_term_in_order() {
    let dictionary = fruits();
    let mut cursor = dictionary.range().into_stream();
    let expected: [&[u8]; 4] = [b"apple", b"banana", b"cherry", b"date"];
    for (rank, key) in expected.iter().enumerate() {
        assert!(cursor.advance());
        assert_eq!(cursor.key(), *key);
        assert_eq!(cursor.term_ord(), rank as u64);
        assert_eq!(*cursor.value(), info(rank as u64));
    }
    assert!(!cursor.advance());
    assert_eq!(cursor.key(), b"date");
    assert_eq!(cursor.term_ord(), 3);
}

#[test]
fn range_above_the_last_term_yields_nothing() {
    let dictionary = fruits();
    let mut cursor = dictionary.range().gt(b"date").into_stream();
    assert!(!cursor.advance());
    assert_eq!(cursor.key(), b"");
    assert_eq!(cursor.term_ord(), 0);
    assert_eq!(*cursor.value(), TermInfo::default());
}

#[test]
fn stream_walks_the_whole_dictionary() {
    let dictionary = fruits();
    let mut cursor = dictionary.stream();
    let mut seen: Vec<(Vec<u8>, u64)> = Vec::new();
    while cursor.advance() {
        seen.push((cursor.key().to_vec(), cursor.term_ord()));
    }
    assert_eq!(
        seen,
        vec![
            (b"apple".to_vec(), 0),
            (b"banana".to_vec(), 1),
            (b"cherry".to_vec(), 2),
            (b"date".to_vec(), 3),
        ]
    );
}

#[test]
fn fresh_cursor_has_empty_key_and_default_value() {
    let dictionary = fruits();
    let cursor = dictionary.range().ge(b"banana").into_stream();
    assert!(cursor.key().is_empty());
    assert_eq!(cursor.term_ord(), 0);
    assert_eq!(
        *cursor.value(),
        TermInfo { doc_freq: 0, postings_offset: 0, positions_offset: 0, positions_inner_offset: 0 }
    );
}

#[test]
fn exhausted_cursor_stays_exhausted_and_keeps_its_term() {
    let dictionary = fruits();
    let mut cursor = dictionary.range().lt(b"banana").into_stream();
    assert!(cursor.advance());
    assert_eq!(cursor.key(), b"apple");
    for _ in 0..5 {
        assert!(!cursor.advance());
        assert_eq!(cursor.key(), b"apple");
        assert_eq!(cursor.term_ord(), 0);
        assert_eq!(*cursor.value(), info(0));
    }
    assert!(cursor.next().is_none());
    assert_eq!(cursor.key(), b"apple");
}

#[test]
fn next_returns_what_key_and_value_hold_after_advance() {
    let dictionary = fruits();
    let mut stepped = dictionary.range().ge(b"b").into_stream();
    let mut pulled = dictionary.range().ge(b"b").into_stream();
    loop {
        let advanced = stepped.advance();
        match pulled.next() {
            Some((key, value)) => {
                assert!(advanced);
                assert_eq!(key, stepped.key());
                assert_eq!(value, stepped.value());
            }
            None => {
                assert!(!advanced);
                break;
            }
        }
        assert_eq!(pulled.key(), stepped.key());
        assert_eq!(pulled.term_ord(), stepped.term_ord());
    }
    assert_eq!(stepped.key(), b"date");
    assert_eq!(pulled.key(), b"date");
}

#[test]
fn next_yields_the_pairs_of_the_range() {
    let dictionary = fruits();
    let mut cursor = dictionary.range().gt(b"apple").lt(b"date").into_stream();
    let first = cursor.next().map(|(key, value)| (key.to_vec(), *value));
    assert_eq!(first, Some((b"banana".to_vec(), info(1))));
    let second = cursor.next().map(|(key, value)| (key.to_vec(), *value));
    assert_eq!(second, Some((b"cherry".to_vec(), info(2))));
    assert!(cursor.next().is_none());
    assert_eq!(cursor.term_ord(), 2);
}

#[test]
fn cursors_over_one_dictionary_are_independent() {
    let dictionary = fruits();
    let mut low = dictionary.range().le(b"banana").into_stream();
    let mut high = dictionary.range().ge(b"cherry").into_stream();
    assert!(low.advance());
    assert!(high.advance());
    assert_eq!(low.key(), b"apple");
    assert_eq!(high.key(), b"cherry");
    assert!(low.advance());
    assert!(high.advance());
    assert_eq!(low.key(), b"banana");
    assert_eq!(high.key(), b"date");
    assert!(!low.advance());
    assert!(!high.advance());
}
