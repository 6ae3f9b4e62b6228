use scalable_groups::chunk::{get_chunked_data, Reassembly};

fn payload(len: usize) -> Vec<u8> {
    (0..len).map(|i| (i % 251) as u8).collect()
}

fn reassemble(bytes: &Vec<u8>, max: usize) -> Vec<u8> {
    let first = get_chunked_data(bytes, 0, max);
    let mut reader = Reassembly::start(first);
    while let Some(next) = reader.wanted() {
        let (chunk, _) = get_chunked_data(bytes, next, max);
        reader.accept(chunk);
    }
    reader.finish()
}

#[test]
fn a_payload_under_the_limit_is_one_chunk() {
    let bytes = payload(5);
    assert_eq!(get_chunked_data(&bytes, 0, 10), (bytes.clone(), (0, 0)));
    assert_eq!(get_chunked_data(&bytes, 3, 10), (bytes.clone(), (0, 0)));
}

#[test]
fn a_payload_of_exactly_the_limit_is_one_chunk_of_one() {
    let bytes = payload(10);
    assert_eq!(get_chunked_data(&bytes, 0, 10), (bytes.clone(), (0, 1)));
    assert_eq!(get_chunked_data(&bytes, 1, 10), (vec![], (1, 1)));
}

#[test]
fn chunks_are_half_open_slices_clipped_to_the_end() {
    let bytes = payload(10);
    assert_eq!(get_chunked_data(&bytes, 0, 3), (bytes[0..3].to_vec(), (0, 4)));
    assert_eq!(get_chunked_data(&bytes, 1, 3), (bytes[3..6].to_vec(), (1, 4)));
    assert_eq!(get_chunked_data(&bytes, 2, 3), (bytes[6..9].to_vec(), (2, 4)));
    assert_eq!(get_chunked_data(&bytes, 3, 3), (bytes[9..10].to_vec(), (3, 4)));
    assert_eq!(get_chunked_data(&bytes, 4, 3), (vec![], (4, 4)));
}

#[test]
fn the_total_is_rounded_up() {
    assert_eq!(get_chunked_data(&payload(9), 0, 3).1, (0, 3));
    assert_eq!(get_chunked_data(&payload(10), 0, 3).1, (0, 4));
    assert_eq!(get_chunked_data(&payload(11), 0, 3).1, (0, 4));
    assert_eq!(get_chunked_data(&payload(12), 0, 3).1, (0, 4));
    assert_eq!(get_chunked_data(&payload(5), 0, 3).1, (0, 2));
}

#[test]
fn a_chunk_far_beyond_the_end_is_empty() {
    let bytes = payload(10);
    assert_eq!(get_chunked_data(&bytes, usize::MAX, 3), (vec![], (usize::MAX, 4)));
    assert_eq!(get_chunked_data(&bytes, usize::MAX / 2, usize::MAX / 2), (bytes.clone(), (0, 0)));
}

#[test]
fn a_limit_of_zero_hands_out_nothing() {
    assert_eq!(get_chunked_data(&payload(4), 0, 0), (vec![], (0, 0)));
    assert_eq!(get_chunked_data(&payload(0), 0, 0), (vec![], (0, 0)));
}

#[test]
fn chunks_put_together_give_the_payload() {
    for len in [0usize, 1, 2, 3, 4, 5, 6, 7, 9, 10, 64, 100, 257] {
        for max in [1usize, 2, 3, 4, 5, 7, 10, 64, 1000] {
            let bytes = payload(len);
            assert_eq!(reassemble(&bytes, max), bytes, "len {} max {}", len, max);
        }
    }
}

#[test]
fn a_reader_asks_for_the_chunks_after_the_first() {
    let bytes = payload(10);
    let mut reader = Reassembly::start(get_chunked_data(&bytes, 0, 4));
    assert_eq!(reader.wanted(), Some(1));
    reader.accept(get_chunked_data(&bytes, 1, 4).0);
    assert_eq!(reader.wanted(), Some(2));
    reader.accept(get_chunked_data(&bytes, 2, 4).0);
    assert_eq!(reader.wanted(), None);
    reader.accept(vec![9, 9, 9]);
    assert_eq!(reader.finish(), bytes);
}
