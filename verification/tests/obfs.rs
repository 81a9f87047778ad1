use bytehub::handshake::OBFS_KEY;
use bytehub::obfs::{
    compute_garbage_len, consume_dynamic_obfs_v2, generate_dynamic_obfs_v2, generate_seeded,
    generate_with, keyed_hash_tag, ObfsError, HEADER_LEN,
};
use bytehub::rng::SimpleRng;

#[test]
fn generator_draws_the_upper_half_of_its_state() {
    let mut rng = SimpleRng::from_seed(1);
    assert_eq!(rng.next_bytes(5), vec![45, 207, 70, 41, 4]);
    let mut rng = SimpleRng::from_seed(0);
    assert_eq!([rng.next_byte(), rng.next_byte(), rng.next_byte()], [0, 45, 207]);
    let mut rng = SimpleRng::from_seed(42);
    assert_eq!([rng.next_range(10, 20), rng.next_range(10, 20), rng.next_range(10, 20)], [12, 14, 18]);
    assert_eq!(rng.next_range(7, 7), 7);
}

#[test]
fn bytes_in_one_go_or_one_by_one() {
    let mut one = SimpleRng::from_seed(99);
    let mut other = SimpleRng::from_seed(99);
    let mut drawn: Vec<u8> = one.next_bytes(3);
    drawn.extend(one.next_bytes(4));
    let singly: Vec<u8> = (0..7).map(|_| other.next_byte()).collect();
    assert_eq!(drawn, singly);
    assert_eq!(one.next_byte(), other.next_byte());
}

#[test]
fn clock_reading_seeds_by_its_lower_half() {
    assert!(SimpleRng::from_clock(None).is_none());
    let mut whole = SimpleRng::from_clock(Some((5u128 << 64) + 1)).unwrap();
    let mut low = SimpleRng::from_seed(1);
    assert_eq!(whole.next_bytes(8), low.next_bytes(8));
}

#[test]
fn system_clock_gives_a_generator() {
    assert!(SimpleRng::new().is_some());
}

#[test]
fn documented_length_codes() {
    assert_eq!(compute_garbage_len(b"q12"), 712);
    assert_eq!(compute_garbage_len(b"zzy"), 665);
    assert_eq!(compute_garbage_len(b"00a"), 1);
    assert_eq!(compute_garbage_len(b"00j"), 0);
    assert_eq!(compute_garbage_len(b"00t"), 0);
    assert_eq!(compute_garbage_len(b"00z"), 6);
}

#[test]
fn length_code_skips_other_bytes_and_takes_the_last_three() {
    assert_eq!(compute_garbage_len(b"9Aq\xff1/:`{2\x00"), 712);
    assert_eq!(compute_garbage_len(b"abcdefghij"), 890);
    assert_eq!(compute_garbage_len(b"999"), 999);
    assert_eq!(compute_garbage_len(b"000"), 0);
}

#[test]
fn tags() {
    assert_eq!(keyed_hash_tag(b"abc", b"key"), [75, 246, 213, 198]);
    assert_eq!(keyed_hash_tag(b"", b""), [57, 123, 58, 22]);
    assert_eq!(keyed_hash_tag(b"", b"a"), [154, 160, 250, 134]);
    // The key is taken in before the data, with nothing between them.
    assert_eq!(keyed_hash_tag(b"a", b""), keyed_hash_tag(b"", b"a"));
}

#[test]
fn prefix_of_a_seed_that_suits_at_once() {
    let mut rng = SimpleRng::from_seed(1127);
    let prefix: Vec<u8> = generate_with(&mut rng, OBFS_KEY.as_bytes());
    let header: [u8; 14] = [14, 27, 7, 122, 51, 85, 50, 246, 227, 183, 11, 190, 210, 199];
    assert_eq!(prefix.len(), HEADER_LEN + 229);
    assert_eq!(prefix[..14], header);
    assert_eq!(prefix[14..18], [84, 157, 9, 224]);
    assert_eq!(consume_dynamic_obfs_v2(&header, OBFS_KEY), Ok(229));
    let mut after = SimpleRng::from_seed(1111409867100513422);
    assert_eq!(rng.next_bytes(6), after.next_bytes(6));
}

#[test]
fn prefix_of_a_seed_that_fails_first() {
    let mut rng = SimpleRng::from_seed(0);
    let prefix: Vec<u8> = generate_with(&mut rng, OBFS_KEY.as_bytes());
    let header: [u8; 14] = [163, 182, 38, 20, 2, 7, 75, 124, 223, 57, 109, 243, 46, 233];
    assert_eq!(prefix.len(), HEADER_LEN + 708);
    assert_eq!(prefix[..14], header);
    assert_eq!(prefix[14..18], [27, 163, 42, 130]);
    assert_eq!(consume_dynamic_obfs_v2(&header, OBFS_KEY), Ok(708));
}

#[test]
fn prefix_without_garbage() {
    let mut rng = SimpleRng::from_seed(506);
    let prefix: Vec<u8> = generate_with(&mut rng, b"k");
    assert_eq!(prefix.len(), HEADER_LEN);
    assert_eq!(consume_dynamic_obfs_v2(&prefix, "k"), Ok(0));
}

#[test]
fn receiver_strips_what_the_sender_adds() {
    for seed in 0u64..500 {
        let mut rng = SimpleRng::from_seed(seed);
        let prefix: Vec<u8> = generate_with(&mut rng, "ключ".as_bytes());
        let garbage: usize = consume_dynamic_obfs_v2(&prefix[..14], "ключ").unwrap();
        assert_eq!(prefix.len(), HEADER_LEN + garbage);
        assert!(garbage <= 999);
    }
}

#[test]
fn clock_reading_fixes_the_prefix() {
    let reading: u128 = (9u128 << 64) + 1127;
    let prefix: Vec<u8> = generate_seeded(SimpleRng::from_clock(Some(reading)), OBFS_KEY).unwrap();
    let header: [u8; 14] = [14, 27, 7, 122, 51, 85, 50, 246, 227, 183, 11, 190, 210, 199];
    assert_eq!(prefix[..14], header);
    assert_eq!(prefix.len(), HEADER_LEN + 229);
    assert_eq!(generate_seeded(SimpleRng::from_clock(None), OBFS_KEY), None);
}

#[test]
fn prefix_from_the_clock_is_accepted() {
    let prefix: Vec<u8> = generate_dynamic_obfs_v2(OBFS_KEY).unwrap();
    let garbage: usize = consume_dynamic_obfs_v2(&prefix[..14], OBFS_KEY).unwrap();
    assert_eq!(prefix.len(), HEADER_LEN + garbage);
}

#[test]
fn header_with_a_changed_byte_is_turned_down() {
    let mut rng = SimpleRng::from_seed(3036);
    let prefix: Vec<u8> = generate_with(&mut rng, OBFS_KEY.as_bytes());
    for i in 0usize..14 {
        let mut header: Vec<u8> = prefix[..14].to_vec();
        header[i] ^= 1;
        assert_eq!(consume_dynamic_obfs_v2(&header, OBFS_KEY), Err(ObfsError::ActiveProbe));
    }
}

#[test]
fn header_under_another_key_is_turned_down() {
    let mut rng = SimpleRng::from_seed(3036);
    let prefix: Vec<u8> = generate_with(&mut rng, b"another key");
    assert_eq!(consume_dynamic_obfs_v2(&prefix[..14], OBFS_KEY), Err(ObfsError::ActiveProbe));
}

#[test]
fn right_tag_over_too_few_code_bytes_is_turned_down() {
    let key: &[u8] = OBFS_KEY.as_bytes();
    let content: [u8; 10] = [b'a', b'1', 0, 0, 0, 0, 0, 0, 0, 0];
    let mut header: Vec<u8> = content.to_vec();
    header.extend(keyed_hash_tag(&content, key));
    let wire: Vec<u8> = header.iter().zip(key).map(|(b, k)| b ^ k).collect();
    assert_eq!(consume_dynamic_obfs_v2(&wire, OBFS_KEY), Err(ObfsError::ActiveProbe));
    let content: [u8; 10] = [b'a', b'1', b'z', 0, 0, 0, 0, 0, 0, 0];
    let mut header: Vec<u8> = content.to_vec();
    header.extend(keyed_hash_tag(&content, key));
    let wire: Vec<u8> = header.iter().zip(key).map(|(b, k)| b ^ k).collect();
    assert_eq!(consume_dynamic_obfs_v2(&wire, OBFS_KEY), Ok(116));
}
