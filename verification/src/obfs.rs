//! The obfuscation prefix that opens a relayed stream in either direction.
//!
//! A prefix is a header of fourteen bytes and then garbage. The header holds ten
//! random content bytes and a tag of four bytes, all of it combined with the key
//! by exclusive or. The content bytes also tell how much garbage follows: of the
//! lower-case letters and digits among them, the last three are read as decimal
//! digits, where a letter counts as the last digit of its place in the alphabet.

use vstd::prelude::*;
use vstd::utf8::encode_utf8;

use crate::cycle::blocks_reach_every_state_of_a_parity;
use crate::rng::{bytes_from, in_range, lemma_steps_add, next_state, steps, SimpleRng, MULTIPLIER};

verus! {

/// How many content bytes a header holds.
pub const CONTENT_LEN: usize = 10;

/// How many bytes a header holds.
pub const HEADER_LEN: usize = 14;

/// How many bytes of a header's content have to carry a digit.
pub const MIN_CODE: usize = 3;

/// The offset basis of the 32-bit FNV-1a hash.
pub const FNV_OFFSET: u32 = 0x811c_9dc5;

/// The prime of the 32-bit FNV-1a hash.
pub const FNV_PRIME: u32 = 0x0100_0193;

/// The factor of the final mixing.
pub const MIX_FACTOR: u32 = 0x45d_9f3b;

// ---------------------------------------------------------------------------
// The length code
// ---------------------------------------------------------------------------

/// Whether a byte carries a digit: a lower-case letter or a decimal digit.
pub open spec fn carries_digit(b: u8) -> bool {
    97 <= b <= 122 || 48 <= b <= 57
}

/// The bytes of `raw` that carry a digit, in order.
pub open spec fn code_bytes(raw: Seq<u8>) -> Seq<u8> {
    raw.filter(|b: u8| carries_digit(b))
}

/// The digit that a byte carries: a decimal digit stands for itself, a letter
/// for the last digit of its place in the alphabet.
pub open spec fn digit_of(b: u8) -> int {
    if 48 <= b <= 57 {
        b - 48
    } else {
        (b - 97 + 1) % 10
    }
}

/// The number whose decimal digits the last three code bytes of `raw` carry.
pub open spec fn coded_len(raw: Seq<u8>) -> int {
    let code = code_bytes(raw);
    let n = code.len() as int;
    100 * digit_of(code[n - 3]) + 10 * digit_of(code[n - 2]) + digit_of(code[n - 1])
}

/// Tells whether a byte carries a digit.
fn is_code_byte(b: u8) -> (yes: bool)
    ensures
        yes == carries_digit(b),
{
    (97 <= b && b <= 122) || (48 <= b && b <= 57)
}

/// Collects the bytes of `raw` that carry a digit.
fn collect_code_bytes(raw: &[u8]) -> (code: Vec<u8>)
    ensures
        code@ == code_bytes(raw@),
{
    let mut code: Vec<u8> = Vec::new();
    let ghost pred = |b: u8| carries_digit(b);
    for i in 0..raw.len()
        invariant
            pred == (|b: u8| carries_digit(b)),
            code@ == raw@.take(i as int).filter(pred),
    {
        let b: u8 = raw[i];
        proof {
            let longer = raw@.take(i as int + 1);
            assert(longer.drop_last() =~= raw@.take(i as int));
            assert(longer.last() == b);
            reveal(Seq::filter);
        }
        if is_code_byte(b) {
            code.push(b);
        }
    }
    assert(raw@.take(raw@.len() as int) =~= raw@);
    code
}

/// The digit that a code byte carries.
fn code_digit(b: u8) -> (digit: usize)
    requires
        carries_digit(b),
    ensures
        digit == digit_of(b),
        digit <= 9,
{
    if 48 <= b && b <= 57 {
        (b - 48) as usize
    } else {
        ((b - 97 + 1) % 10) as usize
    }
}

/// The bytes of a sequence that carry a digit all carry one.
proof fn lemma_code_bytes(raw: Seq<u8>)
    ensures
        forall|i: int|
            0 <= i < code_bytes(raw).len() ==> carries_digit(#[trigger] code_bytes(raw)[i]),
{
    broadcast use vstd::seq_lib::group_filter_ensures;

    let pred = |b: u8| carries_digit(b);
    assert forall|i: int| 0 <= i < code_bytes(raw).len() implies carries_digit(
        #[trigger] code_bytes(raw)[i],
    ) by {
        assert(pred(raw.filter(pred)[i]));
    }
}

/// How much garbage follows a header with the content `raw`.
///
/// The content has to hold three bytes that carry a digit.
pub fn compute_garbage_len(raw: &[u8]) -> (len: usize)
    requires
        code_bytes(raw@).len() >= MIN_CODE,
    ensures
        len == coded_len(raw@),
        len <= 999,
{
    let code: Vec<u8> = collect_code_bytes(raw);
    proof {
        lemma_code_bytes(raw@);
    }
    let n: usize = code.len();
    code_digit(code[n - 3]) * 100 + code_digit(code[n - 2]) * 10 + code_digit(code[n - 1])
}

// ---------------------------------------------------------------------------
// The tag
// ---------------------------------------------------------------------------

/// One round of FNV-1a.
pub open spec fn fnv_round(h: u32, b: u8) -> u32 {
    ((h ^ (b as u32)) * FNV_PRIME % 0x1_0000_0000) as u32
}

/// The rounds of FNV-1a over `bytes`, from `h` on.
pub open spec fn fnv_rounds(h: u32, bytes: Seq<u8>) -> u32
    decreases bytes.len(),
{
    if bytes.len() == 0 {
        h
    } else {
        fnv_round(fnv_rounds(h, bytes.drop_last()), bytes.last())
    }
}

/// The final mixing.
pub open spec fn final_mix(h: u32) -> u32 {
    let folded = h ^ (h >> 16);
    let spread = (folded * MIX_FACTOR % 0x1_0000_0000) as u32;
    spread ^ (spread >> 16)
}

/// The four bytes of `h`, lowest first.
pub open spec fn le_bytes(h: u32) -> Seq<u8> {
    seq![
        (h % 256) as u8,
        (h / 256 % 256) as u8,
        (h / 65536 % 256) as u8,
        (h / 16777216) as u8,
    ]
}

/// The tag of `data` under `key`: FNV-1a over the key and then the data, mixed
/// once more, lowest byte first.
pub open spec fn tag_of(data: Seq<u8>, key: Seq<u8>) -> Seq<u8> {
    le_bytes(final_mix(fnv_rounds(fnv_rounds(FNV_OFFSET, key), data)))
}

/// Runs the rounds of FNV-1a over `bytes`.
fn fnv_absorb(h: u32, bytes: &[u8]) -> (out: u32)
    ensures
        out == fnv_rounds(h, bytes@),
{
    let mut out: u32 = h;
    for i in 0..bytes.len()
        invariant
            out == fnv_rounds(h, bytes@.take(i as int)),
    {
        proof {
            let longer = bytes@.take(i as int + 1);
            assert(longer.drop_last() =~= bytes@.take(i as int));
            assert(longer.last() == bytes@[i as int]);
        }
        out = (out ^ (bytes[i] as u32)).wrapping_mul(FNV_PRIME);
    }
    assert(bytes@.take(bytes@.len() as int) =~= bytes@);
    out
}

/// The authentication tag of `data` under `key`.
pub fn keyed_hash_tag(data: &[u8], key: &[u8]) -> (tag: [u8; 4])
    ensures
        tag@ == tag_of(data@, key@),
{
    let keyed: u32 = fnv_absorb(FNV_OFFSET, key);
    let hashed: u32 = fnv_absorb(keyed, data);
    let folded: u32 = hashed ^ (hashed >> 16);
    let spread: u32 = folded.wrapping_mul(MIX_FACTOR);
    let h: u32 = spread ^ (spread >> 16);
    assert(h == final_mix(hashed));
    let tag: [u8; 4] = [
        (h % 256) as u8,
        (h / 256 % 256) as u8,
        (h / 65536 % 256) as u8,
        (h / 16777216) as u8,
    ];
    assert(tag@ =~= le_bytes(h));
    tag
}

// ---------------------------------------------------------------------------
// The prefix
// ---------------------------------------------------------------------------

/// `bytes` combined with the key by exclusive or, the key repeated as needed.
pub open spec fn xor_key(bytes: Seq<u8>, key: Seq<u8>) -> Seq<u8> {
    Seq::new(bytes.len(), |i: int| bytes[i] ^ key[i % key.len() as int])
}

/// The header with the content `content`: the content and its tag, combined with
/// the key.
pub open spec fn header_of(content: Seq<u8>, key: Seq<u8>) -> Seq<u8> {
    xor_key(content + tag_of(content, key), key)
}

/// Whether the next ten bytes from `state` on can be the content of a header.
pub open spec fn suits(state: u64) -> bool {
    code_bytes(bytes_from(state, CONTENT_LEN as nat)).len() >= MIN_CODE
}

/// Whether a search that draws ten bytes at a time from `state` on comes to an
/// end after `n` failures.
pub open spec fn fails_first(state: u64, n: nat) -> bool {
    &&& suits(steps(state, CONTENT_LEN as nat * n))
    &&& forall|m: nat| m < n ==> !suits(#[trigger] steps(state, CONTENT_LEN as nat * m))
}

/// The state before the first ten bytes that suit, when ten bytes at a time are
/// drawn from `state` on.
pub open spec fn suiting_state(state: u64) -> u64 {
    steps(state, CONTENT_LEN as nat * choose|n: nat| fails_first(state, n))
}

/// The content of the header that a generator in state `state` makes.
pub open spec fn content_from(state: u64) -> Seq<u8> {
    bytes_from(suiting_state(state), CONTENT_LEN as nat)
}

/// The garbage that a generator in state `state` puts behind its header.
pub open spec fn garbage_from(state: u64) -> Seq<u8> {
    bytes_from(
        steps(suiting_state(state), CONTENT_LEN as nat),
        coded_len(content_from(state)) as nat,
    )
}

/// The prefix that a generator in state `state` makes under `key`.
pub open spec fn prefix_from(state: u64, key: Seq<u8>) -> Seq<u8> {
    header_of(content_from(state), key) + garbage_from(state)
}

/// A state suits from which the first three bytes drawn carry digits.
proof fn lemma_example(x: u64, y1: u64, y2: u64, y3: u64)
    requires
        next_state(x) == y1,
        next_state(y1) == y2,
        next_state(y2) == y3,
        carries_digit(in_range(y1, 0, 255) as u8),
        carries_digit(in_range(y2, 0, 255) as u8),
        carries_digit(in_range(y3, 0, 255) as u8),
    ensures
        suits(x),
{
    reveal_with_fuel(steps, 4);
    assert(steps(x, 1) == y1);
    assert(steps(x, 2) == y2);
    assert(steps(x, 3) == y3);
    lemma_three_code_bytes(bytes_from(x, CONTENT_LEN as nat));
}

/// An even state from which the first three bytes drawn are a digit and two
/// letters.
proof fn lemma_even_example()
    ensures
        suits(3036),
{
    assert(next_state(3036) == 7776530424963021229u64) by {
        assert(3036 * MULTIPLIER + 1 == 7776530424963021229 + 0x1_0000_0000_0000_0000 * 1047);
    }
    assert(next_state(7776530424963021229) == 2740463977598809706u64) by {
        assert(7776530424963021229 * MULTIPLIER + 1 == 2740463977598809706 + 0x1_0000_0000_0000_0000 * 2682907009258543715);
    }
    assert(next_state(2740463977598809706) == 7567256213983258275u64) by {
        assert(2740463977598809706 * MULTIPLIER + 1 == 7567256213983258275 + 0x1_0000_0000_0000_0000 * 945461486335708291);
    }
    assert(in_range(7776530424963021229, 0, 255) == 56) by {
        assert(7776530424963021229int / 0x1_0000_0000 == 1810614584);
        assert(1810614584int % 256 == 56);
    }
    assert(in_range(2740463977598809706, 0, 255) == 119) by {
        assert(2740463977598809706int / 0x1_0000_0000 == 638063991);
        assert(638063991int % 256 == 119);
    }
    assert(in_range(7567256213983258275, 0, 255) == 110) by {
        assert(7567256213983258275int / 0x1_0000_0000 == 1761889134);
        assert(1761889134int % 256 == 110);
    }
    lemma_example(3036, 7776530424963021229, 2740463977598809706, 7567256213983258275);
}

/// An odd state from which the first three bytes drawn are letters.
proof fn lemma_odd_example()
    ensures
        suits(1127),
{
    assert(next_state(1127) == 15044823676029689628u64) by {
        assert(1127 * MULTIPLIER + 1 == 15044823676029689628 + 0x1_0000_0000_0000_0000 * 388);
    }
    assert(next_state(15044823676029689628) == 15360341688910093293u64) by {
        assert(15044823676029689628 * MULTIPLIER + 1 == 15360341688910093293 + 0x1_0000_0000_0000_0000 * 5190471931275300253);
    }
    assert(next_state(15360341688910093293) == 4692143277048888234u64) by {
        assert(15360341688910093293 * MULTIPLIER + 1 == 4692143277048888234 + 0x1_0000_0000_0000_0000 * 5299325808524573377);
    }
    assert(in_range(15044823676029689628, 0, 255) == 108) by {
        assert(15044823676029689628int / 0x1_0000_0000 == 3502895980);
        assert(3502895980int % 256 == 108);
    }
    assert(in_range(15360341688910093293, 0, 255) == 98) by {
        assert(15360341688910093293int / 0x1_0000_0000 == 3576358242);
        assert(3576358242int % 256 == 98);
    }
    assert(in_range(4692143277048888234, 0, 255) == 115) by {
        assert(4692143277048888234int / 0x1_0000_0000 == 1092474739);
        assert(1092474739int % 256 == 115);
    }
    lemma_example(1127, 15044823676029689628, 15360341688910093293, 4692143277048888234);
}

/// Three code bytes in front are three code bytes.
proof fn lemma_three_code_bytes(raw: Seq<u8>)
    requires
        raw.len() >= 3,
        carries_digit(raw[0]),
        carries_digit(raw[1]),
        carries_digit(raw[2]),
    ensures
        code_bytes(raw).len() >= 3,
{
    let pred = |b: u8| carries_digit(b);
    let front = raw.take(3);
    assert(front + raw.skip(3) =~= raw);
    Seq::filter_distributes_over_add(front, raw.skip(3), pred);
    assert(front =~= seq![raw[0]].push(raw[1]).push(raw[2]));
    reveal(Seq::filter);
    reveal_with_fuel(Seq::filter, 4);
    assert(front.drop_last() =~= seq![raw[0]].push(raw[1]));
    assert(front.drop_last().drop_last() =~= seq![raw[0]]);
    assert(seq![raw[0]].drop_last() =~= Seq::<u8>::empty());
}

/// Whatever the seed, the search for the content of a header comes to an end.
pub proof fn search_ends(state: u64)
    ensures
        exists|n: nat| fails_first(state, n),
{
    let goal: u64 = if state % 2 == 0 { 3036 } else { 1127 };
    lemma_even_example();
    lemma_odd_example();
    let n = blocks_reach_every_state_of_a_parity(state, goal);
    lemma_least(state, n);
}

/// Where some number of failures leads to suiting bytes, a least one does.
proof fn lemma_least(state: u64, n: nat)
    requires
        suits(steps(state, CONTENT_LEN as nat * n)),
    ensures
        exists|k: nat| fails_first(state, k),
    decreases n,
{
    if exists|m: nat| m < n && suits(#[trigger] steps(state, CONTENT_LEN as nat * m)) {
        let m = choose|m: nat| m < n && suits(#[trigger] steps(state, CONTENT_LEN as nat * m));
        lemma_least(state, m);
    } else {
        assert(fails_first(state, n));
    }
}

/// Combines `bytes` with the key by exclusive or.
fn apply_key(bytes: &[u8], key: &[u8]) -> (out: Vec<u8>)
    requires
        key@.len() > 0,
    ensures
        out@ == xor_key(bytes@, key@),
{
    let mut out: Vec<u8> = Vec::with_capacity(bytes.len());
    for i in 0..bytes.len()
        invariant
            key@.len() > 0,
            out@.len() == i,
            forall|j: int|
                0 <= j < i ==> #[trigger] out@[j] == bytes@[j] ^ key@[j % key@.len() as int],
    {
        out.push(bytes[i] ^ key[i % key.len()]);
    }
    assert(out@ =~= xor_key(bytes@, key@));
    out
}

/// Draws ten bytes at a time until they can be the content of a header.
fn draw_content(rng: &mut SimpleRng) -> (content: Vec<u8>)
    ensures
        content@ == content_from(old(rng)@),
        final(rng)@ == steps(suiting_state(old(rng)@), CONTENT_LEN as nat),
        code_bytes(content@).len() >= MIN_CODE,
{
    let ghost start = rng@;
    proof {
        search_ends(start);
    }
    let ghost total = choose|n: nat| fails_first(start, n);
    let ghost mut failed: nat = 0;
    loop
        invariant
            start == old(rng)@,
            total == choose|n: nat| fails_first(start, n),
            fails_first(start, total),
            failed <= total,
            rng@ == steps(start, CONTENT_LEN as nat * failed),
        decreases total - failed,
    {
        let content: Vec<u8> = rng.next_bytes(CONTENT_LEN);
        let code: Vec<u8> = collect_code_bytes(content.as_slice());
        if code.len() >= MIN_CODE {
            proof {
                if failed < total {
                    assert(!suits(steps(start, CONTENT_LEN as nat * failed)));
                }
            }
            return content;
        }
        proof {
            assert(failed != total);
            lemma_steps_add(start, CONTENT_LEN as nat * failed, CONTENT_LEN as nat);
            failed = failed + 1;
        }
    }
}

/// Makes a prefix under `key` with the bytes that `rng` draws.
pub fn generate_with(rng: &mut SimpleRng, key: &[u8]) -> (prefix: Vec<u8>)
    requires
        key@.len() > 0,
    ensures
        prefix@ == prefix_from(old(rng)@, key@),
        final(rng)@ == steps(
            suiting_state(old(rng)@),
            CONTENT_LEN as nat + garbage_from(old(rng)@).len(),
        ),
{
    let ghost start = rng@;
    let mut header: Vec<u8> = draw_content(rng);
    let ghost content = header@;
    let garbage_len: usize = compute_garbage_len(header.as_slice());
    let tag: [u8; 4] = keyed_hash_tag(header.as_slice(), key);
    header.push(tag[0]);
    header.push(tag[1]);
    header.push(tag[2]);
    header.push(tag[3]);
    assert(header@ =~= content + tag_of(content, key@));
    let mut prefix: Vec<u8> = apply_key(header.as_slice(), key);
    let mut garbage: Vec<u8> = rng.next_bytes(garbage_len);
    prefix.append(&mut garbage);
    proof {
        lemma_steps_add(suiting_state(start), CONTENT_LEN as nat, garbage_len as nat);
    }
    prefix
}

/// A text that is not empty has at least one byte.
pub proof fn lemma_key_bytes(key: Seq<char>)
    requires
        key.len() > 0,
    ensures
        encode_utf8(key).len() > 0,
{
    reveal_with_fuel(encode_utf8, 2);
}

/// Makes a prefix under `key` with the bytes that the generator draws, or `None`
/// where there is none because the system clock could not seed it.
///
/// The key has to hold at least one character.
pub fn generate_seeded(rng: Option<SimpleRng>, key: &str) -> (prefix: Option<Vec<u8>>)
    requires
        key@.len() > 0,
    ensures
        prefix is Some <==> rng is Some,
        prefix matches Some(made) ==> made@ == prefix_from(rng->0@, encode_utf8(key@)),
{
    proof {
        lemma_key_bytes(key@);
    }
    match rng {
        Some(mut seeded) => Some(generate_with(&mut seeded, key.as_bytes())),
        None => None,
    }
}

/// Whether `prefix` is what the clock reading `reading` leads to under `key`: the
/// prefix whose seed is the lower 64 bits of the reading, or `None` where the clock
/// stands before the Unix epoch and there is no reading.
pub open spec fn made_at(reading: Option<u128>, key: Seq<u8>, prefix: Option<Vec<u8>>) -> bool {
    match reading {
        Some(nanos) => prefix is Some && prefix->0@ == prefix_from(
            (nanos % 0x1_0000_0000_0000_0000) as u64,
            key,
        ),
        None => prefix is None,
    }
}

/// Makes a prefix under `key` from random bytes, or `None` where the system
/// clock, which seeds them, stands before the Unix epoch. Which of the two comes,
/// and from which seed, is up to the clock; [`generate_seeded`] says what every
/// outcome of the seeding leads to.
///
/// The key has to hold at least one character.
pub fn generate_dynamic_obfs_v2(key: &str) -> (prefix: Option<Vec<u8>>)
    requires
        key@.len() > 0,
    ensures
        exists|reading: Option<u128>| #[trigger] made_at(reading, encode_utf8(key@), prefix),
        prefix matches Some(made) ==> exists|seed: u64| made@ == #[trigger] prefix_from(seed, encode_utf8(key@)),
{
    let rng: Option<SimpleRng> = SimpleRng::new();
    let ghost reading = choose|reading: Option<u128>| #[trigger] SimpleRng::seeded_by(reading, rng);
    let prefix: Option<Vec<u8>> = generate_seeded(rng, key);
    assert(made_at(reading, encode_utf8(key@), prefix));
    prefix
}

// ---------------------------------------------------------------------------
// Reading a prefix
// ---------------------------------------------------------------------------

/// Why a header is turned down.
#[derive(Debug, Clone, Copy, PartialEq, Eq, Structural)]
pub enum ObfsError {
    /// The header does not authenticate: whoever sent it does not hold the key.
    ActiveProbe,
}

/// How many seconds pass before a stream with a bad header is dropped.
pub const PROBE_DELAY_SECS: u64 = 3;

/// What a header says: how much garbage follows, if its tag is right and its
/// content holds three bytes that carry a digit.
pub open spec fn read_header(header: Seq<u8>, key: Seq<u8>) -> Result<int, ObfsError> {
    let plain = xor_key(header, key);
    let content = plain.take(CONTENT_LEN as int);
    if plain.skip(CONTENT_LEN as int) == tag_of(content, key) && code_bytes(content).len() >= MIN_CODE {
        Ok(coded_len(content))
    } else {
        Err(ObfsError::ActiveProbe)
    }
}

/// Checks the header of a prefix and tells how many bytes of garbage to drop
/// after it.
pub fn consume_dynamic_obfs_v2(header: &[u8], key: &str) -> (garbage: Result<usize, ObfsError>)
    requires
        header@.len() == HEADER_LEN,
        key@.len() > 0,
    ensures
        garbage is Ok <==> read_header(header@, encode_utf8(key@)) is Ok,
        garbage matches Ok(len) ==> len == read_header(header@, encode_utf8(key@))->Ok_0 && len <= 999,
        garbage matches Err(e) ==> e == ObfsError::ActiveProbe,
{
    proof {
        lemma_key_bytes(key@);
    }
    let key_bytes: &[u8] = key.as_bytes();
    let plain: Vec<u8> = apply_key(header, key_bytes);
    let content: &[u8] = vstd::slice::slice_subrange(plain.as_slice(), 0, CONTENT_LEN);
    assert(content@ =~= plain@.take(CONTENT_LEN as int));
    let expected: [u8; 4] = keyed_hash_tag(content, key_bytes);
    let ghost found = plain@.skip(CONTENT_LEN as int);
    assert(expected@.len() == 4 && found.len() == 4);
    if plain[10] != expected[0] || plain[11] != expected[1] || plain[12] != expected[2] || plain[13]
        != expected[3] {
        assert(found[0] != expected@[0] || found[1] != expected@[1] || found[2] != expected@[2]
            || found[3] != expected@[3]);
        return Err(ObfsError::ActiveProbe);
    }
    assert(found =~= expected@);
    let code: Vec<u8> = collect_code_bytes(content);
    if code.len() < MIN_CODE {
        return Err(ObfsError::ActiveProbe);
    }
    Ok(compute_garbage_len(content))
}

/// What is left of `stream` once a prefix is read off its front, or `None` where
/// the stream ends too early or its header is turned down.
pub open spec fn strip_prefix(stream: Seq<u8>, key: Seq<u8>) -> Option<Seq<u8>> {
    if stream.len() < HEADER_LEN {
        None
    } else {
        match read_header(stream.take(HEADER_LEN as int), key) {
            Ok(garbage) => if stream.len() < HEADER_LEN + garbage {
                None
            } else {
                Some(stream.skip(HEADER_LEN + garbage))
            },
            Err(_) => None,
        }
    }
}

/// Combining with the key twice changes nothing.
pub proof fn xor_key_undoes_itself(bytes: Seq<u8>, key: Seq<u8>)
    requires
        key.len() > 0,
    ensures
        xor_key(xor_key(bytes, key), key) == bytes,
{
    let once = xor_key(bytes, key);
    assert forall|i: int| 0 <= i < bytes.len() implies xor_key(once, key)[i] == bytes[i] by {
        let b = bytes[i];
        let k = key[i % key.len() as int];
        assert((b ^ k) ^ k == b) by (bit_vector);
    }
    assert(xor_key(once, key) =~= bytes);
}

/// A header is accepted exactly where a sender with the same key made it from a
/// content with three bytes that carry a digit, and it then tells the length
/// that the content codes.
pub proof fn accepted_headers_are_the_made_ones(header: Seq<u8>, key: Seq<u8>)
    requires
        header.len() == HEADER_LEN,
        key.len() > 0,
    ensures
        read_header(header, key) is Ok <==> exists|content: Seq<u8>|
            content.len() == CONTENT_LEN && code_bytes(content).len() >= MIN_CODE && header
                == #[trigger] header_of(content, key),
        forall|content: Seq<u8>|
            content.len() == CONTENT_LEN && code_bytes(content).len() >= MIN_CODE && header
                == #[trigger] header_of(content, key) ==> read_header(header, key) == Ok::<int, ObfsError>(
                coded_len(content),
            ),
{
    let plain = xor_key(header, key);
    let front = plain.take(CONTENT_LEN as int);
    assert forall|content: Seq<u8>|
        content.len() == CONTENT_LEN && code_bytes(content).len() >= MIN_CODE && header
            == #[trigger] header_of(content, key) implies read_header(header, key) == Ok::<
        int,
        ObfsError,
    >(coded_len(content)) by {
        let whole = content + tag_of(content, key);
        xor_key_undoes_itself(whole, key);
        assert(plain == whole);
        assert(front =~= content);
        assert(plain.skip(CONTENT_LEN as int) =~= tag_of(content, key));
    }
    if read_header(header, key) is Ok {
        xor_key_undoes_itself(header, key);
        assert(front + tag_of(front, key) =~= plain);
        assert(header == header_of(front, key));
    }
}

/// What a sender puts in front of a stream, a receiver with the same key takes
/// off again, and nothing else.
pub proof fn receiver_strips_what_sender_adds(state: u64, key: Seq<u8>, rest: Seq<u8>)
    requires
        key.len() > 0,
    ensures
        strip_prefix(prefix_from(state, key) + rest, key) == Some(rest),
{
    search_ends(state);
    let content = content_from(state);
    let header = header_of(content, key);
    let garbage = garbage_from(state);
    let stream = prefix_from(state, key) + rest;
    lemma_coded_len_range(content);
    assert(garbage.len() == coded_len(content));
    assert(stream.take(HEADER_LEN as int) =~= header);
    accepted_headers_are_the_made_ones(header, key);
    assert(read_header(header, key) == Ok::<int, ObfsError>(coded_len(content)));
    assert(stream.skip(HEADER_LEN + coded_len(content)) =~= rest);
}

/// The coded length has at most three digits.
pub proof fn lemma_coded_len_range(content: Seq<u8>)
    requires
        code_bytes(content).len() >= MIN_CODE,
    ensures
        0 <= coded_len(content) <= 999,
{
    lemma_code_bytes(content);
    let code = code_bytes(content);
    let n = code.len() as int;
    assert(carries_digit(code[n - 3]));
    assert(carries_digit(code[n - 2]));
    assert(carries_digit(code[n - 1]));
}

// ---------------------------------------------------------------------------
// What the parts of a prefix are
// ---------------------------------------------------------------------------

/// The letter at each place of the alphabet carries the last digit of that place, each
/// decimal digit carries itself, and no other byte carries a digit.
pub proof fn letters_and_digits_carry_digits(b: u8, tens: int, ones: int)
    requires
        0 <= ones <= 9,
    ensures
        1 <= 10 * tens + ones <= 26 ==> {
            &&& carries_digit((96 + 10 * tens + ones) as u8)
            &&& digit_of((96 + 10 * tens + ones) as u8) == ones
        },
        carries_digit((48 + ones) as u8),
        digit_of((48 + ones) as u8) == ones,
        carries_digit(b) ==> 1 <= b - 96 <= 26 || 0 <= b - 48 <= 9,
{
}

/// The code bytes of two rows in a row are those of the one and then of the other; a
/// single byte is a code byte or none.
pub proof fn code_bytes_keep_their_order(x: Seq<u8>, y: Seq<u8>, b: u8)
    ensures
        code_bytes(x + y) == code_bytes(x) + code_bytes(y),
        carries_digit(b) ==> code_bytes(seq![b]) == seq![b],
        !carries_digit(b) ==> code_bytes(seq![b]) == Seq::<u8>::empty(),
        code_bytes(Seq::<u8>::empty()) == Seq::<u8>::empty(),
{
    let pred = |b: u8| carries_digit(b);
    Seq::filter_distributes_over_add(x, y, pred);
    reveal(Seq::filter);
    reveal_with_fuel(Seq::filter, 2);
    assert(seq![b].drop_last() =~= Seq::<u8>::empty());
    assert(code_bytes(seq![b]) =~= if carries_digit(b) {
        seq![b]
    } else {
        Seq::<u8>::empty()
    });
}

/// The length that a content codes is written by the digits of its last three code
/// bytes: hundreds, tens and ones, whatever comes before them.
pub proof fn length_is_written_by_last_three(raw: Seq<u8>, front: Seq<u8>, a: u8, b: u8, c: u8)
    requires
        code_bytes(raw) == front + seq![a, b, c],
    ensures
        coded_len(raw) / 100 == digit_of(a),
        coded_len(raw) / 10 % 10 == digit_of(b),
        coded_len(raw) % 10 == digit_of(c),
{
    lemma_code_bytes(raw);
    let code = code_bytes(raw);
    let n = front.len() as int;
    assert(code[n] == a && code[n + 1] == b && code[n + 2] == c);
    assert(carries_digit(code[n]) && carries_digit(code[n + 1]) && carries_digit(code[n + 2]));
}

/// The hash takes in bytes one after the other: each is combined by exclusive or and
/// then multiplied by the prime, modulo 2^32.
pub proof fn hash_takes_bytes_in_turn(h: u32, x: Seq<u8>, y: Seq<u8>, b: u8)
    ensures
        fnv_rounds(h, Seq::<u8>::empty()) == h,
        fnv_rounds(h, seq![b]) == ((h ^ (b as u32)) * 16777619) % 0x1_0000_0000,
        fnv_rounds(h, x + y) == fnv_rounds(fnv_rounds(h, x), y),
    decreases y.len(),
{
    reveal_with_fuel(fnv_rounds, 2);
    assert(seq![b].drop_last() =~= Seq::<u8>::empty());
    if y.len() == 0 {
        assert(x + y =~= x);
    } else {
        hash_takes_bytes_in_turn(h, x, y.drop_last(), b);
        assert((x + y).drop_last() =~= x + y.drop_last());
        assert((x + y).last() == y.last());
    }
}

/// The final mixing folds the upper half of the hash onto the lower one, multiplies by
/// its factor modulo 2^32, and folds once more.
pub proof fn mixing_folds_twice(h: u32, folded: u32, spread: u32)
    requires
        folded == h ^ (h >> 16),
        spread == (folded * 73244475) % 0x1_0000_0000,
    ensures
        final_mix(h) == spread ^ (spread >> 16),
{
}

/// Four bytes write a number, lowest byte first.
pub proof fn four_bytes_write_the_number(h: u32)
    ensures
        le_bytes(h).len() == 4,
        le_bytes(h)[0] + 0x100 * le_bytes(h)[1] + 0x1_0000 * le_bytes(h)[2] + 0x100_0000
            * le_bytes(h)[3] == h,
{
    assert(h % 256 + 256 * (h / 256 % 256) + 65536 * (h / 65536 % 256) + 16777216 * (h / 16777216)
        == h && h / 16777216 < 256) by (bit_vector);
}

/// A tag is written by the mixed hash of the key and then the data, begun at the offset
/// basis; so only the two in one row count.
pub proof fn tag_writes_hash_of_key_and_data(data: Seq<u8>, key: Seq<u8>)
    ensures
        tag_of(data, key) == le_bytes(final_mix(fnv_rounds(2166136261, key + data))),
{
    hash_takes_bytes_in_turn(2166136261, key, data, 0);
}

/// Combining with a key leaves the length and changes each byte by one byte of the
/// key: the first ones by the key in order, and every further one by the byte that
/// the byte one key length before it was changed by.
pub proof fn key_repeats_along_the_bytes(bytes: Seq<u8>, key: Seq<u8>, i: int)
    requires
        key.len() > 0,
        0 <= i < bytes.len(),
    ensures
        xor_key(bytes, key).len() == bytes.len(),
        i < key.len() ==> xor_key(bytes, key)[i] ^ bytes[i] == key[i],
        i >= key.len() ==> xor_key(bytes, key)[i] ^ bytes[i] == xor_key(bytes, key)[i
            - key.len()] ^ bytes[i - key.len()],
{
    let n = key.len() as int;
    let b = bytes[i];
    let k = key[i % n];
    assert((b ^ k) ^ b == k) by (bit_vector);
    if i < n {
        vstd::arithmetic::div_mod::lemma_small_mod(i as nat, n as nat);
    } else {
        let c = bytes[i - n];
        vstd::arithmetic::div_mod::lemma_mod_multiples_vanish(1, i - n, n);
        assert((i - n) % n == i % n);
        assert((c ^ k) ^ c == k) by (bit_vector);
    }
}

/// Under its key a header is the content and then the tag of that content, fourteen
/// bytes in all for a content of ten.
pub proof fn header_is_content_and_tag(content: Seq<u8>, key: Seq<u8>)
    requires
        key.len() > 0,
    ensures
        header_of(content, key).len() == content.len() + 4,
        xor_key(header_of(content, key), key) == content + tag_of(content, key),
{
    xor_key_undoes_itself(content + tag_of(content, key), key);
}

/// The prefix of a generator: ten bytes at a time are passed over while fewer than
/// three of them carry a digit; the first ten that do not fall short are the content,
/// and the bytes right behind them the garbage, as many as the content codes.
pub proof fn prefix_uses_first_content_that_suits(state: u64, key: Seq<u8>, passed_over: nat)
    requires
        forall|m: nat|
            m < passed_over ==> code_bytes(
                bytes_from(#[trigger] steps(state, 10 * m), 10),
            ).len() < 3,
        code_bytes(bytes_from(steps(state, 10 * passed_over), 10)).len() >= 3,
    ensures
        ({
            let content = bytes_from(steps(state, 10 * passed_over), 10);
            let garbage = bytes_from(
                steps(state, 10 * passed_over + 10),
                coded_len(content) as nat,
            );
            &&& content_from(state) == content
            &&& prefix_from(state, key) == header_of(content, key) + garbage
            &&& garbage_from(state).len() == coded_len(content)
            &&& suiting_state(state) == steps(state, 10 * passed_over)
        }),
{
    assert(suits(steps(state, CONTENT_LEN as nat * passed_over)));
    assert forall|m: nat| m < passed_over implies !suits(
        #[trigger] steps(state, CONTENT_LEN as nat * m),
    ) by {
        assert(code_bytes(bytes_from(steps(state, 10 * m), 10)).len() < 3);
    }
    assert(fails_first(state, passed_over));
    let found = choose|n: nat| fails_first(state, n);
    assert(fails_first(state, found));
    if found < passed_over {
        assert(!suits(steps(state, CONTENT_LEN as nat * found)));
    }
    if passed_over < found {
        assert(!suits(steps(state, CONTENT_LEN as nat * passed_over)));
    }
    assert(found == passed_over);
    lemma_steps_add(state, 10 * passed_over, 10);
    lemma_coded_len_range(content_from(state));
}

/// From every state some number of tens, passed over because fewer than three of their
/// bytes carry a digit, leads to ten bytes that suit.
pub proof fn some_content_suits(state: u64) -> (passed_over: nat)
    ensures
        forall|m: nat|
            m < passed_over ==> code_bytes(
                bytes_from(#[trigger] steps(state, 10 * m), 10),
            ).len() < 3,
        code_bytes(bytes_from(steps(state, 10 * passed_over), 10)).len() >= 3,
{
    search_ends(state);
    let n = choose|n: nat| fails_first(state, n);
    assert(suits(steps(state, CONTENT_LEN as nat * n)));
    assert forall|m: nat| m < n implies code_bytes(
        bytes_from(#[trigger] steps(state, 10 * m), 10),
    ).len() < 3 by {
        assert(!suits(steps(state, CONTENT_LEN as nat * m)));
    }
    n
}

/// The prefix made at a clock reading is the one whose seed is the lower half of the
/// reading; only without a reading there is none.
pub proof fn reading_fixes_the_prefix(
    reading: u128,
    upper_half: int,
    lower_half: u64,
    key: Seq<u8>,
    prefix: Option<Vec<u8>>,
)
    requires
        reading == upper_half * 0x1_0000_0000_0000_0000 + lower_half,
    ensures
        made_at(Some(reading), key, prefix) <==> (prefix matches Some(made) && made@
            == prefix_from(lower_half, key)),
        made_at(None, key, prefix) <==> prefix is None,
{
    vstd::arithmetic::div_mod::lemma_fundamental_div_mod_converse(
        reading as int,
        0x1_0000_0000_0000_0000,
        upper_half,
        lower_half as int,
    );
}

/// A header is turned down where a single bit of its tag is wrong, and where its
/// content holds fewer than three bytes that carry a digit, however right the tag.
pub proof fn forged_headers_are_turned_down(content: Seq<u8>, tag: Seq<u8>, key: Seq<u8>)
    requires
        content.len() == 10,
        tag.len() == 4,
        key.len() > 0,
        tag != tag_of(content, key) || code_bytes(content).len() < 3,
    ensures
        read_header(xor_key(content + tag, key), key) is Err,
{
    let plain = content + tag;
    xor_key_undoes_itself(plain, key);
    assert(plain.take(10) =~= content);
    assert(plain.skip(10) =~= tag);
}

} // verus!
