//! A small pseudo-random generator: a 64-bit linear congruential generator of
//! which the upper half is handed out.

use vstd::prelude::*;

verus! {

/// The multiplier of the generator. The increment is one.
pub const MULTIPLIER: u64 = 6364136223846793005;

/// The state that follows `state`: `state * MULTIPLIER + 1` modulo 2^64.
pub open spec fn next_state(state: u64) -> u64 {
    ((state * MULTIPLIER + 1) % 0x1_0000_0000_0000_0000) as u64
}

/// The state after `n` steps from `state`.
pub open spec fn steps(state: u64, n: nat) -> u64
    decreases n,
{
    if n == 0 {
        state
    } else {
        next_state(steps(state, (n - 1) as nat))
    }
}

/// The number in `min..=max` that a generator in state `state` stands for: the
/// upper 32 bits of the state, reduced to the width of the range.
pub open spec fn in_range(state: u64, min: int, max: int) -> int {
    min + (state as int / 0x1_0000_0000) % (max - min + 1)
}

/// The `n` bytes that are drawn from `state` on.
pub open spec fn bytes_from(state: u64, n: nat) -> Seq<u8> {
    Seq::new(n, |i: int| in_range(steps(state, (i + 1) as nat), 0, 255) as u8)
}

/// The generator. Its view is its state.
pub struct SimpleRng {
    state: u64,
}

impl View for SimpleRng {
    type V = u64;

    closed spec fn view(&self) -> u64 {
        self.state
    }
}

/// Reads the system clock through `std::time::SystemTime::now` and hands the
/// reading over as nanoseconds since the Unix epoch, or `None` where the clock
/// stands before the epoch. The reading depends on the machine and the moment,
/// so nothing is claimed of it.
#[verifier::external_body]
fn clock_nanos() -> (reading: Option<u128>) {
    match std::time::SystemTime::now().duration_since(std::time::UNIX_EPOCH) {
        Ok(since_epoch) => Some(since_epoch.as_nanos()),
        Err(_) => None,
    }
}

impl SimpleRng {
    /// A generator seeded by the system clock, or `None` where the clock stands
    /// before the Unix epoch. [`SimpleRng::from_clock`] says what a given
    /// reading leads to.
    pub fn new() -> (rng: Option<Self>)
        ensures
            exists|reading: Option<u128>| #[trigger] Self::seeded_by(reading, rng),
    {
        let reading = clock_nanos();
        let rng = Self::from_clock(reading);
        assert(Self::seeded_by(reading, rng));
        rng
    }

    /// Whether `rng` is what the clock reading `reading` leads to.
    pub open spec fn seeded_by(reading: Option<u128>, rng: Option<Self>) -> bool {
        match reading {
            Some(nanos) => rng is Some && rng->0@ == nanos % 0x1_0000_0000_0000_0000,
            None => rng is None,
        }
    }

    /// The generator whose seed is the lower 64 bits of a clock reading in
    /// nanoseconds.
    pub fn from_clock(reading: Option<u128>) -> (rng: Option<Self>)
        ensures
            Self::seeded_by(reading, rng),
    {
        match reading {
            Some(nanos) => {
                let seed: u64 = (nanos % 0x1_0000_0000_0000_0000) as u64;
                Some(SimpleRng { state: seed })
            },
            None => None,
        }
    }

    /// The generator that starts in state `seed`.
    pub fn from_seed(seed: u64) -> (rng: Self)
        ensures
            rng@ == seed,
    {
        SimpleRng { state: seed }
    }

    /// Steps the generator and returns a number in `min..=max`.
    ///
    /// The whole range of `u32` has no width that fits a `u32`, so it cannot be
    /// asked for.
    pub fn next_range(&mut self, min: u32, max: u32) -> (drawn: u32)
        requires
            min <= max,
            max - min < u32::MAX,
        ensures
            final(self)@ == next_state(old(self)@),
            drawn == in_range(final(self)@, min as int, max as int),
            min <= drawn <= max,
    {
        self.advance();
        let state: u64 = self.state;
        assert(state >> 32 == state / 0x1_0000_0000 && state >> 32 <= u32::MAX) by (bit_vector);
        let val: u32 = (state >> 32) as u32;
        let width: u32 = max - min + 1;
        assert(0 <= val % width < width) by (nonlinear_arith)
            requires
                width > 0,
        ;
        min + val % width
    }

    /// Moves on to the next state.
    fn advance(&mut self)
        ensures
            final(self)@ == next_state(old(self)@),
    {
        let product: u64 = self.state.wrapping_mul(MULTIPLIER);
        proof {
            lemma_add_one_after(self.state * MULTIPLIER, product);
        }
        self.state = product.wrapping_add(1);
    }

    /// Draws one byte.
    pub fn next_byte(&mut self) -> (drawn: u8)
        ensures
            final(self)@ == next_state(old(self)@),
            drawn == in_range(final(self)@, 0, 255),
    {
        let drawn: u32 = self.next_range(0, 255);
        drawn as u8
    }

    /// Draws `n` bytes in turn.
    pub fn next_bytes(&mut self, n: usize) -> (bytes: Vec<u8>)
        ensures
            bytes@ == bytes_from(old(self)@, n as nat),
            final(self)@ == steps(old(self)@, n as nat),
    {
        let mut bytes: Vec<u8> = Vec::with_capacity(n);
        let ghost start = self@;
        for i in 0..n
            invariant
                start == old(self)@,
                self@ == steps(start, i as nat),
                bytes@ == bytes_from(start, i as nat),
        {
            let b: u8 = self.next_byte();
            bytes.push(b);
            assert(self@ == steps(start, (i + 1) as nat));
            assert(bytes@ =~= bytes_from(start, (i + 1) as nat));
        }
        bytes
    }
}

/// Adding one to a product that is already reduced, and reducing again.
proof fn lemma_add_one_after(product: int, reduced: u64)
    requires
        reduced == product % 0x1_0000_0000_0000_0000,
    ensures
        (product + 1) % 0x1_0000_0000_0000_0000 == if reduced == u64::MAX {
            0
        } else {
            reduced + 1
        },
{
}

/// Two runs of steps in a row are one run of both lengths.
pub proof fn lemma_steps_add(state: u64, m: nat, n: nat)
    ensures
        steps(steps(state, m), n) == steps(state, m + n),
    decreases n,
{
    if n > 0 {
        lemma_steps_add(state, m, (n - 1) as nat);
        assert((m + n - 1) as nat == m + (n - 1) as nat);
    }
}

// ---------------------------------------------------------------------------
// Laws
// ---------------------------------------------------------------------------

/// Zero steps to one, and neighbouring states step to states that lie one multiplier
/// apart, around the end of the number range.
pub proof fn neighbours_step_a_multiplier_apart(state: u64)
    requires
        state < u64::MAX,
    ensures
        next_state(0) == 1,
        (next_state((state + 1) as u64) - next_state(state) - 6364136223846793005)
            % 0x1_0000_0000_0000_0000 == 0,
{
    let size: int = 0x1_0000_0000_0000_0000;
    let here: int = state * 6364136223846793005 + 1;
    let there: int = here + 6364136223846793005;
    let moved: int = there % size - here % size - 6364136223846793005;
    assert(moved == size * (here / size - there / size));
    vstd::arithmetic::div_mod::lemma_mod_multiples_vanish(here / size - there / size, 0, size);
}

/// A draw divides the upper half of the state by the width of the range and adds what
/// is left over to the lower end. Every state can be taken apart in this way.
pub proof fn draw_is_what_division_leaves(
    state: u64,
    min: int,
    max: int,
    quotient: int,
    left: int,
    lower_half: int,
)
    requires
        min <= max,
        0 <= left <= max - min,
        0 <= lower_half < 0x1_0000_0000,
        state == (quotient * (max - min + 1) + left) * 0x1_0000_0000 + lower_half,
    ensures
        in_range(state, min, max) == min + left,
{
    let upper = quotient * (max - min + 1) + left;
    vstd::arithmetic::div_mod::lemma_fundamental_div_mod_converse(
        state as int,
        0x1_0000_0000,
        upper,
        lower_half,
    );
    vstd::arithmetic::div_mod::lemma_fundamental_div_mod_converse(
        upper,
        max - min + 1,
        quotient,
        left,
    );
}

/// Bytes are drawn one after the other, each from a step of its own: drawing some and
/// then more is drawing all of them at once.
pub proof fn bytes_are_drawn_in_turn(state: u64, m: nat, n: nat)
    ensures
        steps(state, 0) == state,
        steps(state, 1) == next_state(state),
        bytes_from(state, n).len() == n,
        bytes_from(state, 1)[0] == (next_state(state) / 0x1_0000_0000) % 256,
        bytes_from(state, m + n) == bytes_from(state, m) + bytes_from(steps(state, m), n),
{
    reveal_with_fuel(steps, 2);
    assert forall|i: int| 0 <= i < n implies bytes_from(state, m + n)[m + i] == bytes_from(
        steps(state, m),
        n,
    )[i] by {
        lemma_steps_add(state, m, (i + 1) as nat);
        assert((m + i + 1) as nat == m + (i + 1) as nat);
    }
    assert(bytes_from(state, m + n) =~= bytes_from(state, m) + bytes_from(steps(state, m), n));
}

/// Of a clock reading the lower half is the seed, whatever the upper half holds; and
/// only without a reading there is no generator.
pub proof fn seed_is_lower_half_of_reading(
    reading: u128,
    upper_half: int,
    lower_half: u64,
    rng: Option<SimpleRng>,
)
    requires
        reading == upper_half * 0x1_0000_0000_0000_0000 + lower_half,
    ensures
        SimpleRng::seeded_by(Some(reading), rng) <==> (rng matches Some(r) && r@ == lower_half),
        SimpleRng::seeded_by(None, rng) <==> rng is None,
{
    vstd::arithmetic::div_mod::lemma_fundamental_div_mod_converse(
        reading as int,
        0x1_0000_0000_0000_0000,
        upper_half,
        lower_half as int,
    );
}

} // verus!
