//! The generator visits every state of a given parity when it is moved in blocks
//! of ten steps. A search that draws ten bytes at a time until they suit it
//! therefore ends, whatever the seed.

use vstd::prelude::*;
use vstd::arithmetic::div_mod::{lemma_fundamental_div_mod, lemma_mod_mod, lemma_mod_multiples_vanish};
use vstd::arithmetic::power2::{lemma2_to64, lemma_pow2_adds, lemma_pow2_pos, lemma_pow2_unfold, pow2};

use crate::rng::{lemma_steps_add, next_state, steps};

verus! {

/// The factor of ten steps taken at once, modulo the number of states.
pub const LEAD: u64 = 13869413664309571593;

/// The summand of ten steps taken at once, modulo the number of states.
pub const SHIFT: u64 = 12360490266823512006;

/// The number of states.
pub open spec fn states() -> int {
    0x1_0000_0000_0000_0000
}

/// One more step after the affine map `a * x + c` is again an affine map.
proof fn lemma_next_affine(x: u64, a: int, c: int, a2: int, c2: int, qa: int, qc: int, y: u64)
    requires
        y == (a * x + c) % states(),
        6364136223846793005 * a == a2 + states() * qa,
        6364136223846793005 * c + 1 == c2 + states() * qc,
    ensures
        next_state(y) == (a2 * x + c2) % states(),
{
    let z = a * x + c;
    let k = z / states();
    lemma_fundamental_div_mod(z, states());
    assert(z == states() * k + y);
    let m: int = 6364136223846793005;
    assert(y * m + 1 == (a2 * x + c2) + states() * (qa * x + qc - m * k)) by (nonlinear_arith)
        requires
            a * x + c == states() * k + y,
            m * a == a2 + states() * qa,
            m * c + 1 == c2 + states() * qc,
    ;
    lemma_mod_multiples_vanish(qa * x + qc - m * k, a2 * x + c2, states());
}

/// Ten steps from `x`, as one affine map.
proof fn lemma_ten_steps(x: u64)
    ensures
        steps(x, 10) == (LEAD * x + SHIFT) % states(),
{
    reveal_with_fuel(steps, 11);
    let y0 = x;
    assert(y0 == (1 * x + 0) % states());
    let y1 = next_state(y0);
    lemma_next_affine(x, 1, 0, 6364136223846793005, 1, 0, 0, y0);
    let y2 = next_state(y1);
    lemma_next_affine(x, 6364136223846793005, 1, 7520897724310334953, 6364136223846793006, 2195630281085919242, 0, y1);
    let y3 = next_state(y2);
    lemma_next_affine(x, 7520897724310334953, 6364136223846793006, 793875393913628917, 13885033948157127959, 2594713595628320003, 2195630281085919242, y2);
    let y4 = next_state(y3);
    lemma_next_affine(x, 793875393913628917, 13885033948157127959, 18108194425815612945, 14678909342070756876, 273887420535474915, 4790343876714239245, y3);
    let y5 = next_state(y4);
    lemma_next_affine(x, 18108194425815612945, 14678909342070756876, 7596774164172298237, 14340359694176818205, 6247336420633655168, 5064231297249714161, y4);
    let y6 = next_state(y5);
    lemma_next_affine(x, 7596774164172298237, 14340359694176818205, 17333513496047876729, 3490389784639564826, 2620891006532516866, 4947431494036576325, y5);
    let y7 = next_state(y6);
    lemma_next_affine(x, 17333513496047876729, 3490389784639564826, 8758975453663301189, 2377159206977889939, 5980071100132749616, 1204186276722300187, y6);
    let y8 = next_state(y7);
    lemma_next_affine(x, 8758975453663301189, 2377159206977889939, 13086856194709077281, 11136134660641191128, 3021851051096292454, 820121153008256798, y7);
    let y9 = next_state(y8);
    lemma_next_affine(x, 13086856194709077281, 11136134660641191128, 6584243485182795213, 5776246781640716793, 4514972139919395312, 3841972204104549253, y8);
    let y10 = next_state(y9);
    lemma_next_affine(x, 6584243485182795213, 5776246781640716793, 13869413664309571593, 12360490266823512006, 2271567399820958517, 1992808120177151560, y9);
}

/// The factor of `10 * 2^k` steps taken at once.
spec fn lead(k: nat) -> int
    decreases k,
{
    if k == 0 {
        LEAD as int
    } else {
        lead((k - 1) as nat) * lead((k - 1) as nat)
    }
}

/// The summand of `10 * 2^k` steps taken at once.
spec fn shift(k: nat) -> int
    decreases k,
{
    if k == 0 {
        SHIFT as int
    } else {
        lead((k - 1) as nat) * shift((k - 1) as nat) + shift((k - 1) as nat)
    }
}

/// An affine map after an affine map, when the value in between is reduced.
proof fn lemma_compose(x: int, a: int, c: int, y: int)
    requires
        y == (a * x + c) % states(),
    ensures
        (a * y + c) % states() == (a * a * x + (a * c + c)) % states(),
{
    let z = a * x + c;
    let k = z / states();
    lemma_fundamental_div_mod(z, states());
    assert(a * y + c == (a * a * x + (a * c + c)) + states() * (-(a * k))) by (nonlinear_arith)
        requires
            a * x + c == states() * k + y,
    ;
    lemma_mod_multiples_vanish(-(a * k), a * a * x + (a * c + c), states());
}

/// `10 * 2^k` steps from `x`, as one affine map.
proof fn lemma_doubled_steps(x: u64, k: nat)
    ensures
        steps(x, 10 * pow2(k)) == (lead(k) * x + shift(k)) % states(),
    decreases k,
{
    if k == 0 {
        lemma2_to64();
        lemma_ten_steps(x);
    } else {
        let h = (k - 1) as nat;
        lemma_pow2_unfold(k);
        let y = steps(x, 10 * pow2(h));
        lemma_doubled_steps(x, h);
        lemma_doubled_steps(y, h);
        lemma_steps_add(x, 10 * pow2(h), 10 * pow2(h));
        assert(10 * pow2(h) + 10 * pow2(h) == 10 * pow2(k));
        lemma_compose(x as int, lead(h), shift(h), y as int);
    }
}

/// How `lead` and `shift` look in binary: `lead(k)` is one above a multiple of
/// `4 * 2^k`, and `shift(k)` is an odd multiple of `2 * 2^k`.
proof fn lemma_binary_form(k: nat) -> (w: (int, int))
    ensures
        lead(k) == 1 + 4 * pow2(k) * w.0,
        shift(k) == 2 * pow2(k) * (2 * w.1 + 1),
    decreases k,
{
    if k == 0 {
        lemma2_to64();
        let u: int = (LEAD as int - 1) / 4;
        let v: int = (SHIFT as int - 2) / 4;
        assert(pow2(k) == 1);
        assert(lead(k) == 1 + 4 * u);
        assert(shift(k) == 2 * (2 * v + 1));
        assert(4 * pow2(k) * u == 4 * u) by (nonlinear_arith)
            requires
                pow2(k) == 1,
        ;
        assert(2 * pow2(k) * (2 * v + 1) == 2 * (2 * v + 1)) by (nonlinear_arith)
            requires
                pow2(k) == 1,
        ;
        (u, v)
    } else {
        let h = (k - 1) as nat;
        let (u, v) = lemma_binary_form(h);
        lemma_pow2_unfold(k);
        let p = pow2(h) as int;
        let u2 = u + 2 * p * (u * u);
        let v2 = v + p * u * (2 * v + 1);
        let a = lead(h);
        let c = shift(h);
        assert(a * a == 1 + 4 * (2 * p) * u2) by (nonlinear_arith)
            requires
                a == 1 + 4 * p * u,
                u2 == u + 2 * p * (u * u),
        ;
        assert(a * c + c == 2 * (2 * p) * (2 * v2 + 1)) by (nonlinear_arith)
            requires
                a == 1 + 4 * p * u,
                c == 2 * p * (2 * v + 1),
                v2 == v + p * u * (2 * v + 1),
        ;
        assert(pow2(k) == 2 * p);
        assert(4 * pow2(k) * u2 == 4 * (2 * p) * u2);
        assert(2 * pow2(k) * (2 * v2 + 1) == 2 * (2 * p) * (2 * v2 + 1));
        (u2, v2)
    }
}

/// `10 * 2^k` steps move the state by `2 * 2^k` modulo `4 * 2^k`.
proof fn lemma_doubled_steps_move(x: u64, k: nat)
    requires
        k + 2 <= 64,
    ensures
        steps(x, 10 * pow2(k)) as int % (4 * pow2(k) as int) == (x + 2 * pow2(k)) % (4 * pow2(k) as int),
{
    let p = pow2(k) as int;
    lemma_pow2_pos(k);
    lemma_doubled_steps(x, k);
    let (u, v) = lemma_binary_form(k);
    let z = lead(k) * x + shift(k);
    // the number of states is a multiple of 4 * 2^k
    let f = pow2((62 - k) as nat) as int;
    lemma_pow2_pos((62 - k) as nat);
    lemma_pow2_adds(k, (62 - k) as nat);
    lemma_pow2_adds(2, 62);
    lemma2_to64();
    assert(4 * p * f == states()) by (nonlinear_arith)
        requires
            p * f == 0x4000_0000_0000_0000int,
    ;
    lemma_mod_mod(z, 4 * p, f);
    assert(z == (x + 2 * p) + (4 * p) * (u * x + v)) by (nonlinear_arith)
        requires
            z == (1 + 4 * p * u) * x + 2 * p * (2 * v + 1),
    ;
    lemma_mod_multiples_vanish(u * x + v, x + 2 * p, 4 * p);
}

/// Two states that agree in their lower `k + 1` bits: blocks of ten steps lead
/// from the one to the other.
proof fn lemma_reaches(x: u64, y: u64, k: nat) -> (n: nat)
    requires
        k < 64,
        x as int % (2 * pow2(k) as int) == y as int % (2 * pow2(k) as int),
    ensures
        steps(x, 10 * n) == y,
    decreases 64 - k,
{
    lemma2_to64();
    lemma_pow2_pos(k);
    let p = pow2(k) as int;
    lemma_pow2_unfold(k + 1);
    if k == 63 {
        lemma_pow2_unfold(64);
        vstd::arithmetic::div_mod::lemma_small_mod(x as nat, (2 * p) as nat);
        vstd::arithmetic::div_mod::lemma_small_mod(y as nat, (2 * p) as nat);
        0
    } else if x as int % (4 * p) == y as int % (4 * p) {
        lemma_reaches(x, y, k + 1)
    } else {
        let z = steps(x, 10 * pow2(k));
        lemma_doubled_steps_move(x, k);
        lemma_other_half(x as int, y as int, 2 * p);
        let n = lemma_reaches(z, y, k + 1);
        lemma_steps_add(x, 10 * pow2(k), 10 * n);
        assert(10 * pow2(k) + 10 * n == 10 * (pow2(k) + n));
        pow2(k) + n
    }
}

/// Two numbers that agree modulo `d` and differ modulo `2 * d` differ by `d`.
proof fn lemma_other_half(x: int, y: int, d: int)
    requires
        d > 0,
        x % d == y % d,
        x % (2 * d) != y % (2 * d),
    ensures
        (x + d) % (2 * d) == y % (2 * d),
{
    let i = x / d;
    let j = y / d;
    let r = x % d;
    lemma_fundamental_div_mod(x, d);
    lemma_fundamental_div_mod(y, d);
    lemma_split_parity(x, d, i, r);
    lemma_split_parity(y, d, j, r);
    assert(x + d == d * (i + 1) + r) by (nonlinear_arith)
        requires
            x == d * i + r,
    ;
    lemma_split_parity(x + d, d, i + 1, r);
}

/// What `d * i + r` is modulo `2 * d`: `r`, or `d + r` where `i` is odd.
proof fn lemma_split_parity(x: int, d: int, i: int, r: int)
    requires
        d > 0,
        0 <= r < d,
        x == d * i + r,
    ensures
        x % (2 * d) == (if i % 2 == 0 { r } else { d + r }),
{
    let h = i / 2;
    if i % 2 == 0 {
        assert(x == r + (2 * d) * h) by (nonlinear_arith)
            requires
                x == d * i + r,
                i == 2 * h,
        ;
        lemma_mod_multiples_vanish(h, r, 2 * d);
        vstd::arithmetic::div_mod::lemma_small_mod(r as nat, (2 * d) as nat);
    } else {
        assert(x == (d + r) + (2 * d) * h) by (nonlinear_arith)
            requires
                x == d * i + r,
                i == 2 * h + 1,
        ;
        lemma_mod_multiples_vanish(h, d + r, 2 * d);
        vstd::arithmetic::div_mod::lemma_small_mod((d + r) as nat, (2 * d) as nat);
    }
}

/// In blocks of ten steps the generator gets from every state to every state of
/// the same parity.
pub proof fn blocks_reach_every_state_of_a_parity(x: u64, y: u64) -> (n: nat)
    requires
        x % 2 == y % 2,
    ensures
        steps(x, 10 * n) == y,
{
    lemma2_to64();
    lemma_reaches(x, y, 0)
}

} // verus!
