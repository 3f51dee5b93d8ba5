use vstd::prelude::*;
use vstd::arithmetic::div_mod::{lemma_fundamental_div_mod, lemma_mod_multiples_basic};

verus! {

/// Euclid's greatest common divisor of two naturals.
pub open spec fn gcd_spec(a: nat, b: nat) -> nat
    decreases b,
{
    if b == 0 {
        a
    } else {
        gcd_spec(b, a % b)
    }
}

/// The order of the arguments does not matter.
pub proof fn lemma_gcd_commutes(a: nat, b: nat)
    ensures
        gcd_spec(a, b) == gcd_spec(b, a),
{
    if a < b {
        assert(a % b == a) by (nonlinear_arith)
            requires
                a < b,
        ;
        assert(gcd_spec(a, b) == gcd_spec(b, a % b));
    } else if b < a {
        assert(b % a == b) by (nonlinear_arith)
            requires
                b < a,
        ;
        assert(gcd_spec(b, a) == gcd_spec(a, b % a));
    }
}

/// A divisor of `x` and `y` divides `q * x + y`.
proof fn lemma_divides_sum(g: int, x: int, y: int, q: int)
    requires
        g > 0,
        x % g == 0,
        y % g == 0,
    ensures
        (q * x + y) % g == 0,
{
    lemma_fundamental_div_mod(x, g);
    lemma_fundamental_div_mod(y, g);
    let k = q * (x / g) + y / g;
    assert(q * x + y == k * g) by (nonlinear_arith)
        requires
            x == g * (x / g),
            y == g * (y / g),
            k == q * (x / g) + y / g,
    ;
    lemma_mod_multiples_basic(k, g);
}

/// `gcd_spec(a, b)` is a positive divisor of both numbers, and every common
/// divisor `d` of them divides it.
pub proof fn lemma_gcd_is_greatest(a: nat, b: nat, d: nat)
    requires
        a > 0 || b > 0,
        d > 0,
        a % d == 0,
        b % d == 0,
    ensures
        gcd_spec(a, b) > 0,
        a % gcd_spec(a, b) == 0,
        b % gcd_spec(a, b) == 0,
        gcd_spec(a, b) % d == 0,
    decreases b,
{
    if b == 0 {
        assert(a % a == 0) by (nonlinear_arith)
            requires
                a > 0,
        ;
    } else {
        lemma_fundamental_div_mod(a as int, b as int);
        let q = a as int / b as int;
        let r = a % b;
        assert(r == -q * b + a) by (nonlinear_arith)
            requires
                a == b * q + r,
        ;
        lemma_divides_sum(d as int, b as int, a as int, -q);
        lemma_gcd_is_greatest(b, r, d);
        let g = gcd_spec(a, b);
        assert(a == q * b + r) by (nonlinear_arith)
            requires
                a == b * q + r,
        ;
        lemma_divides_sum(g as int, b as int, r as int, q);
    }
}

/// Checks that a list of numbers is usable: it must not be empty.
pub fn check_numbers(numbers: &Vec<u64>) -> (r: Result<(), String>)
    ensures
        r is Ok <==> numbers@.len() > 0,
        r matches Err(e) ==> e@ == "given empty array."@,
{
    if numbers.is_empty() {
        return Err("given empty array.".to_owned());
    }
    Ok(())
}

/// The greatest common divisor of two positive numbers, by Euclid's
/// algorithm.
pub fn gcd(n: u64, m: u64) -> (r: u64)
    requires
        n != 0,
        m != 0,
    ensures
        r as nat == gcd_spec(n as nat, m as nat),
        r > 0,
{
    let mut a = n;
    let mut b = m;
    while b != 0
        invariant
            a > 0,
            gcd_spec(a as nat, b as nat) == gcd_spec(n as nat, m as nat),
        decreases b,
    {
        if b < a {
            proof {
                lemma_gcd_commutes(a as nat, b as nat);
            }
            let t = b;
            b = a;
            a = t;
        }
        proof {
            lemma_gcd_commutes(a as nat, b as nat);
        }
        b = b % a;
    }
    a
}

/// The greatest common divisor of all the numbers of `s`, taken from the
/// first onwards.
pub open spec fn gcd_all_spec(s: Seq<u64>) -> nat
    decreases s.len(),
{
    if s.len() == 0 {
        0
    } else if s.len() == 1 {
        s[0] as nat
    } else {
        gcd_spec(gcd_all_spec(s.drop_last()), s.last() as nat)
    }
}

/// The greatest common divisor of a non-empty list of positive numbers.
pub fn gcd_of_all(numbers: &Vec<u64>) -> (r: u64)
    requires
        numbers@.len() > 0,
        forall|i: int| 0 <= i < numbers@.len() ==> numbers@[i] != 0,
    ensures
        r as nat == gcd_all_spec(numbers@),
        r > 0,
{
    let mut d: u64 = numbers[0];
    let mut i: usize = 1;
    assert(numbers@.subrange(0, 1).drop_last() =~= Seq::<u64>::empty());
    while i < numbers.len()
        invariant
            1 <= i <= numbers@.len(),
            forall|j: int| 0 <= j < numbers@.len() ==> numbers@[j] != 0,
            d > 0,
            d as nat == gcd_all_spec(numbers@.subrange(0, i as int)),
        decreases numbers@.len() - i,
    {
        assert(numbers@.subrange(0, i + 1).drop_last() =~= numbers@.subrange(0, i as int));
        d = gcd(d, numbers[i]);
        i = i + 1;
    }
    assert(numbers@.subrange(0, i as int) =~= numbers@);
    d
}

} // verus!
