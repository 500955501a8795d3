//! The example arithmetic relation x^2 + 3x - 4 = 0 over the BLS12-381
//! scalar field, and the rank-1 constraint system the prover builds for it.
//!
//! The constraint system asserts the relation: variable 0 is the constant
//! one, and the prover allocates x, x^2, 3x and the result value, with four
//! constraints — x times x is x^2, three (as a coefficient on the one wire)
//! times x is 3x, the result equals x^2 + 3x - 4, and the result times one
//! is zero. The system is sound and complete for the relation: an
//! assignment with the one wire set to one and the x wire set to v
//! satisfies it exactly when v is a root of x^2 + 3x - 4 in the field,
//! and over 64-bit witnesses the only root is one.

use vstd::arithmetic::div_mod::lemma_add_mod_noop_right;
use vstd::arithmetic::div_mod::lemma_mod_bound;
use vstd::arithmetic::div_mod::lemma_mod_multiples_vanish;
use vstd::arithmetic::div_mod::lemma_mod_self_0;
use vstd::arithmetic::div_mod::lemma_mod_twice;
use vstd::arithmetic::div_mod::lemma_mul_mod_noop_general;
use vstd::arithmetic::div_mod::lemma_small_mod;
use vstd::prelude::*;

verus! {

/// The order of the BLS12-381 scalar field: a 255-bit prime.
pub open spec fn field_modulus() -> nat {
    0x73eda753299d7d483339d80809a1d80553bda402fffe5bfeffffffff00000001nat
}

/// One side of a rank-1 constraint: a linear combination of variables,
/// as (coefficient, variable index) pairs.
pub type LinComb = Seq<(nat, nat)>;

/// A rank-1 constraint: an assignment must give a * b = c in the field.
pub struct Constraint {
    pub a: LinComb,
    pub b: LinComb,
    pub c: LinComb,
}

/// The integer sum of a linear combination's terms under an assignment,
/// before reduction into the field.
pub open spec fn lc_sum(lc: LinComb, asg: Seq<nat>) -> nat
    decreases lc.len(),
{
    if lc.len() == 0 {
        0
    } else {
        lc[0].0 * asg[lc[0].1 as int] + lc_sum(lc.drop_first(), asg)
    }
}

/// The field value of a linear combination under an assignment.
pub open spec fn lc_eval(lc: LinComb, asg: Seq<nat>) -> nat {
    lc_sum(lc, asg) % field_modulus()
}

/// Whether an assignment satisfies one constraint: a * b = c in the field.
pub open spec fn constraint_holds(c: Constraint, asg: Seq<nat>) -> bool {
    (lc_eval(c.a, asg) * lc_eval(c.b, asg)) % field_modulus() == lc_eval(c.c, asg)
}

/// Whether an assignment satisfies every constraint of a system.
pub open spec fn all_hold(cs: Seq<Constraint>, asg: Seq<nat>) -> bool {
    forall|i: int| 0 <= i < cs.len() ==> constraint_holds(cs[i], asg)
}

/// The linear combination x^2 + 3x - 4: one of the x^2 wire (2), one of
/// the 3x wire (3), and minus four — the modulus less four — of the one
/// wire (0).
pub open spec fn link_lc() -> LinComb {
    seq![(1nat, 2nat), (1nat, 3nat), ((field_modulus() - 4) as nat, 0nat)]
}

/// The constraint system of the example circuit, over the variables
/// one (0), x (1), x^2 (2), 3x (3) and result (4): x times x is x^2,
/// three times x is 3x, the result equals x^2 + 3x - 4, and the result
/// times one is zero.
pub open spec fn demo_circuit() -> Seq<Constraint> {
    seq![
        Constraint { a: seq![(1nat, 1nat)], b: seq![(1nat, 1nat)], c: seq![(1nat, 2nat)] },
        Constraint { a: seq![(3nat, 0nat)], b: seq![(1nat, 1nat)], c: seq![(1nat, 3nat)] },
        Constraint { a: link_lc(), b: seq![(1nat, 0nat)], c: seq![(1nat, 4nat)] },
        Constraint { a: seq![(1nat, 4nat)], b: seq![(1nat, 0nat)], c: Seq::empty() },
    ]
}

/// The field value of x^2 + 3x - 4 for witness `w`: what the honest prover
/// assigns the result variable.
pub open spec fn result_value(w: nat) -> nat {
    (((w * w + 3 * w + field_modulus()) - 4) % (field_modulus() as int)) as nat
}

/// The values the honest prover assigns for secret input `w`: the constant
/// one, then x, x^2, 3x and x^2 + 3x - 4, all reduced into the field.
pub open spec fn honest_assignment(w: nat) -> Seq<nat> {
    let p = field_modulus();
    seq![1nat, w % p, (w * w) % p, (3 * w) % p, result_value(w)]
}

/// The relation the circuit encodes: x^2 + 3x - 4 = 0 in the field.
pub open spec fn relation_holds(w: nat) -> bool {
    result_value(w) == 0
}

/// The field value of a linear combination with a single term is the
/// coefficient times the assigned value of its variable, reduced.
proof fn lemma_lc_term(c: nat, j: nat, asg: Seq<nat>)
    requires
        j < asg.len(),
    ensures
        lc_eval(seq![(c, j)], asg) == (c * asg[j as int]) % field_modulus(),
{
    let lc: LinComb = seq![(c, j)];
    assert(lc.drop_first() =~= Seq::<(nat, nat)>::empty());
    assert(lc_sum(lc.drop_first(), asg) == 0);
    assert(lc[0] == (c, j));
    assert(lc_sum(lc, asg) == c * asg[j as int] + lc_sum(lc.drop_first(), asg));
}

/// The integer sum of the linking combination under an assignment whose
/// one wire holds one: the x^2 and 3x values plus the modulus less four.
proof fn lemma_lc_link(asg: Seq<nat>)
    requires
        asg.len() >= 5,
        asg[0] == 1,
    ensures
        lc_sum(link_lc(), asg) == asg[2] + asg[3] + (field_modulus() - 4),
{
    let c4 = (field_modulus() - 4) as nat;
    let lc = link_lc();
    let d1 = lc.drop_first();
    let d2 = d1.drop_first();
    assert(d1 =~= seq![(1nat, 3nat), (c4, 0nat)]);
    assert(d2 =~= seq![(c4, 0nat)]);
    assert(d2.drop_first() =~= Seq::<(nat, nat)>::empty());
    assert(lc_sum(d2.drop_first(), asg) == 0);
    assert(lc_sum(d2, asg) == c4 * asg[0]);
    assert(c4 * asg[0] == c4 * 1);
    assert(lc_sum(d1, asg) == 1 * asg[3] + lc_sum(d2, asg));
    assert(lc_sum(lc, asg) == 1 * asg[2] + lc_sum(d1, asg));
}

/// Reducing two addends of a three-part sum does not change the sum's
/// residue.
proof fn lemma_sum3_mod(x: int, y: int, z: int, m: int)
    requires
        m > 0,
    ensures
        ((x % m) + (y % m) + z) % m == (x + y + z) % m,
{
    lemma_add_mod_noop_right((x % m) + z, y, m);
    lemma_add_mod_noop_right(z + y, x, m);
}

/// The honest prover's assignment satisfies the circuit exactly when the
/// witness is a root of the relation: the first three constraints hold of
/// every honest assignment, and the last forces x^2 + 3x - 4 to be zero.
pub proof fn lemma_circuit_characterizes_relation(w: nat)
    ensures
        all_hold(demo_circuit(), honest_assignment(w)) <==> relation_holds(w),
{
    let p = field_modulus();
    let cs = demo_circuit();
    let asg = honest_assignment(w);
    let r = result_value(w);

    lemma_lc_term(1, 1, asg);
    lemma_lc_term(1, 2, asg);
    lemma_lc_term(1, 3, asg);
    lemma_lc_term(1, 4, asg);
    lemma_lc_term(3, 0, asg);
    lemma_lc_term(1, 0, asg);
    lemma_lc_link(asg);
    lemma_small_mod(1, p);
    lemma_small_mod(3, p);
    lemma_mod_twice(w as int, p as int);
    lemma_mod_twice((w * w) as int, p as int);
    lemma_mod_twice((3 * w) as int, p as int);
    lemma_mod_bound((w * w + 3 * w + p) - 4, p as int);
    lemma_small_mod(r, p);

    // x times x is x^2, whatever the witness.
    lemma_mul_mod_noop_general(w as int, w as int, p as int);
    assert(lc_eval(cs[0].a, asg) * lc_eval(cs[0].b, asg) == (w % p) * (w % p));
    assert(constraint_holds(cs[0], asg));

    // three times x is 3x, whatever the witness.
    lemma_mul_mod_noop_general(3, w as int, p as int);
    assert(lc_eval(cs[1].a, asg) == 3);
    assert(lc_eval(cs[1].b, asg) == w % p);
    assert(lc_eval(cs[1].c, asg) == (3 * w) % p);
    assert(lc_eval(cs[1].a, asg) * lc_eval(cs[1].b, asg) == 3 * (w % p));
    assert(constraint_holds(cs[1], asg));

    // the result value is x^2 + 3x - 4, whatever the witness: reducing the
    // x^2 and 3x addends does not change the residue.
    lemma_sum3_mod((w * w) as int, (3 * w) as int, (p - 4) as int, p as int);
    assert(lc_sum(link_lc(), asg) == ((w * w) % p) + ((3 * w) % p) + (p - 4));
    assert(lc_eval(link_lc(), asg) == r);
    lemma_mod_twice(r as int, p as int);
    assert(lc_eval(cs[2].a, asg) * lc_eval(cs[2].b, asg) == r * 1);
    assert(r * 1 == r);
    assert(lc_eval(cs[2].c, asg) == r);
    assert(constraint_holds(cs[2], asg));

    // the result times one is zero exactly when the relation holds.
    assert(lc_sum(Seq::empty(), asg) == 0);
    lemma_small_mod(0, p);
    assert(lc_eval(cs[3].a, asg) * lc_eval(cs[3].b, asg) == r * 1);
    assert(constraint_holds(cs[3], asg) <==> r == 0);

    if relation_holds(w) {
        assert forall|i: int| 0 <= i < cs.len() implies constraint_holds(cs[i], asg) by {
            if i == 0 {
                assert(constraint_holds(cs[0], asg));
            } else if i == 1 {
                assert(constraint_holds(cs[1], asg));
            } else if i == 2 {
                assert(constraint_holds(cs[2], asg));
            } else {
                assert(constraint_holds(cs[3], asg));
            }
        }
    }
}

/// The circuit is sound: any assignment whose one wire holds one and which
/// satisfies every constraint has a root of the relation on its x wire —
/// a dishonest prover cannot satisfy the system for a non-root.
pub proof fn lemma_circuit_sound(asg: Seq<nat>)
    requires
        asg.len() == 5,
        asg[0] == 1,
        all_hold(demo_circuit(), asg),
    ensures
        relation_holds(asg[1]),
{
    let p = field_modulus();
    let cs = demo_circuit();
    let v = asg[1];
    let s = asg[2];
    let t = asg[3];
    let r = asg[4];

    lemma_lc_term(1, 1, asg);
    lemma_lc_term(1, 2, asg);
    lemma_lc_term(1, 3, asg);
    lemma_lc_term(1, 4, asg);
    lemma_lc_term(3, 0, asg);
    lemma_lc_term(1, 0, asg);
    lemma_lc_link(asg);
    lemma_small_mod(1, p);
    lemma_small_mod(3, p);
    lemma_small_mod(0, p);
    lemma_mod_twice(v as int, p as int);
    lemma_mod_twice(s as int, p as int);
    lemma_mod_twice(t as int, p as int);
    lemma_mod_twice(r as int, p as int);

    // x times x is x^2: the x^2 wire's residue is that of v squared.
    assert(constraint_holds(cs[0], asg));
    lemma_mul_mod_noop_general(v as int, v as int, p as int);
    assert(s % p == (v * v) % p);

    // three times x is 3x: the 3x wire's residue is that of three v.
    assert(constraint_holds(cs[1], asg));
    lemma_mul_mod_noop_general(3, v as int, p as int);
    assert(lc_eval(cs[1].a, asg) == 3);
    assert(lc_eval(cs[1].b, asg) == v % p);
    assert(lc_eval(cs[1].c, asg) == t % p);
    assert(lc_eval(cs[1].a, asg) * lc_eval(cs[1].b, asg) == 3 * (v % p));
    assert(t % p == (3 * v) % p);

    // the linking constraint: the result wire's residue is that of
    // x^2 + 3x - 4.
    assert(constraint_holds(cs[2], asg));
    assert(lc_sum(link_lc(), asg) == s + t + (p - 4));
    lemma_mod_twice((s + t + (p - 4)) as int, p as int);
    assert(lc_eval(cs[2].a, asg) == (s + t + (p - 4)) % (p as int));
    assert(lc_eval(cs[2].b, asg) == 1);
    assert(lc_eval(cs[2].c, asg) == r % p);
    assert(lc_eval(cs[2].a, asg) * lc_eval(cs[2].b, asg) == lc_eval(cs[2].a, asg) * 1);
    assert(lc_eval(cs[2].a, asg) * 1 == lc_eval(cs[2].a, asg));
    assert((s + t + (p - 4)) % (p as int) == (r as int) % (p as int));

    // the zero constraint: the result wire's residue is zero.
    assert(constraint_holds(cs[3], asg));
    assert(lc_sum(Seq::empty(), asg) == 0);
    assert(r % p == 0);

    // so x^2 + 3x - 4 vanishes in the field for v.
    lemma_sum3_mod(s as int, t as int, (p - 4) as int, p as int);
    assert(((s % p) + (t % p) + (p - 4)) % (p as int) == 0);
    lemma_sum3_mod((v * v) as int, (3 * v) as int, (p - 4) as int, p as int);
    assert((v * v + 3 * v + (p - 4)) % (p as int) == 0);
}

/// The circuit captures the relation exactly: an assignment with one on
/// the one wire and `v` on the x wire satisfying the whole system exists
/// if and only if v is a root of x^2 + 3x - 4 in the field.
pub proof fn lemma_satisfiable_iff_root(v: nat)
    requires
        v < field_modulus(),
    ensures
        (exists|asg: Seq<nat>|
            #![auto]
            asg.len() == 5 && asg[0] == 1 && asg[1] == v && all_hold(demo_circuit(), asg))
            <==> relation_holds(v),
{
    if relation_holds(v) {
        let a = honest_assignment(v);
        lemma_circuit_characterizes_relation(v);
        lemma_small_mod(v, field_modulus());
        assert(a.len() == 5 && a[0] == 1 && a[1] == v && all_hold(demo_circuit(), a));
    }
    if exists|asg: Seq<nat>|
        #![auto]
        asg.len() == 5 && asg[0] == 1 && asg[1] == v && all_hold(demo_circuit(), asg) {
        let a = choose|asg: Seq<nat>|
            #![auto]
            asg.len() == 5 && asg[0] == 1 && asg[1] == v && all_hold(demo_circuit(), asg);
        lemma_circuit_sound(a);
    }
}

/// Over 64-bit witnesses the relation has exactly one root, one: for any
/// other witness the integer x^2 + 3x - 4 is nonzero and of magnitude
/// below the field modulus, so it cannot vanish in the field.
pub proof fn lemma_u64_relation(w: nat)
    requires
        w < 0x10000000000000000,
    ensures
        relation_holds(w) <==> w == 1,
{
    let p = field_modulus();
    if w == 1 {
        assert((w * w + 3 * w + p) - 4 == p as int);
        lemma_mod_self_0(p as int);
        assert(relation_holds(w));
    } else if w == 0 {
        assert(w * w == 0);
        assert((w * w + 3 * w + p) - 4 == p - 4);
        lemma_small_mod((p - 4) as nat, p);
        assert(!relation_holds(w));
    } else {
        let m: nat = 0xffffffffffffffff;
        assert(w * w >= 2 * w && w * w <= m * m) by (nonlinear_arith)
            requires
                2 <= w <= m,
        ;
        let d = ((w * w + 3 * w) - 4) as nat;
        assert(0 < d < p);
        assert((w * w + 3 * w + p) - 4 == p * 1 + d);
        lemma_mod_multiples_vanish(1, d as int, p as int);
        lemma_small_mod(d, p);
        assert(!relation_holds(w));
    }
}

/// The relation's other root in the field: the modulus less four, congruent
/// to minus four, whose square plus three times it comes to four. It lies
/// far outside the 64-bit witnesses the prover takes.
pub proof fn lemma_large_field_root()
    ensures
        relation_holds((field_modulus() - 4) as nat),
{
    let p = field_modulus();
    let w = (p - 4) as nat;
    assert(w * w + 3 * w + p - 4 == p * (w as int)) by (nonlinear_arith)
        requires
            w == p - 4,
            p >= 4,
    ;
    lemma_mod_multiples_vanish(w as int, 0, p as int);
    lemma_small_mod(0, p);
}

/// Decides whether `x` is a witness the circuit accepts: the honest
/// assignment for `x` satisfies the constraint system exactly when
/// x^2 + 3x - 4 = 0 in the field, and over 64-bit inputs the only such
/// witness is one.
pub fn satisfies_relation(x: u64) -> (r: bool)
    ensures
        r <==> relation_holds(x as nat),
        r <==> all_hold(demo_circuit(), honest_assignment(x as nat)),
{
    proof {
        lemma_u64_relation(x as nat);
        lemma_circuit_characterizes_relation(x as nat);
    }
    x == 1
}

} // verus!
