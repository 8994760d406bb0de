//! One step of the universe, apart from its arithmetic.
//!
//! The body type `B` and the force type `F` are left open, and the caller
//! hands in the force law (`force`), the sum of two forces (`plus`) and the
//! motion of a body under a force (`advance`). What is fixed here is how a
//! step uses them: the net force on each body is summed, from `zero` and in
//! increasing index order, over every other body of one snapshot, and every
//! body is then advanced under its own net force, all from that snapshot.
use vstd::prelude::*;

use crate::interaction::{partner, partner_count, partners};

verus! {

/// `terms` are the forces exerted on body `i` by its partners, in order, and
/// `sums` their running sums from `zero`; the net force is `sums.last()`.
pub open spec fn is_net_force<B, F, P, S>(
    bodies: Seq<B>,
    i: int,
    zero: F,
    force: P,
    plus: S,
    terms: Seq<F>,
    sums: Seq<F>,
) -> bool where P: Fn(&B, &B) -> F, S: Fn(F, F) -> F {
    &&& terms.len() == partner_count(i, bodies.len() as int)
    &&& sums.len() == terms.len() + 1
    &&& sums[0] == zero
    &&& forall|k: int|
        0 <= k < terms.len() ==> {
            &&& force.ensures((&bodies[i], &bodies[partner(i, k)]), #[trigger] terms[k])
            &&& plus.ensures((sums[k], terms[k]), sums[k + 1])
        }
}

/// `net` is the net force on body `i`: the sum, from `zero`, of the forces
/// exerted on it by its partners, in order.
pub open spec fn has_net_force<B, F, P, S>(bodies: Seq<B>, i: int, zero: F, force: P, plus: S, net: F) -> bool where
    P: Fn(&B, &B) -> F,
    S: Fn(F, F) -> F,
 {
    exists|terms: Seq<F>, sums: Seq<F>|
        #[trigger] is_net_force(bodies, i, zero, force, plus, terms, sums) && sums.last() == net
}

/// `next` is body `i` of `bodies` advanced under its net force.
pub open spec fn is_advanced<B, F, P, S, A>(
    bodies: Seq<B>,
    i: int,
    zero: F,
    force: P,
    plus: S,
    advance: A,
    next: B,
) -> bool where P: Fn(&B, &B) -> F, S: Fn(F, F) -> F, A: Fn(&B, &F) -> B {
    exists|net: F|
        #[trigger] has_net_force(bodies, i, zero, force, plus, net) && advance.ensures(
            (&bodies[i], &net),
            next,
        )
}

/// The net force on each body, from every other body of `bodies`.
pub fn force_field<B, F: Copy, P: Fn(&B, &B) -> F, S: Fn(F, F) -> F>(
    bodies: &Vec<B>,
    zero: F,
    force: P,
    plus: S,
) -> (r: Vec<F>)
    requires
        forall|a: &B, b: &B| force.requires((a, b)),
        forall|x: F, y: F| plus.requires((x, y)),
    ensures
        r.len() == bodies.len(),
        forall|i: int|
            0 <= i < r.len() ==> has_net_force(bodies@, i, zero, force, plus, #[trigger] r[i]),
{
    let n = bodies.len();
    let mut r: Vec<F> = Vec::new();
    let ghost mut witnesses: Seq<(Seq<F>, Seq<F>)> = Seq::empty();
    let mut i: usize = 0;
    while i < n
        invariant
            n == bodies.len(),
            i <= n,
            r.len() == i,
            witnesses.len() == i,
            forall|x: F, y: F| plus.requires((x, y)),
            forall|a: &B, b: &B| force.requires((a, b)),
            forall|m: int|
                0 <= m < i ==> is_net_force(
                    bodies@,
                    m,
                    zero,
                    force,
                    plus,
                    #[trigger] witnesses[m].0,
                    witnesses[m].1,
                ) && witnesses[m].1.last() == r[m],
        decreases n - i,
    {
        let ps = partners(i, n);
        let mut acc = zero;
        let ghost mut terms: Seq<F> = Seq::empty();
        let ghost mut sums: Seq<F> = seq![zero];
        let mut k: usize = 0;
        while k < ps.len()
            invariant
                n == bodies.len(),
                i < n,
                ps.len() == partner_count(i as int, n as int),
                forall|q: int| 0 <= q < ps.len() ==> #[trigger] ps[q] as int == partner(i as int, q),
                forall|q: int| 0 <= q < ps.len() ==> #[trigger] ps[q] < n,
                forall|x: F, y: F| plus.requires((x, y)),
                forall|a: &B, b: &B| force.requires((a, b)),
                k <= ps.len(),
                terms.len() == k,
                sums.len() == k + 1,
                sums[0] == zero,
                sums.last() == acc,
                forall|q: int|
                    0 <= q < k ==> {
                        &&& force.ensures(
                            (&bodies@[i as int], &bodies@[partner(i as int, q)]),
                            #[trigger] terms[q],
                        )
                        &&& plus.ensures((sums[q], terms[q]), sums[q + 1])
                    },
            decreases ps.len() - k,
        {
            let j = ps[k];
            let t = force(&bodies[i], &bodies[j]);
            let next = plus(acc, t);
            proof {
                terms = terms.push(t);
                sums = sums.push(next);
            }
            acc = next;
            k = k + 1;
        }
        assert(is_net_force(bodies@, i as int, zero, force, plus, terms, sums));
        r.push(acc);
        proof {
            witnesses = witnesses.push((terms, sums));
        }
        i = i + 1;
    }
    assert forall|i: int| 0 <= i < r.len() implies has_net_force(
        bodies@,
        i,
        zero,
        force,
        plus,
        #[trigger] r[i],
    ) by {
        let w = witnesses[i];
        assert(is_net_force(bodies@, i, zero, force, plus, w.0, w.1));
    }
    r
}

/// Every body advanced under its own force: `r[i]` is `advance` applied to
/// `bodies[i]` and `forces[i]`.
pub fn advance_all<B, F, A: Fn(&B, &F) -> B>(bodies: &Vec<B>, forces: &Vec<F>, advance: A) -> (r: Vec<B>)
    requires
        forces.len() == bodies.len(),
        forall|b: &B, f: &F| advance.requires((b, f)),
    ensures
        r.len() == bodies.len(),
        forall|i: int| 0 <= i < r.len() ==> advance.ensures((&bodies[i], &forces[i]), #[trigger] r[i]),
{
    let mut r: Vec<B> = Vec::new();
    let mut i: usize = 0;
    while i < bodies.len()
        invariant
            forces.len() == bodies.len(),
            forall|b: &B, f: &F| advance.requires((b, f)),
            i <= bodies.len(),
            r.len() == i,
            forall|m: int| 0 <= m < i ==> advance.ensures((&bodies[m], &forces[m]), #[trigger] r[m]),
        decreases bodies.len() - i,
    {
        let b = advance(&bodies[i], &forces[i]);
        r.push(b);
        i = i + 1;
    }
    r
}

/// The bodies of the next snapshot: the same number of bodies in the same
/// order, body `i` advanced under the net force that every other body of
/// `bodies` exerts on it.
pub fn step_bodies<B, F: Copy, P: Fn(&B, &B) -> F, S: Fn(F, F) -> F, A: Fn(&B, &F) -> B>(
    bodies: &Vec<B>,
    zero: F,
    force: P,
    plus: S,
    advance: A,
) -> (r: Vec<B>)
    requires
        forall|a: &B, b: &B| force.requires((a, b)),
        forall|x: F, y: F| plus.requires((x, y)),
        forall|b: &B, f: &F| advance.requires((b, f)),
    ensures
        r.len() == bodies.len(),
        forall|i: int|
            0 <= i < r.len() ==> is_advanced(bodies@, i, zero, force, plus, advance, #[trigger] r[i]),
{
    let forces = force_field(bodies, zero, force, plus);
    let r = advance_all(bodies, &forces, advance);
    assert forall|i: int| 0 <= i < r.len() implies is_advanced(
        bodies@,
        i,
        zero,
        force,
        plus,
        advance,
        #[trigger] r[i],
    ) by {
        assert(has_net_force(bodies@, i, zero, force, plus, forces[i]));
        assert(advance.ensures((&bodies[i], &forces[i]), r[i]));
    }
    r
}

/// Whatever `advance` keeps of a body (its mass, say), a step keeps of
/// every body: body `i` of the next snapshot relates by `keeps` to body `i`
/// of this one.
pub proof fn lemma_step_keeps<B, F, P, S, A>(
    bodies: Seq<B>,
    next: Seq<B>,
    zero: F,
    force: P,
    plus: S,
    advance: A,
    keeps: spec_fn(B, B) -> bool,
) where P: Fn(&B, &B) -> F, S: Fn(F, F) -> F, A: Fn(&B, &F) -> B
    requires
        next.len() == bodies.len(),
        forall|i: int|
            0 <= i < next.len() ==> is_advanced(bodies, i, zero, force, plus, advance, #[trigger] next[i]),
        forall|b: &B, f: &F, c: B| #[trigger] advance.ensures((b, f), c) ==> keeps(*b, c),
    ensures
        forall|i: int| 0 <= i < next.len() ==> keeps(bodies[i], #[trigger] next[i]),
{
    assert forall|i: int| 0 <= i < next.len() implies keeps(bodies[i], #[trigger] next[i]) by {
        assert(is_advanced(bodies, i, zero, force, plus, advance, next[i]));
        let net = choose|net: F|
            #[trigger] has_net_force(bodies, i, zero, force, plus, net) && advance.ensures(
                (&bodies[i], &net),
                next[i],
            );
        assert(advance.ensures((&bodies[i], &net), next[i]));
    }
}

} // verus!
