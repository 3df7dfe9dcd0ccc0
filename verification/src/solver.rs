//! The contract of the encode/decode collaborator (the "solver"), and a
//! verified reference solver.
//!
//! A solver turns a list of key/value points over the field into a flat
//! sequence of field elements (the encoded structure), such that decoding the
//! structure at an inserted key yields the inserted value, while decoding at
//! any other key yields a value derived from the auxiliary randomness.  The
//! composition layer drives any conforming solver only through the `Solver`
//! trait; `ListSolver` is one conforming implementation.

use vstd::prelude::*;
use crate::field::{spec_add, Fp};

verus! {

/// Parameters governing the size of the encoded structure, derived
/// deterministically from the expected number of points.
#[derive(Clone, Copy, PartialEq, Eq, Structural, Debug)]
pub struct SolverParams {
    pub code_length: usize,
}

/// The capability contract every solver must meet.
pub trait Solver: Sized {
    /// The parameters that `calc_params` derives for a given point count.
    spec fn params_spec(query_num: usize) -> SolverParams;

    /// The machine-size bound under which `calc_params` is defined.
    spec fn params_req(query_num: usize) -> bool;

    /// Whether `encode` succeeds on these points with this auxiliary randomness.
    spec fn encode_ok(points: Seq<(Fp, Fp)>, aux: Fp, params: SolverParams) -> bool;

    /// The value `decode` yields from an encoded structure at a given input.
    spec fn decode_spec(p: Seq<Fp>, x: Fp, aux: Fp, params: SolverParams) -> Fp;

    /// Derives the solver parameters; a pure function of `query_num` alone.
    fn calc_params(query_num: usize) -> (r: SolverParams)
        requires
            Self::params_req(query_num),
        ensures
            r == Self::params_spec(query_num),
    ;

    /// Draws fresh auxiliary randomness for one encode attempt.
    fn gen_aux() -> (r: Fp)
        ensures
            r.wf(),
    ;

    /// Encodes key/value points into a flat structure of field elements.
    /// May fail; the caller retries with fresh auxiliary randomness.
    /// On success, decoding the structure at any inserted key yields the
    /// inserted value.
    fn encode(points: &Vec<(Fp, Fp)>, aux: Fp, params: SolverParams) -> (r: Option<Vec<Fp>>)
        requires
            aux.wf(),
            forall|i: int|
                0 <= i < points@.len() ==> (#[trigger] points@[i]).0.wf() && points@[i].1.wf(),
        ensures
            r is Some <==> Self::encode_ok(points@, aux, params),
            r is Some ==> forall|i: int| 0 <= i < r->Some_0@.len() ==> (#[trigger] r->Some_0@[i]).wf(),
            r is Some ==> forall|i: int|
                0 <= i < points@.len() ==> Self::decode_spec(
                    r->Some_0@,
                    (#[trigger] points@[i]).0,
                    aux,
                    params,
                ) == points@[i].1,
    ;

    /// Decodes the structure at one input; never fails on well-formed inputs.
    fn decode(p: &Vec<Fp>, x: Fp, aux: Fp, params: SolverParams) -> (r: Fp)
        requires
            x.wf(),
            aux.wf(),
            forall|i: int| 0 <= i < p@.len() ==> (#[trigger] p@[i]).wf(),
        ensures
            r == Self::decode_spec(p@, x, aux, params),
            r.wf(),
    ;
}

/// Whether no two points force different values onto the same input.
pub open spec fn conflict_free(points: Seq<(Fp, Fp)>) -> bool {
    forall|a: int, b: int|
        0 <= a < points.len() && 0 <= b < points.len() && (#[trigger] points[a]).0
            == (#[trigger] points[b]).0 ==> points[a].1 == points[b].1
}

/// The flat encoding of `ListSolver`: each point contributes its input and
/// then its value.
pub open spec fn interleave(points: Seq<(Fp, Fp)>) -> Seq<Fp>
    decreases points.len(),
{
    if points.len() == 0 {
        Seq::<Fp>::empty()
    } else {
        seq![points[0].0, points[0].1] + interleave(points.skip(1))
    }
}

/// What scanning the flat structure front to back yields at input `x`:
/// the value paired with the first occurrence of `x`, or a value derived
/// from the auxiliary randomness when `x` was never inserted.
pub open spec fn list_decode(p: Seq<Fp>, x: Fp, aux: Fp) -> Fp
    decreases p.len(),
{
    if p.len() < 2 {
        spec_add(aux, x)
    } else if p[0] == x {
        p[1]
    } else {
        list_decode(p.skip(2), x, aux)
    }
}

proof fn lemma_interleave_push(points: Seq<(Fp, Fp)>, pt: (Fp, Fp))
    ensures
        interleave(points.push(pt)) == interleave(points) + seq![pt.0, pt.1],
    decreases points.len(),
{
    if points.len() == 0 {
        let pp = points.push(pt);
        assert(pp[0] == pt);
        assert(pp.skip(1) =~= Seq::<(Fp, Fp)>::empty());
        assert(interleave(pp) == seq![pp[0].0, pp[0].1] + interleave(pp.skip(1)));
        assert(interleave(pp.skip(1)) == Seq::<Fp>::empty());
        assert(interleave(points) == Seq::<Fp>::empty());
        assert(interleave(points.push(pt)) =~= interleave(points) + seq![pt.0, pt.1]);
    } else {
        let pp = points.push(pt);
        assert(pp[0] == points[0]);
        assert(pp.skip(1) =~= points.skip(1).push(pt));
        lemma_interleave_push(points.skip(1), pt);
        assert(interleave(pp) == seq![pp[0].0, pp[0].1] + interleave(pp.skip(1)));
        assert(interleave(pp.skip(1)) == interleave(points.skip(1)) + seq![pt.0, pt.1]);
        assert(interleave(points) == seq![points[0].0, points[0].1] + interleave(points.skip(1)));
        assert(interleave(points.push(pt)) =~= interleave(points) + seq![pt.0, pt.1]);
    }
}

proof fn lemma_list_decode_programmed(points: Seq<(Fp, Fp)>, aux: Fp, i: int)
    requires
        conflict_free(points),
        0 <= i < points.len(),
    ensures
        list_decode(interleave(points), points[i].0, aux) == points[i].1,
    decreases points.len(),
{
    let p = interleave(points);
    assert(p.skip(2) =~= interleave(points.skip(1)));
    if points[0].0 == points[i].0 {
        assert(points[0].1 == points[i].1);
    } else {
        assert(i >= 1);
        let tail = points.skip(1);
        assert forall|a: int, b: int|
            0 <= a < tail.len() && 0 <= b < tail.len() && (#[trigger] tail[a]).0
                == (#[trigger] tail[b]).0 implies tail[a].1 == tail[b].1 by {
            assert(tail[a] == points[a + 1]);
            assert(tail[b] == points[b + 1]);
        }
        lemma_list_decode_programmed(tail, aux, i - 1);
        assert(tail[i - 1] == points[i]);
    }
}

/// Relies on rand::random: draws one uniformly distributed machine word.
#[verifier::external_body]
fn random_u64() -> u64 {
    rand::random::<u64>()
}

/// A conforming solver that encodes the points as a flat list of
/// input/value pairs and decodes by scanning for the first matching input.
pub struct ListSolver;

impl Solver for ListSolver {
    open spec fn params_spec(query_num: usize) -> SolverParams {
        SolverParams { code_length: (2 * query_num) as usize }
    }

    open spec fn params_req(query_num: usize) -> bool {
        query_num <= usize::MAX / 2
    }

    open spec fn encode_ok(points: Seq<(Fp, Fp)>, aux: Fp, params: SolverParams) -> bool {
        conflict_free(points)
    }

    open spec fn decode_spec(p: Seq<Fp>, x: Fp, aux: Fp, params: SolverParams) -> Fp {
        list_decode(p, x, aux)
    }

    fn calc_params(query_num: usize) -> (r: SolverParams) {
        SolverParams { code_length: 2 * query_num }
    }

    fn gen_aux() -> (r: Fp) {
        Fp::new(random_u64())
    }

    fn encode(points: &Vec<(Fp, Fp)>, aux: Fp, params: SolverParams) -> (r: Option<Vec<Fp>>) {
        let n = points.len();
        let mut i: usize = 0;
        while i < n
            invariant
                n == points@.len(),
                i <= n,
                forall|a: int, b: int|
                    0 <= a < i && 0 <= b < n && (#[trigger] points@[a]).0
                        == (#[trigger] points@[b]).0 ==> points@[a].1 == points@[b].1,
            decreases n - i,
        {
            let mut j: usize = 0;
            while j < n
                invariant
                    n == points@.len(),
                    i < n,
                    j <= n,
                    forall|b: int|
                        0 <= b < j && points@[i as int].0 == (#[trigger] points@[b]).0
                            ==> points@[i as int].1 == points@[b].1,
                decreases n - j,
            {
                if points[i].0 == points[j].0 && points[i].1 != points[j].1 {
                    proof {
                        assert(!conflict_free(points@));
                    }
                    return None;
                }
                j += 1;
            }
            i += 1;
        }
        let mut p: Vec<Fp> = Vec::new();
        let mut k: usize = 0;
        proof {
            assert(points@.subrange(0, 0) =~= Seq::<(Fp, Fp)>::empty());
        }
        while k < n
            invariant
                n == points@.len(),
                k <= n,
                forall|t: int|
                    0 <= t < points@.len() ==> (#[trigger] points@[t]).0.wf()
                        && points@[t].1.wf(),
                p@ == interleave(points@.subrange(0, k as int)),
                forall|t: int| 0 <= t < p@.len() ==> (#[trigger] p@[t]).wf(),
            decreases n - k,
        {
            p.push(points[k].0);
            p.push(points[k].1);
            proof {
                let prefix = points@.subrange(0, k as int);
                lemma_interleave_push(prefix, points@[k as int]);
                assert(prefix.push(points@[k as int]) =~= points@.subrange(0, k as int + 1));
                assert(p@ =~= interleave(points@.subrange(0, k as int + 1)));
            }
            k += 1;
        }
        proof {
            assert(points@.subrange(0, n as int) =~= points@);
            assert(conflict_free(points@));
            assert forall|t: int| 0 <= t < points@.len() implies list_decode(
                p@,
                (#[trigger] points@[t]).0,
                aux,
            ) == points@[t].1 by {
                lemma_list_decode_programmed(points@, aux, t);
            }
        }
        Some(p)
    }

    fn decode(p: &Vec<Fp>, x: Fp, aux: Fp, params: SolverParams) -> (r: Fp) {
        let n = p.len();
        let pairs = n / 2;
        let mut i: usize = 0;
        proof {
            assert(p@.skip(0) =~= p@);
        }
        while i < pairs
            invariant
                n == p@.len(),
                pairs == n / 2,
                i <= pairs,
                x.wf(),
                aux.wf(),
                forall|t: int| 0 <= t < p@.len() ==> (#[trigger] p@[t]).wf(),
                list_decode(p@, x, aux) == list_decode(p@.skip(2 * (i as int)), x, aux),
            decreases pairs - i,
        {
            if p[2 * i] == x {
                proof {
                    assert(p@.skip(2 * (i as int))[0] == p@[2 * (i as int)]);
                    assert(p@.skip(2 * (i as int))[1] == p@[2 * (i as int) + 1]);
                }
                return p[2 * i + 1];
            }
            proof {
                assert(p@.skip(2 * (i as int)).skip(2) =~= p@.skip(2 * (i as int) + 2));
            }
            i += 1;
        }
        proof {
            assert(p@.skip(2 * (pairs as int)).len() < 2);
        }
        aux.add(x)
    }
}

} // verus!
