//! Oblivious Programmable Pseudo-Random Function (OPPRF) composition layer.
//!
//! A Sender programs a PRF so that it maps chosen input points to chosen
//! output values while remaining pseudorandom elsewhere; a Receiver evaluates
//! the function obliviously on its own queries.  This module composes a base
//! OPRF with a pluggable encode/decode solver:
//!
//! - The Sender evaluates the base OPRF at each programmed input, encodes the
//!   *residuals* `y = z - fk_base(x)` with the solver (retrying with fresh
//!   auxiliary randomness up to a fixed bound), and transmits the auxiliary
//!   randomness followed by the encoded structure.
//! - The Receiver decodes the structure at each query and adds back its own
//!   base-OPRF value, so the base term cancels exactly at programmed points.
//!
//! The two roles run on independent execution contexts joined by an
//! order-preserving channel; the channel itself (and the byte-level wire
//! format) belongs to an outer layer, which carries the [`OpprfPayload`]
//! produced by [`SepOpprfSender::send`] to [`SepOpprfReceiver::receive`].

use vstd::prelude::*;
use std::marker::PhantomData;
use crate::field::{lemma_sub_add_cancel, spec_add, spec_sub, Fp};
use crate::oprf::BaseOprf;
use crate::solver::{Solver, SolverParams};

verus! {

/// How many times one `send` may attempt to encode, each attempt with fresh
/// auxiliary randomness, before the whole run fails.  A policy constant, not
/// an invariant of the protocol's algebra.
pub const ENCODE_ATTEMPTS: usize = 2;

/// The failures this layer itself can produce.  Collaborator failures
/// (channel, base OPRF) surface in the outer layers that run them.
#[derive(Clone, Copy, PartialEq, Eq, Structural, Debug)]
pub enum OpprfError {
    /// Encoding failed on every allowed attempt; the protocol run must be
    /// aborted and restarted from precompute with fresh randomness.
    EncodingFailed,
}

/// The single Sender-to-Receiver message of the online phase: the auxiliary
/// randomness first, then the encoded structure, matching the fixed wire
/// order (aux strictly before the structure).
pub struct OpprfPayload {
    /// Solver-specific auxiliary randomness of the successful encode attempt.
    pub aux: Fp,
    /// The encoded structure: an ordered sequence of field elements.
    pub p: Vec<Fp>,
}

impl OpprfPayload {
    /// Every transmitted element is a canonical field element.
    pub open spec fn wf(self) -> bool {
        self.aux.wf() && forall|i: int| 0 <= i < self.p@.len() ==> (#[trigger] self.p@[i]).wf()
    }
}

/// The value of the composed programmable function determined by an encoded
/// structure, auxiliary randomness, solver parameters and base OPRF:
/// `decode(P, x, aux, params) + fk_base(x)`.  Both roles compute exactly
/// this value.
pub open spec fn opprf_value<S: Solver>(
    p: Seq<Fp>,
    aux: Fp,
    params: SolverParams,
    base: BaseOprf,
    x: Fp,
) -> Fp {
    spec_add(S::decode_spec(p, x, aux, params), base.eval_spec(x))
}

/// The residual points the Sender encodes: each programmed output with the
/// base-OPRF value at its input subtracted.
pub open spec fn residuals(points: Seq<(Fp, Fp)>, base: BaseOprf) -> Seq<(Fp, Fp)> {
    points.map_values(|pt: (Fp, Fp)| (pt.0, spec_sub(pt.1, base.eval_spec(pt.0))))
}

/// The programmable function the Sender is left with: a value capturing the
/// encoded structure, the auxiliary randomness, the solver parameters and
/// the base-OPRF capability, evaluable repeatedly at any input.
#[verifier::reject_recursive_types(S)]
pub struct ProgramFunction<S: Solver> {
    pub p: Vec<Fp>,
    pub aux: Fp,
    pub params: SolverParams,
    pub base: BaseOprf,
    pub solver: PhantomData<S>,
}

impl<S: Solver> ProgramFunction<S> {
    /// The captured state is made of canonical field elements.
    pub open spec fn wf(self) -> bool {
        self.aux.wf() && self.base.wf() && forall|i: int|
            0 <= i < self.p@.len() ==> (#[trigger] self.p@[i]).wf()
    }

    /// The value of the composed function at `x`.
    pub open spec fn value_spec(self, x: Fp) -> Fp {
        opprf_value::<S>(self.p@, self.aux, self.params, self.base, x)
    }

    /// Evaluates the composed function at `x`; pure and repeatable.
    pub fn evaluate(&self, x: Fp) -> (r: Result<Fp, OpprfError>)
        requires
            self.wf(),
            x.wf(),
        ensures
            r is Ok,
            r->Ok_0 == self.value_spec(x),
            r->Ok_0.wf(),
    {
        let d = S::decode(&self.p, x, self.aux, self.params);
        Ok(d.add(self.base.eval(x)))
    }
}

/// Trait indicating that the OPPRF constraints are satisfied.
pub trait ObliviousProgrammablePrf where Self: Sized {
    /// PPRF seed.
    type Seed;

    /// PPRF input.
    type Input;

    /// PPRF output.
    type Output;
}

/// Capability contract of the Separated OPPRF Sender.
pub trait SepOpprfSender: ObliviousProgrammablePrf where Self: Sized {
    /// The outcome of the offline precomputation collaborators (the base
    /// OPRF run over its correlated-randomness source).
    type PrecompSystem;

    /// The programmable function the online phase returns.
    type Fk;

    /// Well-formedness of a precomputed Sender.
    spec fn wf(self) -> bool;

    /// Well-formedness of the precomputation outcome handed in.
    spec fn system_wf(system: Self::PrecompSystem) -> bool;

    /// The machine-size bound under which parameters can be derived.
    spec fn sized_ok(query_num: usize) -> bool;

    /// The Sender state precompute constructs.
    spec fn precomp_spec(query_num: usize, system: Self::PrecompSystem) -> Self;

    /// Well-formedness of the returned programmable function.
    spec fn fk_wf(fk: Self::Fk) -> bool;

    /// The value of the returned programmable function at an input.
    spec fn fk_value(fk: Self::Fk, x: Fp) -> Fp;

    /// The function value that a transmitted payload determines, as this
    /// Sender's peer will recompute it.
    spec fn sent_value(self, payload: OpprfPayload, x: Fp) -> Fp;

    /// Whether encoding these points succeeds for every draw of auxiliary
    /// randomness, so that `send` owes success.
    spec fn encode_always_ok(self, points: Seq<(Fp, Fp)>) -> bool;

    /// Offline phase: consumes the precomputation outcome, sized for
    /// `query_num` points.
    fn precomp(query_num: usize, system: Self::PrecompSystem) -> (r: Result<Self, OpprfError>)
        requires
            Self::sized_ok(query_num),
            Self::system_wf(system),
        ensures
            r is Ok,
            r->Ok_0 == Self::precomp_spec(query_num, system),
            r->Ok_0.wf(),
    ;

    /// Online phase; consumes the Sender.  On success, returns the payload
    /// to transmit and a function that maps every programmed input to its
    /// programmed output and agrees everywhere with what the payload
    /// determines for the peer.  `query_num` sizes the base-OPRF online run
    /// and is the caller's responsibility to keep equal to the precompute
    /// sizing; this layer does not check the match.
    fn send(self, points: &Vec<(Fp, Fp)>, query_num: usize) -> (r: Result<
        (OpprfPayload, Self::Fk),
        OpprfError,
    >)
        requires
            self.wf(),
            forall|i: int|
                0 <= i < points@.len() ==> (#[trigger] points@[i]).0.wf() && points@[i].1.wf(),
        ensures
            r is Ok ==> (r->Ok_0).0.wf() && Self::fk_wf((r->Ok_0).1),
            r is Ok ==> forall|i: int|
                0 <= i < points@.len() ==> Self::fk_value(
                    (r->Ok_0).1,
                    (#[trigger] points@[i]).0,
                ) == points@[i].1,
            r is Ok ==> forall|x: Fp|
                x.wf() ==> Self::fk_value((r->Ok_0).1, x) == self.sent_value((r->Ok_0).0, x),
            self.encode_always_ok(points@) ==> r is Ok,
            r is Err ==> r->Err_0 == OpprfError::EncodingFailed,
    ;
}

/// Capability contract of the Separated OPPRF Receiver.
pub trait SepOpprfReceiver: ObliviousProgrammablePrf where Self: Sized {
    /// The outcome of the offline precomputation collaborators (the base
    /// OPRF run over its correlated-randomness source).
    type PrecompSystem;

    /// Well-formedness of a precomputed Receiver.
    spec fn wf(self) -> bool;

    /// Well-formedness of the precomputation outcome handed in.
    spec fn system_wf(system: Self::PrecompSystem) -> bool;

    /// The machine-size bound under which parameters can be derived.
    spec fn sized_ok(query_num: usize) -> bool;

    /// The Receiver state precompute constructs.
    spec fn precomp_spec(query_num: usize, system: Self::PrecompSystem) -> Self;

    /// The output this Receiver computes for one query from a received
    /// payload.
    spec fn output_value(self, payload: OpprfPayload, x: Fp) -> Fp;

    /// Offline phase: consumes the precomputation outcome, sized for
    /// `query_num` queries.
    fn precomp(query_num: usize, system: Self::PrecompSystem) -> (r: Result<Self, OpprfError>)
        requires
            Self::sized_ok(query_num),
            Self::system_wf(system),
        ensures
            r is Ok,
            r->Ok_0 == Self::precomp_spec(query_num, system),
            r->Ok_0.wf(),
    ;

    /// Online phase; consumes the Receiver.  Returns one output per query,
    /// in the order the queries were submitted.
    fn receive(self, payload: &OpprfPayload, queries: &Vec<Fp>) -> (r: Result<
        Vec<(Fp, Fp)>,
        OpprfError,
    >)
        requires
            self.wf(),
            payload.wf(),
            forall|i: int| 0 <= i < queries@.len() ==> (#[trigger] queries@[i]).wf(),
        ensures
            r is Ok,
            r->Ok_0@.len() == queries@.len(),
            forall|i: int|
                0 <= i < queries@.len() ==> (#[trigger] r->Ok_0@[i]).0 == queries@[i],
            forall|i: int|
                0 <= i < queries@.len() ==> (#[trigger] r->Ok_0@[i]).1 == self.output_value(
                    *payload,
                    queries@[i],
                ),
    ;
}

/// Separated OPPRF Sender composed from a base OPRF (derived, in the full
/// system, over a vector-OLE correlated-randomness source) and a solver.
#[verifier::reject_recursive_types(S)]
pub struct SepOpprfSenderWithVole<S: Solver> {
    pub params: SolverParams,
    pub oprf_sender: BaseOprf,
    pub solver: PhantomData<S>,
}

/// Separated OPPRF Receiver composed from a base OPRF (derived, in the full
/// system, over a vector-OLE correlated-randomness source) and a solver.
#[verifier::reject_recursive_types(S)]
pub struct SepOpprfReceiverWithVole<S: Solver> {
    pub params: SolverParams,
    pub oprf_receiver: BaseOprf,
    pub solver: PhantomData<S>,
}

impl<S: Solver> ObliviousProgrammablePrf for SepOpprfSenderWithVole<S> {
    type Seed = ();

    type Input = Fp;

    type Output = Fp;
}

impl<S: Solver> ObliviousProgrammablePrf for SepOpprfReceiverWithVole<S> {
    type Seed = ();

    type Input = Fp;

    type Output = Fp;
}

fn copy_vec(v: &Vec<Fp>) -> (r: Vec<Fp>)
    ensures
        r@ == v@,
{
    let mut r: Vec<Fp> = Vec::new();
    let mut i: usize = 0;
    while i < v.len()
        invariant
            i <= v@.len(),
            r@.len() == i,
            forall|j: int| 0 <= j < i ==> (#[trigger] r@[j]) == v@[j],
        decreases v@.len() - i,
    {
        r.push(v[i]);
        i += 1;
    }
    proof {
        assert(r@ =~= v@);
    }
    r
}

impl<S: Solver> SepOpprfSender for SepOpprfSenderWithVole<S> {
    type PrecompSystem = BaseOprf;

    type Fk = ProgramFunction<S>;

    open spec fn wf(self) -> bool {
        self.oprf_sender.wf()
    }

    open spec fn system_wf(system: BaseOprf) -> bool {
        system.wf()
    }

    open spec fn sized_ok(query_num: usize) -> bool {
        S::params_req(query_num)
    }

    open spec fn precomp_spec(query_num: usize, system: BaseOprf) -> Self {
        SepOpprfSenderWithVole {
            params: S::params_spec(query_num),
            oprf_sender: system,
            solver: PhantomData,
        }
    }

    open spec fn fk_wf(fk: ProgramFunction<S>) -> bool {
        fk.wf()
    }

    open spec fn fk_value(fk: ProgramFunction<S>, x: Fp) -> Fp {
        fk.value_spec(x)
    }

    open spec fn sent_value(self, payload: OpprfPayload, x: Fp) -> Fp {
        opprf_value::<S>(payload.p@, payload.aux, self.params, self.oprf_sender, x)
    }

    open spec fn encode_always_ok(self, points: Seq<(Fp, Fp)>) -> bool {
        forall|a: Fp|
            a.wf() ==> S::encode_ok(residuals(points, self.oprf_sender), a, self.params)
    }

    /// Offline phase: stores the solver parameters for `query_num` and the
    /// base-OPRF capability the offline collaborators produced.
    fn precomp(query_num: usize, system: BaseOprf) -> (r: Result<Self, OpprfError>) {
        let params = S::calc_params(query_num);
        Ok(SepOpprfSenderWithVole { params, oprf_sender: system, solver: PhantomData })
    }

    /// Online phase: computes the residual of every programmed point,
    /// encodes the residuals (retrying with fresh auxiliary randomness up to
    /// the fixed bound), and returns the payload together with the composed
    /// programmable function.
    fn send(self, points: &Vec<(Fp, Fp)>, query_num: usize) -> (r: Result<
        (OpprfPayload, ProgramFunction<S>),
        OpprfError,
    >) {
        let base = self.oprf_sender;
        let n = points.len();
        let mut resid: Vec<(Fp, Fp)> = Vec::new();
        let mut i: usize = 0;
        while i < n
            invariant
                n == points@.len(),
                i <= n,
                base.wf(),
                forall|j: int|
                    0 <= j < n ==> (#[trigger] points@[j]).0.wf() && points@[j].1.wf(),
                resid@.len() == i,
                forall|j: int|
                    0 <= j < i ==> (#[trigger] resid@[j]) == (
                        points@[j].0,
                        spec_sub(points@[j].1, base.eval_spec(points@[j].0)),
                    ),
                forall|j: int| 0 <= j < i ==> (#[trigger] resid@[j]).0.wf() && resid@[j].1.wf(),
            decreases n - i,
        {
            let (x, z) = points[i];
            let y = z.sub(base.eval(x));
            resid.push((x, y));
            i += 1;
        }
        proof {
            assert(resid@ =~= residuals(points@, base));
        }
        let params = self.params;
        let mut aux = S::gen_aux();
        let mut p_opt = S::encode(&resid, aux, params);
        let mut tries: usize = 1;
        while p_opt.is_none() && tries < ENCODE_ATTEMPTS
            invariant
                aux.wf(),
                resid@ == residuals(points@, base),
                forall|j: int|
                    0 <= j < resid@.len() ==> (#[trigger] resid@[j]).0.wf() && resid@[j].1.wf(),
                p_opt is Some <==> S::encode_ok(resid@, aux, params),
                p_opt is Some ==> forall|t: int|
                    0 <= t < p_opt->Some_0@.len() ==> (#[trigger] p_opt->Some_0@[t]).wf(),
                p_opt is Some ==> forall|j: int|
                    0 <= j < resid@.len() ==> S::decode_spec(
                        p_opt->Some_0@,
                        (#[trigger] resid@[j]).0,
                        aux,
                        params,
                    ) == resid@[j].1,
                tries >= 1,
            decreases ENCODE_ATTEMPTS - tries,
        {
            aux = S::gen_aux();
            p_opt = S::encode(&resid, aux, params);
            tries += 1;
        }
        match p_opt {
            None => {
                proof {
                    if self.encode_always_ok(points@) {
                        assert(S::encode_ok(residuals(points@, self.oprf_sender), aux, self.params));
                    }
                }
                Err(OpprfError::EncodingFailed)
            },
            Some(p) => {
                let p_wire = copy_vec(&p);
                let payload = OpprfPayload { aux, p: p_wire };
                let fk = ProgramFunction { p, aux, params, base, solver: PhantomData };
                proof {
                    assert forall|i2: int|
                        0 <= i2 < points@.len() implies fk.value_spec(
                        (#[trigger] points@[i2]).0,
                    ) == points@[i2].1 by {
                        assert(resid@[i2] == (
                            points@[i2].0,
                            spec_sub(points@[i2].1, base.eval_spec(points@[i2].0)),
                        ));
                        assert(S::decode_spec(fk.p@, resid@[i2].0, aux, params) == resid@[i2].1);
                        lemma_sub_add_cancel(points@[i2].1, base.eval_spec(points@[i2].0));
                    }
                }
                Ok((payload, fk))
            },
        }
    }
}

impl<S: Solver> SepOpprfReceiver for SepOpprfReceiverWithVole<S> {
    type PrecompSystem = BaseOprf;

    open spec fn wf(self) -> bool {
        self.oprf_receiver.wf()
    }

    open spec fn system_wf(system: BaseOprf) -> bool {
        system.wf()
    }

    open spec fn sized_ok(query_num: usize) -> bool {
        S::params_req(query_num)
    }

    open spec fn precomp_spec(query_num: usize, system: BaseOprf) -> Self {
        SepOpprfReceiverWithVole {
            params: S::params_spec(query_num),
            oprf_receiver: system,
            solver: PhantomData,
        }
    }

    open spec fn output_value(self, payload: OpprfPayload, x: Fp) -> Fp {
        opprf_value::<S>(payload.p@, payload.aux, self.params, self.oprf_receiver, x)
    }

    /// Offline phase: stores the solver parameters for `query_num` and the
    /// base-OPRF capability the offline collaborators produced.
    fn precomp(query_num: usize, system: BaseOprf) -> (r: Result<Self, OpprfError>) {
        let params = S::calc_params(query_num);
        Ok(SepOpprfReceiverWithVole { params, oprf_receiver: system, solver: PhantomData })
    }

    /// Online phase: evaluates the base OPRF at every query, then decodes
    /// the received structure at each query and adds the base value back,
    /// preserving query order.
    fn receive(self, payload: &OpprfPayload, queries: &Vec<Fp>) -> (r: Result<
        Vec<(Fp, Fp)>,
        OpprfError,
    >) {
        let params = self.params;
        let base = self.oprf_receiver;
        let n = queries.len();
        let mut oprf_res: Vec<(Fp, Fp)> = Vec::new();
        let mut i: usize = 0;
        while i < n
            invariant
                n == queries@.len(),
                i <= n,
                base.wf(),
                forall|j: int| 0 <= j < n ==> (#[trigger] queries@[j]).wf(),
                oprf_res@.len() == i,
                forall|j: int|
                    0 <= j < i ==> (#[trigger] oprf_res@[j]) == (
                        queries@[j],
                        base.eval_spec(queries@[j]),
                    ),
                forall|j: int|
                    0 <= j < i ==> (#[trigger] oprf_res@[j]).0.wf() && oprf_res@[j].1.wf(),
            decreases n - i,
        {
            let x = queries[i];
            oprf_res.push((x, base.eval(x)));
            i += 1;
        }
        let aux = payload.aux;
        let mut out: Vec<(Fp, Fp)> = Vec::new();
        let mut k: usize = 0;
        while k < n
            invariant
                n == queries@.len(),
                k <= n,
                base == self.oprf_receiver,
                params == self.params,
                base.wf(),
                aux == payload.aux,
                payload.wf(),
                oprf_res@.len() == n,
                forall|j: int|
                    0 <= j < n ==> (#[trigger] oprf_res@[j]) == (
                        queries@[j],
                        base.eval_spec(queries@[j]),
                    ),
                forall|j: int|
                    0 <= j < n ==> (#[trigger] oprf_res@[j]).0.wf() && oprf_res@[j].1.wf(),
                out@.len() == k,
                forall|j: int| 0 <= j < k ==> (#[trigger] out@[j]).0 == queries@[j],
                forall|j: int|
                    0 <= j < k ==> (#[trigger] out@[j]).1 == opprf_value::<S>(
                        payload.p@,
                        payload.aux,
                        self.params,
                        self.oprf_receiver,
                        queries@[j],
                    ),
            decreases n - k,
        {
            let (x, fkx) = oprf_res[k];
            let d = S::decode(&payload.p, x, aux, params);
            let y = d.add(fkx);
            out.push((x, y));
            k += 1;
        }
        Ok(out)
    }
}

/// Law of programmed-point correctness: when an encoded structure decodes,
/// at every programmed input, to the residual of that point, the composed
/// function takes exactly the programmed output there.
pub proof fn lemma_programmed_point<S: Solver>(
    points: Seq<(Fp, Fp)>,
    p: Seq<Fp>,
    aux: Fp,
    params: SolverParams,
    base: BaseOprf,
    i: int,
)
    requires
        forall|j: int| 0 <= j < points.len() ==> (#[trigger] points[j]).0.wf() && points[j].1.wf(),
        base.wf(),
        forall|j: int|
            0 <= j < points.len() ==> S::decode_spec(p, (#[trigger] points[j]).0, aux, params)
                == spec_sub(points[j].1, base.eval_spec(points[j].0)),
        0 <= i < points.len(),
    ensures
        opprf_value::<S>(p, aux, params, base, points[i].0) == points[i].1,
{
    lemma_sub_add_cancel(points[i].1, base.eval_spec(points[i].0));
}

/// Law of consistency across roles: a Sender and a Receiver whose precompute
/// phases left them with the same solver parameters and the same base-OPRF
/// capability derive, from one payload, the same function value at every
/// input.
pub proof fn lemma_roles_consistent<S: Solver>(
    sender: SepOpprfSenderWithVole<S>,
    receiver: SepOpprfReceiverWithVole<S>,
    payload: OpprfPayload,
    x: Fp,
)
    requires
        sender.params == receiver.params,
        sender.oprf_sender == receiver.oprf_receiver,
    ensures
        sender.sent_value(payload, x) == receiver.output_value(payload, x),
{
}

/// Law of programmed-point correctness across roles: when the Sender's
/// composed function takes the value `z` at an input — in particular the
/// programmed output at a programmed input — and that function agrees with
/// what the transmitted payload determines, then a Receiver whose precompute
/// matches the Sender's computes the same `z` for that input.
pub proof fn lemma_programmed_query_agrees<S: Solver>(
    sender: SepOpprfSenderWithVole<S>,
    receiver: SepOpprfReceiverWithVole<S>,
    payload: OpprfPayload,
    fk: ProgramFunction<S>,
    x: Fp,
    z: Fp,
)
    requires
        sender.params == receiver.params,
        sender.oprf_sender == receiver.oprf_receiver,
        x.wf(),
        fk.value_spec(x) == z,
        forall|q: Fp| q.wf() ==> fk.value_spec(q) == sender.sent_value(payload, q),
    ensures
        receiver.output_value(payload, x) == z,
{
    lemma_roles_consistent::<S>(sender, receiver, payload, x);
}

/// Law of parameter determinism: the solver parameters are a pure function
/// of the point count, so any two derivations for the same count — on the
/// same role or across the two roles — agree.
pub proof fn lemma_calc_params_deterministic<S: Solver>(
    n: usize,
    r1: SolverParams,
    r2: SolverParams,
)
    requires
        r1 == S::params_spec(n),
        r2 == S::params_spec(n),
    ensures
        r1 == r2,
{
}

/// Duplicating a precomputed Sender is allowed **for benchmarking purposes
/// only**: a clone reuses correlated randomness, which breaks the secrecy
/// guarantees if both copies run genuine protocol executions.
impl<S: Solver> Clone for SepOpprfSenderWithVole<S> {
    fn clone(&self) -> (r: Self)
        ensures
            r == *self,
    {
        SepOpprfSenderWithVole {
            params: self.params,
            oprf_sender: self.oprf_sender,
            solver: PhantomData,
        }
    }
}

/// Duplicating a precomputed Receiver is allowed **for benchmarking purposes
/// only**: a clone reuses correlated randomness, which breaks the secrecy
/// guarantees if both copies run genuine protocol executions.
impl<S: Solver> Clone for SepOpprfReceiverWithVole<S> {
    fn clone(&self) -> (r: Self)
        ensures
            r == *self,
    {
        SepOpprfReceiverWithVole {
            params: self.params,
            oprf_receiver: self.oprf_receiver,
            solver: PhantomData,
        }
    }
}

} // verus!
