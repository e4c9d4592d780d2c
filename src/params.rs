use vstd::prelude::*;

use crate::error::ParamError;
use crate::labels::{indexed, indexed_label};

verus! {

/// One logistic transition `kappa * (1 + tanh(alpha * t + beta))`, generic over
/// the scalar that holds its parameters. `kappa` is the linear amplitude,
/// `alpha` and `beta` the nonlinear rate and phase.
#[derive(Debug, Clone, Copy, PartialEq)]
pub struct ModelTanh<S> {
    pub kappa: S,
    pub alpha: S,
    pub beta: S,
}

/// A flat offset `k`, a single linear parameter.
#[derive(Debug, Clone, Copy, PartialEq)]
pub struct ModelConstant<S> {
    pub k: S,
}

/// An ordered sum of transitions.
#[derive(Debug, Clone, PartialEq)]
pub struct ModelAdditive<S> {
    pub components: Vec<ModelTanh<S>>,
}

/// A sum of transitions plus a constant offset.
#[derive(Debug, Clone, PartialEq)]
pub struct AffineAdditive<S> {
    pub tm: ModelAdditive<S>,
    pub km: ModelConstant<S>,
}

/// What every model offers: a flat parameter vector in a fixed layout, read
/// and written as a whole, the subset of it that the nonlinear solver moves,
/// and an independent copy.
pub trait ParameterizedModel<S>: Sized {
    /// The flat parameter vector.
    spec fn params(&self) -> Seq<S>;

    /// The parameters that the nonlinear solver moves.
    spec fn nonlinear_params(&self) -> Seq<S>;

    /// The length of the parameter vector fits in a `usize`.
    spec fn layout_fits(&self) -> bool;

    /// The flat parameter vector.
    fn get_all_params(&self) -> (r: Vec<S>)
        requires
            self.layout_fits(),
        ensures
            r@ == self.params(),
    ;

    /// Overwrites every parameter, position by position, from a vector of the
    /// same length as `get_all_params`; any other length is refused and leaves
    /// the model unchanged.
    fn set_all_params(&mut self, p: &[S]) -> (r: Result<(), ParamError>)
        requires
            old(self).layout_fits(),
        ensures
            final(self).layout_fits(),
            p@.len() == old(self).params().len() ==> r is Ok && final(self).params() == p@,
            p@.len() != old(self).params().len() ==> r == Err::<(), ParamError>(
                ParamError::ParameterLengthMismatch {
                    expected: old(self).params().len() as usize,
                    found: p@.len() as usize,
                },
            ) && *final(self) == *old(self),
    ;

    /// The parameters that the nonlinear solver moves, in layout order.
    fn get_nonlinear_params(&self) -> (r: Vec<S>)
        requires
            self.layout_fits(),
        ensures
            r@ == self.nonlinear_params(),
    ;

    /// An independent copy with the same parameters.
    fn get_copy(&self) -> (r: Self)
        ensures
            r.params() == self.params(),
            r.layout_fits() == self.layout_fits(),
    ;
}

impl<S> ModelTanh<S> {
    /// The parameter triplet `[kappa, alpha, beta]`.
    pub open spec fn triplet(self) -> Seq<S> {
        seq![self.kappa, self.alpha, self.beta]
    }
}

impl<S: Copy> ModelTanh<S> {
    pub fn new(kappa: S, alpha: S, beta: S) -> (m: Self)
        ensures
            m == (ModelTanh { kappa, alpha, beta }),
    {
        ModelTanh { kappa, alpha, beta }
    }
}

impl<S: Copy> ParameterizedModel<S> for ModelTanh<S> {
    open spec fn params(&self) -> Seq<S> {
        self.triplet()
    }

    open spec fn nonlinear_params(&self) -> Seq<S> {
        seq![self.alpha, self.beta]
    }

    open spec fn layout_fits(&self) -> bool {
        true
    }

    /// `[kappa, alpha, beta]`.
    fn get_all_params(&self) -> (r: Vec<S>)
    {
        let r = vec![self.kappa, self.alpha, self.beta];
        assert(r@ =~= self.triplet());
        r
    }

    /// Overwrites the triplet from `p`, which must hold exactly three values.
    fn set_all_params(&mut self, p: &[S]) -> (r: Result<(), ParamError>)
        ensures
            p@.len() == 3 ==> r is Ok && *final(self) == (ModelTanh { kappa: p@[0], alpha: p@[1], beta: p@[2] }),
            p@.len() != 3 ==> r == Err::<(), ParamError>(ParamError::ParameterLengthMismatch { expected: 3, found: p@.len() as usize })
                && *final(self) == *old(self),
    {
        if p.len() != 3 {
            return Err(ParamError::ParameterLengthMismatch { expected: 3, found: p.len() });
        }
        self.kappa = p[0];
        self.alpha = p[1];
        self.beta = p[2];
        Ok(())
    }

    /// `[alpha, beta]`: the parameters the nonlinear solver moves.
    fn get_nonlinear_params(&self) -> (r: Vec<S>)
    {
        let r = vec![self.alpha, self.beta];
        assert(r@ =~= seq![self.alpha, self.beta]);
        r
    }

    /// An independent copy.
    fn get_copy(&self) -> (r: Self)
        ensures
            r == *self,
    {
        ModelTanh { kappa: self.kappa, alpha: self.alpha, beta: self.beta }
    }
}

impl<S: Copy> ModelConstant<S> {
    pub fn new(k: S) -> (m: Self)
        ensures
            m.k == k,
    {
        ModelConstant { k }
    }
}

impl<S: Copy> ParameterizedModel<S> for ModelConstant<S> {
    open spec fn params(&self) -> Seq<S> {
        seq![self.k]
    }

    open spec fn nonlinear_params(&self) -> Seq<S> {
        Seq::empty()
    }

    open spec fn layout_fits(&self) -> bool {
        true
    }

    /// `[k]`.
    fn get_all_params(&self) -> (r: Vec<S>)
    {
        let r = vec![self.k];
        assert(r@ =~= seq![self.k]);
        r
    }

    /// Overwrites `k` from `p`, which must hold exactly one value.
    fn set_all_params(&mut self, p: &[S]) -> (r: Result<(), ParamError>)
        ensures
            p@.len() == 1 ==> r is Ok && final(self).k == p@[0],
            p@.len() != 1 ==> r == Err::<(), ParamError>(ParamError::ParameterLengthMismatch { expected: 1, found: p@.len() as usize })
                && *final(self) == *old(self),
    {
        if p.len() != 1 {
            return Err(ParamError::ParameterLengthMismatch { expected: 1, found: p.len() });
        }
        self.k = p[0];
        Ok(())
    }

    /// A constant has no nonlinear parameter.
    fn get_nonlinear_params(&self) -> (r: Vec<S>)
    {
        let r: Vec<S> = Vec::new();
        assert(r@ =~= Seq::<S>::empty());
        r
    }

    /// An independent copy.
    fn get_copy(&self) -> (r: Self)
        ensures
            r == *self,
    {
        ModelConstant { k: self.k }
    }
}

/// Parameters of a list of transitions: each triplet in order.
pub open spec fn transition_params<S>(c: Seq<ModelTanh<S>>) -> Seq<S> {
    Seq::new(3 * c.len(), |j: int| c[j / 3].triplet()[j % 3])
}

/// Nonlinear parameters of a list of transitions: each `[alpha, beta]` in order.
pub open spec fn transition_nonlinear<S>(c: Seq<ModelTanh<S>>) -> Seq<S> {
    Seq::new(2 * c.len(), |j: int| if j % 2 == 0 { c[j / 2].alpha } else { c[j / 2].beta })
}

/// The `n` transitions whose triplets are read from the front of `p`.
pub open spec fn transitions_from<S>(p: Seq<S>, n: nat) -> Seq<ModelTanh<S>> {
    Seq::new(n, |i: int| ModelTanh { kappa: p[3 * i], alpha: p[3 * i + 1], beta: p[3 * i + 2] })
}

proof fn lemma_div_mod_3(i: int, r: int)
    requires
        0 <= i,
        0 <= r < 3,
    ensures
        (3 * i + r) / 3 == i,
        (3 * i + r) % 3 == r,
{
}

proof fn lemma_div_mod_2(i: int, r: int)
    requires
        0 <= i,
        0 <= r < 2,
    ensures
        (2 * i + r) / 2 == i,
        (2 * i + r) % 2 == r,
{
}

/// Entries `2k` and `2k + 1` of `labels` name the rate and phase of
/// transition `k`: `alpha_k` and `beta_k`.
pub open spec fn labels_at(labels: Seq<String>, k: int) -> bool {
    &&& labels[2 * k]@ == indexed("alpha"@, k as nat)
    &&& labels[2 * k + 1]@ == indexed("beta"@, k as nat)
}

impl<S> View for ModelAdditive<S> {
    type V = Seq<ModelTanh<S>>;

    open spec fn view(&self) -> Seq<ModelTanh<S>> {
        self.components@
    }
}

impl<S: Copy> ModelAdditive<S> {
    pub fn new(components: Vec<ModelTanh<S>>) -> (m: Self)
        ensures
            m@ == components@,
    {
        ModelAdditive { components }
    }

    /// Names of the nonlinear parameters handed to the separable solver:
    /// `alpha_k`, `beta_k` for each transition `k`, in the order of
    /// `get_nonlinear_params`.
    pub fn separable_labels(&self) -> (r: Vec<String>)
        requires
            self.layout_fits(),
        ensures
            r@.len() == 2 * self@.len(),
            forall|k: int| 0 <= k < self@.len() ==> #[trigger] labels_at(r@, k),
    {
        let n = self.components.len();
        let mut r: Vec<String> = Vec::new();
        let mut i: usize = 0;
        while i < n
            invariant
                n == self@.len(),
                3 * n + 1 <= usize::MAX,
                i <= n,
                r@.len() == 2 * i,
                forall|k: int| 0 <= k < i ==> #[trigger] labels_at(r@, k),
            decreases n - i,
        {
            let ghost prev = r@;
            r.push(indexed_label("alpha", i));
            r.push(indexed_label("beta", i));
            assert forall|k: int| 0 <= k < i + 1 implies #[trigger] labels_at(r@, k) by {
                if k < i {
                    assert(labels_at(prev, k));
                    assert(r@[2 * k] == prev[2 * k]);
                    assert(r@[2 * k + 1] == prev[2 * k + 1]);
                }
            }
            i = i + 1;
        }
        r
    }

    /// Same as `get_nonlinear_params`: the separable solver's initial point.
    pub fn get_separable_params(&self) -> (r: Vec<S>)
        requires
            self.layout_fits(),
        ensures
            r@ == transition_nonlinear(self@),
    {
        self.get_nonlinear_params()
    }
}

impl<S: Copy> ParameterizedModel<S> for ModelAdditive<S> {
    open spec fn params(&self) -> Seq<S> {
        transition_params(self@)
    }

    open spec fn nonlinear_params(&self) -> Seq<S> {
        transition_nonlinear(self@)
    }

    open spec fn layout_fits(&self) -> bool {
        3 * self@.len() + 1 <= usize::MAX
    }

    /// The triplets of all transitions, in order.
    fn get_all_params(&self) -> (r: Vec<S>)
    {
        let n = self.components.len();
        let mut r: Vec<S> = Vec::new();
        let mut i: usize = 0;
        while i < n
            invariant
                n == self@.len(),
                3 * n + 1 <= usize::MAX,
                i <= n,
                r@.len() == 3 * i,
                forall|j: int| 0 <= j < 3 * i ==> r@[j] == transition_params(self@)[j],
            decreases n - i,
        {
            let c = self.components[i];
            r.push(c.kappa);
            r.push(c.alpha);
            r.push(c.beta);
            proof {
                lemma_div_mod_3(i as int, 0);
                lemma_div_mod_3(i as int, 1);
                lemma_div_mod_3(i as int, 2);
            }
            i = i + 1;
        }
        assert(r@ =~= transition_params(self@));
        r
    }

    /// Overwrites every transition from `p`, triplet by triplet; `p` must hold
    /// exactly three values per transition.
    fn set_all_params(&mut self, p: &[S]) -> (r: Result<(), ParamError>)
        ensures
            p@.len() == 3 * old(self)@.len() ==> r is Ok && final(self)@ == transitions_from(p@, old(self)@.len()),
            p@.len() != 3 * old(self)@.len() ==> r == Err::<(), ParamError>(
                ParamError::ParameterLengthMismatch { expected: (3 * old(self)@.len()) as usize, found: p@.len() as usize },
            ) && *final(self) == *old(self),
    {
        let n = self.components.len();
        if p.len() != 3 * n {
            return Err(ParamError::ParameterLengthMismatch { expected: 3 * n, found: p.len() });
        }
        self.components = read_transitions(p, n);
        Ok(())
    }

    /// The `[alpha, beta]` pairs of all transitions, in order: the initial
    /// point handed to the nonlinear solver.
    fn get_nonlinear_params(&self) -> (r: Vec<S>)
    {
        let n = self.components.len();
        let mut r: Vec<S> = Vec::new();
        let mut i: usize = 0;
        while i < n
            invariant
                n == self@.len(),
                3 * n + 1 <= usize::MAX,
                i <= n,
                r@.len() == 2 * i,
                forall|j: int| 0 <= j < 2 * i ==> r@[j] == transition_nonlinear(self@)[j],
            decreases n - i,
        {
            let c = self.components[i];
            r.push(c.alpha);
            r.push(c.beta);
            proof {
                lemma_div_mod_2(i as int, 0);
                lemma_div_mod_2(i as int, 1);
            }
            i = i + 1;
        }
        assert(r@ =~= transition_nonlinear(self@));
        r
    }

    /// An independent copy.
    fn get_copy(&self) -> (r: Self)
        ensures
            r@ == self@,
    {
        let n = self.components.len();
        let mut c: Vec<ModelTanh<S>> = Vec::new();
        let mut i: usize = 0;
        while i < n
            invariant
                n == self@.len(),
                i <= n,
                c@ == self@.take(i as int),
            decreases n - i,
        {
            c.push(self.components[i].get_copy());
            i = i + 1;
            assert(c@ =~= self@.take(i as int));
        }
        assert(c@ =~= self@);
        ModelAdditive { components: c }
    }
}

impl<S> View for AffineAdditive<S> {
    type V = (Seq<ModelTanh<S>>, S);

    open spec fn view(&self) -> (Seq<ModelTanh<S>>, S) {
        (self.tm@, self.km.k)
    }
}

/// Full parameter vector of a composite model: each transition's triplet in
/// order, the offset last.
pub open spec fn composite_params<S>(v: (Seq<ModelTanh<S>>, S)) -> Seq<S> {
    transition_params(v.0).push(v.1)
}

/// The composite model with `n` transitions whose full parameter vector is `p`.
pub open spec fn composite_from<S>(p: Seq<S>, n: nat) -> (Seq<ModelTanh<S>>, S) {
    (transitions_from(p, n), p[3 * n as int])
}

/// The transitions whose amplitudes are `linear[i]` and whose rate and phase
/// are `nonlinear[2i]`, `nonlinear[2i + 1]`: the solver's solution, read
/// back component by component.
pub open spec fn solved_transitions<S>(linear: Seq<S>, nonlinear: Seq<S>, n: nat) -> Seq<ModelTanh<S>> {
    Seq::new(n, |i: int| ModelTanh { kappa: linear[i], alpha: nonlinear[2 * i], beta: nonlinear[2 * i + 1] })
}

impl<S> AffineAdditive<S> {
    /// Number of transitions ("humps").
    pub open spec fn spec_humps(&self) -> nat {
        self.tm@.len()
    }
}

impl<S: Copy> AffineAdditive<S> {
    pub fn new(tm: ModelAdditive<S>, km: ModelConstant<S>) -> (m: Self)
        ensures
            m@ == (tm@, km.k),
    {
        AffineAdditive { tm, km }
    }

    /// Number of transitions ("humps").
    pub fn humps(&self) -> (n: usize)
        ensures
            n == self.spec_humps(),
    {
        self.tm.components.len()
    }

    /// Interleaves the separable solver's output into the full parameter
    /// layout: `linear` holds one amplitude per transition and the offset
    /// last, `nonlinear` the `[alpha, beta]` pair of each transition.
    pub fn splice_solution(&self, linear: &[S], nonlinear: &[S]) -> (r: Result<Vec<S>, ParamError>)
        requires
            self.layout_fits(),
        ensures
            linear@.len() == self.spec_humps() + 1 && nonlinear@.len() == 2 * self.spec_humps()
                ==> (r matches Ok(p) && p@ == composite_params(
                (solved_transitions(linear@, nonlinear@, self.spec_humps()), linear@[self.spec_humps() as int]),
            )),
            linear@.len() != self.spec_humps() + 1 ==> r == Err::<Vec<S>, ParamError>(
                ParamError::ParameterLengthMismatch { expected: (self.spec_humps() + 1) as usize, found: linear@.len() as usize },
            ),
            linear@.len() == self.spec_humps() + 1 && nonlinear@.len() != 2 * self.spec_humps() ==> r == Err::<Vec<S>, ParamError>(
                ParamError::ParameterLengthMismatch { expected: (2 * self.spec_humps()) as usize, found: nonlinear@.len() as usize },
            ),
    {
        let n = self.tm.components.len();
        if linear.len() != n + 1 {
            return Err(ParamError::ParameterLengthMismatch { expected: n + 1, found: linear.len() });
        }
        if nonlinear.len() != 2 * n {
            return Err(ParamError::ParameterLengthMismatch { expected: 2 * n, found: nonlinear.len() });
        }
        let ghost solved = solved_transitions(linear@, nonlinear@, n as nat);
        let mut r: Vec<S> = Vec::new();
        let mut i: usize = 0;
        while i < n
            invariant
                3 * n + 1 <= usize::MAX,
                linear@.len() == n + 1,
                nonlinear@.len() == 2 * n,
                solved == solved_transitions(linear@, nonlinear@, n as nat),
                i <= n,
                r@.len() == 3 * i,
                forall|j: int| 0 <= j < 3 * i ==> r@[j] == transition_params(solved)[j],
            decreases n - i,
        {
            r.push(linear[i]);
            r.push(nonlinear[2 * i]);
            r.push(nonlinear[2 * i + 1]);
            proof {
                lemma_div_mod_3(i as int, 0);
                lemma_div_mod_3(i as int, 1);
                lemma_div_mod_3(i as int, 2);
            }
            i = i + 1;
        }
        r.push(linear[n]);
        assert(r@ =~= composite_params((solved, linear@[n as int])));
        Ok(r)
    }

    /// Writes the separable solver's solution into the model (see
    /// `splice_solution`); on a length mismatch the model is left unchanged.
    pub fn apply_solution(&mut self, linear: &[S], nonlinear: &[S]) -> (r: Result<(), ParamError>)
        requires
            old(self).layout_fits(),
        ensures
            linear@.len() == old(self).spec_humps() + 1 && nonlinear@.len() == 2 * old(self).spec_humps()
                ==> r is Ok && final(self)@ == (
                solved_transitions(linear@, nonlinear@, old(self).spec_humps()),
                linear@[old(self).spec_humps() as int],
            ),
            linear@.len() != old(self).spec_humps() + 1 ==> r == Err::<(), ParamError>(
                ParamError::ParameterLengthMismatch {
                    expected: (old(self).spec_humps() + 1) as usize,
                    found: linear@.len() as usize,
                },
            ) && *final(self) == *old(self),
            linear@.len() == old(self).spec_humps() + 1 && nonlinear@.len() != 2 * old(self).spec_humps()
                ==> r == Err::<(), ParamError>(
                ParamError::ParameterLengthMismatch {
                    expected: (2 * old(self).spec_humps()) as usize,
                    found: nonlinear@.len() as usize,
                },
            ) && *final(self) == *old(self),
    {
        match self.splice_solution(linear, nonlinear) {
            Err(e) => Err(e),
            Ok(p) => {
                let ghost n = self.spec_humps();
                let ghost v = (solved_transitions(linear@, nonlinear@, n), linear@[n as int]);
                proof {
                    lemma_params_round_trip(v);
                }
                self.set_all_params(p.as_slice())
            },
        }
    }
}

impl<S: Copy> ParameterizedModel<S> for AffineAdditive<S> {
    open spec fn params(&self) -> Seq<S> {
        composite_params(self@)
    }

    open spec fn nonlinear_params(&self) -> Seq<S> {
        transition_nonlinear(self@.0)
    }

    open spec fn layout_fits(&self) -> bool {
        3 * self@.0.len() + 1 <= usize::MAX
    }

    /// `[kappa_1, alpha_1, beta_1, ..., kappa_n, alpha_n, beta_n, K]`.
    fn get_all_params(&self) -> (r: Vec<S>)
    {
        let mut r = self.tm.get_all_params();
        r.push(self.km.k);
        r
    }

    /// Overwrites the whole model from a vector in the layout of
    /// `get_all_params`; any other length is refused and leaves it unchanged.
    fn set_all_params(&mut self, p: &[S]) -> (r: Result<(), ParamError>)
        ensures
            p@.len() == 3 * old(self).spec_humps() + 1 ==> r is Ok
                && final(self)@ == composite_from(p@, old(self).spec_humps()),
            p@.len() != 3 * old(self).spec_humps() + 1 ==> r == Err::<(), ParamError>(
                ParamError::ParameterLengthMismatch {
                    expected: (3 * old(self).spec_humps() + 1) as usize,
                    found: p@.len() as usize,
                },
            ) && *final(self) == *old(self),
    {
        let n = self.tm.components.len();
        if p.len() != 3 * n + 1 {
            return Err(ParamError::ParameterLengthMismatch { expected: 3 * n + 1, found: p.len() });
        }
        let last = p.len() - 1;
        self.tm.components = read_transitions(p, n);
        self.km.k = p[last];
        Ok(())
    }

    /// The `[alpha, beta]` pairs of all transitions; the offset adds none.
    fn get_nonlinear_params(&self) -> (r: Vec<S>)
    {
        let mut r = self.tm.get_nonlinear_params();
        let mut k = self.km.get_nonlinear_params();
        r.append(&mut k);
        assert(r@ =~= transition_nonlinear(self@.0));
        r
    }

    /// An independent copy.
    fn get_copy(&self) -> (r: Self)
        ensures
            r@ == self@,
    {
        AffineAdditive { tm: self.tm.get_copy(), km: self.km.get_copy() }
    }
}

proof fn lemma_transitions_from_prefix<S>(t: Seq<S>, p: Seq<S>, n: nat)
    requires
        3 * n <= t.len(),
        t.len() <= p.len(),
        forall|j: int| 0 <= j < t.len() ==> p[j] == t[j],
    ensures
        transitions_from(p, n) == transitions_from(t, n),
{
    assert(transitions_from(p, n) =~= transitions_from(t, n));
}

/// Writing a composite model's own parameter vector back into a model with
/// the same number of transitions gives the same model: the round trip
/// through `get_all_params` and `set_all_params` (on a copy made by
/// `get_copy`) changes no parameter, so the two models evaluate alike at
/// every time.
pub proof fn lemma_params_round_trip<S>(v: (Seq<ModelTanh<S>>, S))
    ensures
        composite_params(v).len() == 3 * v.0.len() + 1,
        composite_from(composite_params(v), v.0.len()) == v,
{
    let n = v.0.len();
    let t = transition_params(v.0);
    let p = t.push(v.1);
    assert(t.len() == 3 * n);
    lemma_transitions_round_trip(v.0);
    lemma_transitions_from_prefix(t, p, n);
}

/// The `n` transitions whose triplets fill the front of `p`.
fn read_transitions<S: Copy>(p: &[S], n: usize) -> (r: Vec<ModelTanh<S>>)
    requires
        3 * n <= p@.len(),
    ensures
        r@ == transitions_from(p@, n as nat),
{
    let len = p.len();
    let mut r: Vec<ModelTanh<S>> = Vec::new();
    let mut i: usize = 0;
    while i < n
        invariant
            3 * n <= p@.len(),
            len == p@.len(),
            i <= n,
            r@ == transitions_from(p@, i as nat),
        decreases n - i,
    {
        r.push(ModelTanh { kappa: p[3 * i], alpha: p[3 * i + 1], beta: p[3 * i + 2] });
        i = i + 1;
        assert(r@ =~= transitions_from(p@, i as nat));
    }
    r
}

/// Reading triplets back from the parameters of a list of transitions gives
/// the same transitions.
pub proof fn lemma_transitions_round_trip<S>(c: Seq<ModelTanh<S>>)
    ensures
        transitions_from(transition_params(c), c.len()) == c,
{
    let p = transition_params(c);
    assert forall|i: int| 0 <= i < c.len() implies #[trigger] transitions_from(p, c.len())[i] == c[i] by {
        lemma_div_mod_3(i, 0);
        lemma_div_mod_3(i, 1);
        lemma_div_mod_3(i, 2);
    }
    assert(transitions_from(p, c.len()) =~= c);
}

} // verus!
