use vstd::prelude::*;

use crate::params::{AffineAdditive, ModelTanh, ParameterizedModel};
use crate::window::data_fit_load_metadata;

verus! {

/// One converged random start: the fitted model, the model it started from,
/// and its residuals (total and per point).
#[derive(Debug, Clone)]
pub struct model_fit<S> {
    pub humps: usize,
    pub fitted_model: AffineAdditive<S>,
    pub initial_model: AffineAdditive<S>,
    pub residual_total: S,
    pub residual_per_point: S,
}

/// The ranked fits of one search, best first, with where the data came from.
#[derive(Debug, Clone)]
pub struct data_fit_package<S> {
    pub load_metadata: data_fit_load_metadata,
    pub fits: Vec<model_fit<S>>,
}

/// Abstract value of a fit: hump count, fitted and initial model, residuals.
pub struct FitView<S> {
    pub humps: nat,
    pub fitted: (Seq<ModelTanh<S>>, S),
    pub initial: (Seq<ModelTanh<S>>, S),
    pub residual_total: S,
    pub residual_per_point: S,
}

impl<S> View for model_fit<S> {
    type V = FitView<S>;

    open spec fn view(&self) -> FitView<S> {
        FitView {
            humps: self.humps as nat,
            fitted: self.fitted_model@,
            initial: self.initial_model@,
            residual_total: self.residual_total,
            residual_per_point: self.residual_per_point,
        }
    }
}

impl<S: Copy> model_fit<S> {
    /// An independent copy; the two models are copied, not shared.
    pub fn get_copy(&self) -> (r: Self)
        ensures
            r@ == self@,
    {
        model_fit {
            humps: self.humps,
            fitted_model: self.fitted_model.get_copy(),
            initial_model: self.initial_model.get_copy(),
            residual_total: self.residual_total,
            residual_per_point: self.residual_per_point,
        }
    }
}

impl<S: Copy> data_fit_package<S> {
    /// Builds the package from the outcome of every random start (`None` for a
    /// start that did not converge) and a ranking of them, as given by
    /// `rank_outcomes`: the `j`-th fit is a copy of start `order[j]`.
    pub fn assemble(
        load_metadata: data_fit_load_metadata,
        outcomes: &Vec<Option<model_fit<S>>>,
        order: &Vec<usize>,
    ) -> (r: Self)
        requires
            forall|j: int| 0 <= j < order@.len() ==> #[trigger] order@[j] < outcomes@.len()
                && outcomes@[order@[j] as int] is Some,
        ensures
            r.load_metadata == load_metadata,
            r.fits@.len() == order@.len(),
            forall|j: int| 0 <= j < order@.len() ==> #[trigger] r.fits@[j]@ == (outcomes@[order@[j] as int]->0)@,
    {
        let mut fits: Vec<model_fit<S>> = Vec::new();
        let mut j: usize = 0;
        while j < order.len()
            invariant
                j <= order@.len(),
                forall|k: int| 0 <= k < order@.len() ==> #[trigger] order@[k] < outcomes@.len()
                    && outcomes@[order@[k] as int] is Some,
                fits@.len() == j,
                forall|k: int| 0 <= k < j ==> #[trigger] fits@[k]@ == (outcomes@[order@[k] as int]->0)@,
            decreases order@.len() - j,
        {
            let i = order[j];
            match &outcomes[i] {
                Some(f) => {
                    fits.push(f.get_copy());
                },
                None => {},
            }
            j = j + 1;
        }
        data_fit_package { load_metadata, fits }
    }
}

} // verus!
