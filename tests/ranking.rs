use humpty::error::FitError;
use humpty::package::{data_fit_package, model_fit};
use humpty::params::{AffineAdditive, ModelAdditive, ModelConstant, ModelTanh, ParameterizedModel};
use humpty::ranking::{order_key, rank_outcomes};
use humpty::window::{data_fit_load_metadata, data_slice};

fn bits(x: f64) -> Option<u64> {
    Some(x.to_bits())
}

#[test]
fn order_key_follows_numbers_and_puts_nan_last() {
    let xs = [f64::NEG_INFINITY, -3.5, -1.0, -0.0, 0.0, 1e-300, 1.0, 2.5, f64::INFINITY];
    for w in xs.windows(2) {
        assert!(order_key(w[0].to_bits()) < order_key(w[1].to_bits()), "{:?}", w);
    }
    assert_eq!(order_key(f64::NAN.to_bits()), u64::MAX);
    assert_eq!(order_key((-f64::NAN).to_bits()), u64::MAX);
    assert!(order_key(f64::INFINITY.to_bits()) < u64::MAX);
}

#[test]
fn all_failed_gives_no_convergent_fit() {
    let outcomes: Vec<Option<u64>> = vec![None; 10];
    assert_eq!(rank_outcomes(&outcomes, 3), Err(FitError::NoConvergentFit));
    assert_eq!(rank_outcomes(&Vec::new(), 3), Err(FitError::NoConvergentFit));
}

#[test]
fn ranking_is_sorted_stable_and_cut() {
    let outcomes = vec![bits(3.0), None, bits(1.0), bits(f64::NAN), bits(1.0), bits(2.0)];
    assert_eq!(rank_outcomes(&outcomes, 3), Ok(vec![2, 4, 5]));
    assert_eq!(rank_outcomes(&outcomes, 10), Ok(vec![2, 4, 5, 0, 3]));
    assert_eq!(rank_outcomes(&outcomes, 0), Ok(vec![]));
}

#[test]
fn failed_samples_are_discarded() {
    let outcomes = vec![None, bits(0.5), None, None, bits(0.25), None, None, None, None, None];
    assert_eq!(rank_outcomes(&outcomes, 3), Ok(vec![4, 1]));
}

#[test]
fn nan_residuals_keep_sampling_order_at_the_end() {
    let outcomes = vec![bits(f64::NAN), bits(-f64::NAN), bits(f64::INFINITY)];
    assert_eq!(rank_outcomes(&outcomes, 3), Ok(vec![2, 0, 1]));
}

fn sample(k: f64, residual: f64) -> model_fit<f64> {
    let m = AffineAdditive::new(ModelAdditive::new(vec![ModelTanh::new(k, 1.0, 0.0)]), ModelConstant::new(k));
    let initial = AffineAdditive::new(ModelAdditive::new(vec![ModelTanh::new(0.0, 0.0, 0.0)]), ModelConstant::new(0.0));
    model_fit { humps: 1, fitted_model: m, initial_model: initial, residual_total: residual, residual_per_point: residual / 10.0 }
}

#[test]
fn package_fits_come_in_ascending_residual_order() {
    let outcomes = vec![
        Some(sample(1.0, 4.0)),
        None,
        Some(sample(2.0, f64::NAN)),
        Some(sample(3.0, 0.5)),
        Some(sample(4.0, 2.0)),
        None,
        Some(sample(5.0, 0.5)),
    ];
    let residuals: Vec<Option<u64>> =
        outcomes.iter().map(|o| o.as_ref().map(|f| f.residual_total.to_bits())).collect();
    let order = rank_outcomes(&residuals, 3).unwrap();
    assert_eq!(order, vec![3, 6, 4]);
    let md = data_fit_load_metadata {
        source_reference: String::from("series.csv"),
        slice: data_slice::new(None, None, None),
        column_name: String::from("count"),
    };
    let p = data_fit_package::assemble(md, &outcomes, &order);
    let totals: Vec<f64> = p.fits.iter().map(|f| f.residual_total).collect();
    assert_eq!(totals, vec![0.5, 0.5, 2.0]);
    for w in p.fits.windows(2) {
        assert!(w[0].residual_total <= w[1].residual_total);
    }
    assert_eq!(p.fits[0].fitted_model.km.k, 3.0);
    assert_eq!(p.fits[1].fitted_model.km.k, 5.0);
    assert_eq!(p.fits[0].initial_model.get_all_params(), vec![0.0, 0.0, 0.0, 0.0]);
}

#[test]
fn fit_copy_is_independent() {
    let f = sample(1.0, 3.0);
    let mut c = f.get_copy();
    assert_eq!(c.fitted_model.set_all_params(&[9.0, 9.0, 9.0, 9.0]), Ok(()));
    assert_eq!(f.fitted_model.get_all_params(), vec![1.0, 1.0, 0.0, 1.0]);
    assert_eq!(c.residual_total, 3.0);
    assert_eq!(c.humps, 1);
}
