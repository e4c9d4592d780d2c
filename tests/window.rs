use humpty::error::DataError;
use humpty::package::{data_fit_package, model_fit};
use humpty::params::{AffineAdditive, ModelAdditive, ModelConstant, ModelTanh};
use humpty::window::{cut_series, data_fit_load_metadata, data_slice, take_window, window_times, Window};

#[test]
fn default_slice_keeps_everything() {
    let s = data_slice::new(None, None, None);
    assert_eq!(s.window(8), Ok(Window { start: 0, end: 8 }));
    assert_eq!(data_slice::new(None, None, Some(1)).window(8), Ok(Window { start: 0, end: 8 }));
}

#[test]
fn offset_and_limit() {
    assert_eq!(data_slice::new(Some(2), Some(3), None).window(10), Ok(Window { start: 2, end: 5 }));
    assert_eq!(data_slice::new(Some(7), Some(30), None).window(10), Ok(Window { start: 7, end: 10 }));
    assert_eq!(data_slice::new(Some(10), None, None).window(10), Ok(Window { start: 10, end: 10 }));
    assert_eq!(
        data_slice::new(Some(1), Some(usize::MAX), None).window(10),
        Ok(Window { start: 1, end: 10 })
    );
}

#[test]
fn stride_other_than_one_is_refused() {
    assert_eq!(
        data_slice::new(None, None, Some(2)).window(10),
        Err(DataError::UnsupportedSlice { strides: 2 })
    );
    assert_eq!(
        data_slice::new(Some(-1), None, Some(0)).window(10),
        Err(DataError::UnsupportedSlice { strides: 0 })
    );
}

#[test]
fn bad_offset_is_refused() {
    assert_eq!(
        data_slice::new(Some(-1), None, None).window(10),
        Err(DataError::OffsetOutOfRange { offset: -1, len: 10 })
    );
    assert_eq!(
        data_slice::new(Some(11), Some(2), None).window(10),
        Err(DataError::OffsetOutOfRange { offset: 11, len: 10 })
    );
}

#[test]
fn cut_series_gives_times_and_values() {
    let d = vec![1.0, 2.0, 3.0, 43.0, 5.0, 6.0, 7.0, 78.0];
    let (t, v) = cut_series(&d, &data_slice::new(Some(3), Some(4), None)).unwrap();
    assert_eq!(t, vec![3, 4, 5, 6]);
    assert_eq!(v, vec![43.0, 5.0, 6.0, 7.0]);
    assert_eq!(take_window(&d, Window { start: 6, end: 8 }), vec![7.0, 78.0]);
    assert_eq!(window_times(Window { start: 0, end: 2 }), vec![0, 1]);
    assert!(cut_series(&d, &data_slice::new(None, None, Some(3))).is_err());
}

fn fit(k: f64, r: f64) -> model_fit<f64> {
    let m = AffineAdditive::new(ModelAdditive::new(vec![ModelTanh::new(1.0, 2.0, 3.0)]), ModelConstant::new(k));
    model_fit { humps: 1, fitted_model: m.clone(), initial_model: m, residual_total: r, residual_per_point: r / 4.0 }
}

#[test]
fn package_copies_ranked_fits() {
    let md = data_fit_load_metadata {
        source_reference: String::from("counts.csv"),
        slice: data_slice::new(Some(0), None, None),
        column_name: String::from("count"),
    };
    let outcomes = vec![Some(fit(1.0, 3.0)), None, Some(fit(2.0, 1.0))];
    let p = data_fit_package::assemble(md, &outcomes, &vec![2, 0]);
    assert_eq!(p.fits.len(), 2);
    assert_eq!(p.fits[0].fitted_model.km.k, 2.0);
    assert_eq!(p.fits[0].residual_total, 1.0);
    assert_eq!(p.fits[1].initial_model.km.k, 1.0);
    assert_eq!(p.fits[1].residual_per_point, 0.75);
    assert_eq!(p.load_metadata.column_name, "count");
}
