use seismology::spectrogram::{window_bounds, ColorTransformFunction, ShortTermFFTPlotOptions};

#[test]
fn plot_options_default_to_constant() {
    let o = ShortTermFFTPlotOptions::new("quake");
    assert_eq!(o.title, "quake");
    assert!(matches!(o.color_transform_fn, ColorTransformFunction::Constant));
    let o = o.color_transform(ColorTransformFunction::Log10);
    assert_eq!(o.title, "quake");
    assert!(matches!(o.color_transform_fn, ColorTransformFunction::Log10));
}

#[test]
fn windows_drop_the_incomplete_tail() {
    assert_eq!(window_bounds(250, 100), vec![(0, 100), (100, 200)]);
    assert_eq!(window_bounds(100, 100), vec![(0, 100)]);
}
