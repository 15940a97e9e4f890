use slitscan::params::{ParameterError, SlitParameters};

#[test]
fn zero_slit_width_is_rejected() {
    assert_eq!(SlitParameters::new(0, 8, 4).err(), Some(ParameterError::ZeroSlitWidth));
    assert_eq!(SlitParameters::evenly_spaced(0, 4).err(), Some(ParameterError::ZeroSlitWidth));
}

#[test]
fn zero_frame_count_is_rejected() {
    assert_eq!(SlitParameters::new(2, 8, 0).err(), Some(ParameterError::ZeroFrameCount));
    assert_eq!(SlitParameters::evenly_spaced(2, 0).err(), Some(ParameterError::ZeroFrameCount));
}

#[test]
fn zero_slit_width_is_reported_before_zero_frame_count() {
    assert_eq!(SlitParameters::new(0, 0, 0).err(), Some(ParameterError::ZeroSlitWidth));
    assert_eq!(SlitParameters::evenly_spaced(0, 0).err(), Some(ParameterError::ZeroSlitWidth));
}

#[test]
fn explicit_spacing_is_kept() {
    let p = SlitParameters::new(2, 7, 4).unwrap();
    assert_eq!(p.slit_width(), 2);
    assert_eq!(p.slit_spacing(), 7);
    assert_eq!(p.frame_count(), 4);
    let q = SlitParameters::new(1, 0, 1).unwrap();
    assert_eq!(q.slit_spacing(), 0);
}

#[test]
fn even_spacing_is_frame_count_times_slit_width() {
    let p = SlitParameters::evenly_spaced(2, 4).unwrap();
    assert_eq!(p.slit_width(), 2);
    assert_eq!(p.slit_spacing(), 8);
    assert_eq!(p.frame_count(), 4);
    let q = SlitParameters::evenly_spaced(5, 8).unwrap();
    assert_eq!(q.slit_spacing(), 40);
}

#[test]
fn spacing_that_overflows_is_rejected() {
    assert_eq!(
        SlitParameters::evenly_spaced(65536, 65536).err(),
        Some(ParameterError::SpacingOverflow)
    );
    let p = SlitParameters::evenly_spaced(65535, 65537).unwrap();
    assert_eq!(p.slit_spacing(), 4294967295);
}
