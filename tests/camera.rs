use newslab_serde::camera::{CameraIntrinsicParams, CameraMatrix, DistortionCoefs};
use newslab_serde::error::{CodecError, Violation};

fn bits(m: [[f64; 3]; 3]) -> [[u64; 3]; 3] {
    m.map(|row| row.map(f64::to_bits))
}

#[test]
fn camera_matrix_accepts_pattern() {
    let m = CameraMatrix::try_from(bits([[1.0, 0.0, 4.0], [0.0, 1.5, 7.0], [0.0, 0.0, 1.0]]))
        .unwrap();
    assert_eq!(f64::from_bits(m.fx()), 1.0);
    assert_eq!(f64::from_bits(m.fy()), 1.5);
    assert_eq!(f64::from_bits(m.cx()), 4.0);
    assert_eq!(f64::from_bits(m.cy()), 7.0);
}

#[test]
fn camera_matrix_rejects_corner_not_one() {
    assert_eq!(
        CameraMatrix::try_from(bits([[1.0, 0.0, 4.0], [0.0, 1.5, 7.0], [0.0, 0.0, 0.0]])),
        Err(CodecError::Validation(Violation::MatrixCell(2, 2)))
    );
}

#[test]
fn camera_matrix_names_first_bad_cell() {
    assert_eq!(
        CameraMatrix::try_from(bits([[1.0, 0.5, 4.0], [2.0, 1.5, 7.0], [0.0, 0.0, 0.0]])),
        Err(CodecError::Validation(Violation::MatrixCell(0, 1)))
    );
    assert_eq!(
        CameraMatrix::try_from(bits([[1.0, 0.0, 4.0], [2.0, 1.5, 7.0], [0.0, 0.0, 1.0]])),
        Err(CodecError::Validation(Violation::MatrixCell(1, 0)))
    );
    assert_eq!(
        CameraMatrix::try_from(bits([[1.0, 0.0, 4.0], [0.0, 1.5, 7.0], [3.0, 0.0, 1.0]])),
        Err(CodecError::Validation(Violation::MatrixCell(2, 0)))
    );
    assert_eq!(
        CameraMatrix::try_from(bits([[1.0, 0.0, 4.0], [0.0, 1.5, 7.0], [0.0, 3.0, 1.0]])),
        Err(CodecError::Validation(Violation::MatrixCell(2, 1)))
    );
}

#[test]
fn camera_matrix_negative_zero_counts_as_zero() {
    let m = bits([[2.0, -0.0, 1.0], [-0.0, 2.0, 1.0], [-0.0, -0.0, 1.0]]);
    assert_eq!(CameraMatrix::try_from(m).unwrap().entries(), m);
}

#[test]
fn camera_matrix_round_trips() {
    let m = bits([[1.0, 0.0, 4.0], [0.0, 1.5, 7.0], [0.0, 0.0, 1.0]]);
    let first = CameraMatrix::try_from(m).unwrap();
    let again = CameraMatrix::try_from(first.entries()).unwrap();
    assert_eq!(first, again);
}

#[test]
fn identity_and_defaults() {
    let id = bits([[1.0, 0.0, 0.0], [0.0, 1.0, 0.0], [0.0, 0.0, 1.0]]);
    assert_eq!(CameraMatrix::identity().entries(), id);
    assert_eq!(CameraMatrix::default(), CameraMatrix::identity());
    assert_eq!(DistortionCoefs::default(), DistortionCoefs::zeros());
    let p = CameraIntrinsicParams::identity();
    assert_eq!(p.camera_matrix.entries(), id);
    assert_eq!(p.distortion_coefs.0, [0u64; 5]);
    assert_eq!(CameraIntrinsicParams::default(), p);
}

#[test]
fn distortion_coefficient_names() {
    let c = DistortionCoefs([1.0f64, 0.0, 0.0, 0.5, 0.25].map(f64::to_bits));
    assert_eq!(f64::from_bits(c.k1()), 1.0);
    assert_eq!(f64::from_bits(c.k2()), 0.0);
    assert_eq!(f64::from_bits(c.p1()), 0.0);
    assert_eq!(f64::from_bits(c.p2()), 0.5);
    assert_eq!(f64::from_bits(c.k3()), 0.25);
}
