//! Camera intrinsics: the pinhole camera matrix, whose zero/one pattern is
//! checked on the way in, and the five distortion coefficients.
//!
//! Entries are IEEE-754 binary64 values held as their bit patterns
//! (`f64::to_bits`), so that every rule on them is a rule on integers.
use crate::error::{CodecError, Violation};
use vstd::prelude::*;

verus! {

/// Bit pattern of `1.0`.
pub const ONE_BITS: u64 = 0x3ff0_0000_0000_0000;

/// Bit pattern of `-0.0`; `0.0` is all zero bits.
pub const NEG_ZERO_BITS: u64 = 0x8000_0000_0000_0000;

/// The value is `0.0` or `-0.0`, which compare equal to zero.
pub open spec fn is_zero_bits(b: u64) -> bool {
    b == 0 || b == NEG_ZERO_BITS
}

pub open spec fn cell(m: [[u64; 3]; 3], row: int, col: int) -> u64 {
    m[row][col]
}

/// The first cell, in the order `[0][1]`, `[1][0]`, `[2][0]`, `[2][1]`,
/// `[2][2]`, that breaks the camera-matrix pattern: zero below and beside
/// the focal lengths, one in the corner.
pub open spec fn pattern_violation(m: [[u64; 3]; 3]) -> Option<(usize, usize)> {
    if !is_zero_bits(cell(m, 0, 1)) {
        Some((0usize, 1usize))
    } else if !is_zero_bits(cell(m, 1, 0)) {
        Some((1usize, 0usize))
    } else if !is_zero_bits(cell(m, 2, 0)) {
        Some((2usize, 0usize))
    } else if !is_zero_bits(cell(m, 2, 1)) {
        Some((2usize, 1usize))
    } else if cell(m, 2, 2) != ONE_BITS {
        Some((2usize, 2usize))
    } else {
        None
    }
}

pub open spec fn is_camera_matrix(m: [[u64; 3]; 3]) -> bool {
    pattern_violation(m) is None
}

/// A 3x3 camera matrix `[[fx, 0, cx], [0, fy, cy], [0, 0, 1]]`; it can only
/// be built from entries that follow that pattern, and never changes.
#[derive(Debug, Clone, Copy, PartialEq, Eq, Hash)]
pub struct CameraMatrix {
    entries: [[u64; 3]; 3],
}

impl View for CameraMatrix {
    type V = [[u64; 3]; 3];

    closed spec fn view(&self) -> [[u64; 3]; 3] {
        self.entries
    }
}

impl CameraMatrix {
    #[verifier::type_invariant]
    spec fn inv(self) -> bool {
        is_camera_matrix(self.entries)
    }

    /// Checks the pattern; the error names the first cell that breaks it.
    pub fn try_from(m: [[u64; 3]; 3]) -> (r: Result<CameraMatrix, CodecError>)
        ensures
            pattern_violation(m) is None ==> r is Ok && r->Ok_0@ == m,
            pattern_violation(m) matches Some((row, col)) ==> r == Err::<CameraMatrix, CodecError>(
                CodecError::Validation(Violation::MatrixCell(row, col)),
            ),
    {
        let bad = if m[0][1] != 0 && m[0][1] != NEG_ZERO_BITS {
            Some((0usize, 1usize))
        } else if m[1][0] != 0 && m[1][0] != NEG_ZERO_BITS {
            Some((1usize, 0usize))
        } else if m[2][0] != 0 && m[2][0] != NEG_ZERO_BITS {
            Some((2usize, 0usize))
        } else if m[2][1] != 0 && m[2][1] != NEG_ZERO_BITS {
            Some((2usize, 1usize))
        } else if m[2][2] != ONE_BITS {
            Some((2usize, 2usize))
        } else {
            None
        };
        match bad {
            Some((row, col)) => Err(CodecError::Validation(Violation::MatrixCell(row, col))),
            None => Ok(CameraMatrix { entries: m }),
        }
    }

    /// The identity matrix.
    pub fn identity() -> (r: CameraMatrix)
        ensures
            r@ == [[ONE_BITS, 0u64, 0u64], [0u64, ONE_BITS, 0u64], [0u64, 0u64, ONE_BITS]],
    {
        CameraMatrix { entries: [[ONE_BITS, 0, 0], [0, ONE_BITS, 0], [0, 0, ONE_BITS]] }
    }

    /// The entries, row by row; encoding never fails, and what it yields
    /// always follows the pattern.
    pub fn entries(&self) -> (r: [[u64; 3]; 3])
        ensures
            r == self@,
            is_camera_matrix(r),
    {
        proof {
            use_type_invariant(self);
        }
        self.entries
    }

    pub fn fx(&self) -> (r: u64)
        ensures
            r == cell(self@, 0, 0),
    {
        self.entries[0][0]
    }

    pub fn fy(&self) -> (r: u64)
        ensures
            r == cell(self@, 1, 1),
    {
        self.entries[1][1]
    }

    pub fn cx(&self) -> (r: u64)
        ensures
            r == cell(self@, 0, 2),
    {
        self.entries[0][2]
    }

    pub fn cy(&self) -> (r: u64)
        ensures
            r == cell(self@, 1, 2),
    {
        self.entries[1][2]
    }
}

impl Default for CameraMatrix {
    fn default() -> (r: CameraMatrix)
        ensures
            r@ == [[ONE_BITS, 0u64, 0u64], [0u64, ONE_BITS, 0u64], [0u64, 0u64, ONE_BITS]],
    {
        CameraMatrix::identity()
    }
}

/// Lens distortion coefficients `[k1, k2, p1, p2, k3]`.
#[derive(Debug, Clone, Copy, PartialEq, Eq, Hash)]
pub struct DistortionCoefs(pub [u64; 5]);

impl DistortionCoefs {
    /// All five coefficients zero.
    pub fn zeros() -> (r: DistortionCoefs)
        ensures
            r.0@ == seq![0u64, 0u64, 0u64, 0u64, 0u64],
    {
        let r = DistortionCoefs([0, 0, 0, 0, 0]);
        assert(r.0@ =~= seq![0u64, 0u64, 0u64, 0u64, 0u64]);
        r
    }

    pub fn k1(&self) -> (r: u64)
        ensures
            r == self.0[0],
    {
        self.0[0]
    }

    pub fn k2(&self) -> (r: u64)
        ensures
            r == self.0[1],
    {
        self.0[1]
    }

    pub fn p1(&self) -> (r: u64)
        ensures
            r == self.0[2],
    {
        self.0[2]
    }

    pub fn p2(&self) -> (r: u64)
        ensures
            r == self.0[3],
    {
        self.0[3]
    }

    pub fn k3(&self) -> (r: u64)
        ensures
            r == self.0[4],
    {
        self.0[4]
    }
}

impl Default for DistortionCoefs {
    fn default() -> (r: DistortionCoefs)
        ensures
            r.0@ == seq![0u64, 0u64, 0u64, 0u64, 0u64],
    {
        DistortionCoefs::zeros()
    }
}

/// The intrinsic parameters of a camera.
#[derive(Debug, Clone, Copy, PartialEq, Eq, Hash)]
pub struct CameraIntrinsicParams {
    pub camera_matrix: CameraMatrix,
    pub distortion_coefs: DistortionCoefs,
}

impl CameraIntrinsicParams {
    /// The identity matrix and no distortion.
    pub fn identity() -> (r: CameraIntrinsicParams)
        ensures
            r.camera_matrix@ == [[ONE_BITS, 0u64, 0u64], [0u64, ONE_BITS, 0u64], [
                0u64,
                0u64,
                ONE_BITS,
            ]],
            r.distortion_coefs.0@ == seq![0u64, 0u64, 0u64, 0u64, 0u64],
    {
        CameraIntrinsicParams {
            camera_matrix: CameraMatrix::identity(),
            distortion_coefs: DistortionCoefs::zeros(),
        }
    }
}

impl Default for CameraIntrinsicParams {
    fn default() -> (r: CameraIntrinsicParams)
        ensures
            r.camera_matrix@ == [[ONE_BITS, 0u64, 0u64], [0u64, ONE_BITS, 0u64], [
                0u64,
                0u64,
                ONE_BITS,
            ]],
            r.distortion_coefs.0@ == seq![0u64, 0u64, 0u64, 0u64, 0u64],
    {
        CameraIntrinsicParams::identity()
    }
}

} // verus!
