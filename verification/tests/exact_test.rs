use raytracer::exact::{Inverse, LIMIT};
use raytracer::matrix::{Matrix2x2, Matrix3x3, Matrix4x4};

const EPSILON: f64 = 0.0001;

/// The inverse as floating-point numbers.
fn quotients(inv: &Inverse) -> [[f64; 4]; 4] {
    inv.numerators.elements.map(|row| row.map(|n| n as f64 / inv.denominator as f64))
}

fn close(a: [[f64; 4]; 4], b: [[f64; 4]; 4]) -> bool {
    a.iter().flatten().zip(b.iter().flatten()).all(|(x, y)| (x - y).abs() < EPSILON)
}

/// The product of a matrix with numerators, entry by entry.
fn product(a: &Matrix4x4<i64>, n: &Matrix4x4<i128>) -> [[i128; 4]; 4] {
    let mut out = [[0i128; 4]; 4];
    for i in 0..4 {
        for j in 0..4 {
            for k in 0..4 {
                out[i][j] += a.elements[i][k] as i128 * n.elements[k][j];
            }
        }
    }
    out
}

fn scaled_identity(d: i128) -> [[i128; 4]; 4] {
    [[d, 0, 0, 0], [0, d, 0, 0], [0, 0, d, 0], [0, 0, 0, d]]
}

#[test]
fn tests_determinant_of_2x2() {
    let m = Matrix2x2 { elements: [[1, 5], [-3, 2]] };
    assert_eq!(17, m.determinant())
}

#[test]
fn tests_minor_of_3x3_matrix() {
    let m3 = Matrix3x3::from_elementsi([[3, 5, 0], [2, -1, -7], [6, -1, 5]]);

    assert_eq!(25, m3.minor(1, 0));
}

#[test]
fn tests_cofactor_of_3x3_matrix() {
    let m3 = Matrix3x3::from_elementsi([[3, 5, 0], [2, -1, -7], [6, -1, 5]]);
    assert_eq!(-12, m3.minor(0, 0));
    assert_eq!(-12, m3.cofactor(0, 0));
    assert_eq!(25, m3.minor(1, 0));
    assert_eq!(-25, m3.cofactor(1, 0));
}

#[test]
fn tests_determinant_of_3x3_matrix() {
    let m3 = Matrix3x3::from_elementsi([[1, 2, 6], [-5, 8, -4], [2, 6, 4]]);
    assert_eq!(56, m3.cofactor(0, 0));
    assert_eq!(12, m3.cofactor(0, 1));
    assert_eq!(-46, m3.cofactor(0, 2));
    assert_eq!(-196, m3.determinant());
}

#[test]
fn tests_determinant_of_4x4_matrix() {
    let m = Matrix4x4::from_elementsi([
        [-2, -8, 3, 5],
        [-3, 1, 7, 3],
        [1, 2, -9, 6],
        [-6, 7, 7, -9],
    ]);
    assert_eq!(690, m.cofactor(0, 0));
    assert_eq!(447, m.cofactor(0, 1));
    assert_eq!(210, m.cofactor(0, 2));
    assert_eq!(51, m.cofactor(0, 3));
    assert_eq!(-4071, m.determinant());
}

#[test]
fn tests_inverse_of_non_invertible_matrix_is_none() {
    let m = Matrix4x4::from_elementsi([
        [-4, 2, -2, -3],
        [9, 6, 2, 6],
        [0, -5, 1, -5],
        [0, 0, 0, 0],
    ]);

    assert!(m.inverse().is_none());
}

#[test]
fn tests_inverse_of_invertible_matrix() {
    let m = Matrix4x4::from_elementsi([
        [-5, 2, 6, -8],
        [1, -5, 1, 8],
        [7, 7, -6, -7],
        [1, -3, 7, 4],
    ]);
    let result = [
        [0.21805, 0.45113, 0.24060, -0.04511],
        [-0.80827, -1.45677, -0.44361, 0.52068],
        [-0.07895, -0.22368, -0.05263, 0.19737],
        [-0.52256, -0.81391, -0.30075, 0.30639],
    ];

    assert_eq!(160, m.minor(2, 3));
    assert_eq!(-160, m.cofactor(2, 3));
    assert_eq!(-24, m.cofactor(3, 0));
    let inv = m.inverse().unwrap();
    assert_eq!(532, inv.denominator);
    assert_eq!(-160, inv.numerators.get(3, 2));
    assert_eq!(105, inv.numerators.get(2, 3));
    assert!(close(result, quotients(&inv)));
}

#[test]
fn tests_matrix_inversion1() {
    let m = Matrix4x4::from_elementsi([
        [8, -5, 9, 2],
        [7, 5, 6, 1],
        [-6, 0, 9, 6],
        [-3, 0, -9, -4],
    ]);

    let result = [
        [-0.15385, -0.15385, -0.28205, -0.53846],
        [-0.07692, 0.12308, 0.02564, 0.03077],
        [0.35897, 0.35897, 0.43590, 0.92308],
        [-0.69231, -0.69231, -0.76923, -1.92308],
    ];

    assert!(close(result, quotients(&m.inverse().unwrap())));
}

#[test]
fn tests_matrix_inversion2() {
    let m = Matrix4x4::from_elementsi([
        [9, 3, 0, 9],
        [-5, -2, -6, -3],
        [-4, 9, 6, 4],
        [-7, 6, 6, 2],
    ]);

    let result = [
        [-0.04074, -0.07778, 0.14444, -0.22222],
        [-0.07778, 0.03333, 0.36667, -0.33333],
        [-0.02901, -0.14630, -0.10926, 0.12963],
        [0.17778, 0.06667, -0.26667, 0.33333],
    ];

    assert!(close(result, quotients(&m.inverse().unwrap())));
}

#[test]
fn tests_can_multiply_two_matrixes() {
    let m1 = Matrix4x4::from_elementsi([[1, 2, 3, 4], [5, 6, 7, 8], [9, 8, 7, 6], [5, 4, 3, 2]]);
    let m2 =
        Matrix4x4::from_elementsi([[-2, 1, 2, 3], [3, 2, 1, -1], [4, 3, 6, 5], [1, 2, 7, 8]]);
    let result = [[20, 22, 50, 48], [44, 54, 114, 108], [40, 58, 110, 102], [16, 26, 46, 42]];

    assert_eq!(result, m1.times(&m2).elements);
}

#[test]
fn tests_multiplying_a_matrix_by_the_identity_matrix_returns_itself() {
    let m = Matrix4x4::from_elementsi([
        [0, 1, 2, 4],
        [1, 2, 4, 8],
        [2, 4, 8, 16],
        [4, 8, 16, 32],
    ]);
    assert_eq!(m.elements, m.times(&Matrix4x4::identity()).elements);
    assert_eq!(m.elements, Matrix4x4::identity().times(&m).elements);
}

#[test]
fn tests_multiply_product_by_inverse() {
    let a = Matrix4x4::from_elementsi([
        [3, -9, 7, 3],
        [3, -8, 2, -9],
        [-4, 4, 4, 1],
        [-6, 5, -1, 1],
    ]);
    let b = Matrix4x4::from_elementsi([[8, 2, 2, 2], [3, -1, 7, 0], [7, 0, 5, 4], [6, -2, 0, 5]]);

    let c = a.times(&b);
    let inv = b.inverse().unwrap();
    let back = product(&c, &inv.numerators);
    assert_eq!(a.elements.map(|row| row.map(|e| e as i128 * inv.denominator)), back);
}

#[test]
fn matrix_times_its_inverse_is_the_identity() {
    let ms = [
        [[-5, 2, 6, -8], [1, -5, 1, 8], [7, 7, -6, -7], [1, -3, 7, 4]],
        [[8, -5, 9, 2], [7, 5, 6, 1], [-6, 0, 9, 6], [-3, 0, -9, -4]],
        [[9, 3, 0, 9], [-5, -2, -6, -3], [-4, 9, 6, 4], [-7, 6, 6, 2]],
        [[2, 0, 0, 0], [0, 3, 0, 0], [0, 0, 5, 0], [0, 0, 0, 7]],
        [[0, 0, 0, 1], [0, 0, 1, 0], [0, 1, 0, 0], [1, 0, 0, 0]],
    ];
    for elements in ms {
        let m = Matrix4x4::from_elementsi(elements);
        let inv = m.inverse().unwrap();
        assert_eq!(m.determinant(), inv.denominator);
        assert_eq!(scaled_identity(inv.denominator), product(&m, &inv.numerators));
    }
}

#[test]
fn determinant_of_special_matrices() {
    assert_eq!(1, Matrix4x4::identity().determinant());
    let diagonal =
        Matrix4x4::from_elementsi([[2, 0, 0, 0], [0, 3, 0, 0], [0, 0, 5, 0], [0, 0, 0, 7]]);
    assert_eq!(210, diagonal.determinant());
    let two_equal_rows =
        Matrix4x4::from_elementsi([[1, 2, 3, 4], [5, 6, 7, 8], [1, 2, 3, 4], [9, 1, 9, 1]]);
    assert_eq!(0, two_equal_rows.determinant());
    assert!(two_equal_rows.inverse().is_none());
    let swapped =
        Matrix4x4::from_elementsi([[0, 3, 0, 0], [2, 0, 0, 0], [0, 0, 5, 0], [0, 0, 0, 7]]);
    assert_eq!(-210, swapped.determinant());
}

#[test]
fn cofactors_of_one_row_against_another_cancel() {
    let m = Matrix4x4::from_elementsi([
        [-2, -8, 3, 5],
        [-3, 1, 7, 3],
        [1, 2, -9, 6],
        [-6, 7, 7, -9],
    ]);
    for i in 0..4 {
        for j in 0..4 {
            let sum: i128 = (0..4).map(|k| m.get(i, k) as i128 * m.cofactor(j, k)).sum();
            assert_eq!(if i == j { -4071 } else { 0 }, sum);
        }
    }
}

#[test]
fn determinants_at_the_limit_do_not_overflow() {
    let l = LIMIT;
    let m = Matrix4x4::from_elementsi([[l, -l, l, -l], [l, l, -l, -l], [l, -l, -l, l], [l, l, l, l]]);
    assert!(m.is_small());
    let cube = l as i128 * l as i128 * l as i128;
    assert_eq!(-16 * cube * l as i128, m.determinant());
    let inv = m.inverse().unwrap();
    assert_eq!(-16 * cube * l as i128, inv.denominator);
    assert_eq!(-4 * cube, inv.numerators.get(0, 0));
    assert_eq!(scaled_identity(inv.denominator), product(&m, &inv.numerators));
}

#[test]
fn is_small_looks_at_every_entry() {
    assert!(Matrix4x4::identity().is_small());
    assert!(Matrix4x4::from_elementsi([[LIMIT; 4]; 4]).is_small());
    assert!(Matrix4x4::from_elementsi([[-LIMIT; 4]; 4]).is_small());
    for i in 0..4 {
        for j in 0..4 {
            let mut elements = [[0i64; 4]; 4];
            elements[i][j] = LIMIT + 1;
            assert!(!Matrix4x4::from_elementsi(elements).is_small());
            elements[i][j] = -LIMIT - 1;
            assert!(!Matrix4x4::from_elementsi(elements).is_small());
        }
    }
}
