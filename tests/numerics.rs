use fredholm::functions::{segment, to_vec, Function, PointFunction, SampleError};
use fredholm::galerkin::{EvenPowerPolynomial, GalerkinMethod};
use fredholm::galerkin_fourier::{CosineSeries, GalerkinMethodWithFourier};
use fredholm::integrals::{Integrator, TrapezoidIntegrator};
use fredholm::linear_equation::{LUSolver, LinearEquationSolver, SolveError};
use fredholm::method::{Method, Solution};
use fredholm::neumann::{lower_grid_index, NeumannMethod};
use fredholm::nystrom::{node_weight, NodeWeight, NystromMethod};
use fredholm::scalar::Scalar;

#[derive(Clone, Copy, Debug, PartialEq)]
struct R(f64);

impl Scalar for R {
    fn zero() -> Self {
        R(0.0)
    }
    fn one() -> Self {
        R(1.0)
    }
    fn from_usize(n: usize) -> Self {
        R(n as f64)
    }
    fn add(self, other: Self) -> Self {
        R(self.0 + other.0)
    }
    fn sub(self, other: Self) -> Self {
        R(self.0 - other.0)
    }
    fn mul(self, other: Self) -> Self {
        R(self.0 * other.0)
    }
    fn div(self, other: Self) -> Self {
        R(self.0 / other.0)
    }
    fn neg(self) -> Self {
        R(-self.0)
    }
    fn is_zero(self) -> bool {
        self.0 == 0.0
    }
    fn less_than(self, other: Self) -> bool {
        self.0 < other.0
    }
    fn floor_index(self) -> usize {
        self.0.floor() as usize
    }
    fn fract(self) -> Self {
        R(self.0.fract())
    }
    fn cos(self) -> Self {
        R(self.0.cos())
    }
    fn pi() -> Self {
        R(std::f64::consts::PI)
    }
    fn spec_zero() -> Self {
        Self::zero()
    }
    fn spec_one() -> Self {
        Self::one()
    }
    fn spec_from_usize(n: usize) -> Self {
        Self::from_usize(n)
    }
    fn spec_add(self, other: Self) -> Self {
        self.add(other)
    }
    fn spec_sub(self, other: Self) -> Self {
        self.sub(other)
    }
    fn spec_mul(self, other: Self) -> Self {
        self.mul(other)
    }
    fn spec_div(self, other: Self) -> Self {
        self.div(other)
    }
    fn spec_neg(self) -> Self {
        self.neg()
    }
    fn spec_is_zero(self) -> bool {
        self.is_zero()
    }
    fn spec_less_than(self, other: Self) -> bool {
        self.less_than(other)
    }
    fn spec_floor_index(self) -> usize {
        self.floor_index()
    }
    fn spec_fract(self) -> Self {
        self.fract()
    }
    fn spec_cos(self) -> Self {
        self.cos()
    }
    fn spec_pi() -> Self {
        Self::pi()
    }
}

struct Fun<F>(F);

impl<F: Fn(f64) -> f64 + Sync> Function<R> for Fun<F> {
    fn spec_get(&self, x: R) -> R {
        self.get(x)
    }
    fn get(&self, x: R) -> R {
        R((self.0)(x.0))
    }
}

fn rs(v: &[f64]) -> Vec<R> {
    v.iter().map(|x| R(*x)).collect()
}

fn residual(mat: &[f64], width: usize, x: &[R], b: &[f64]) -> f64 {
    let mut worst: f64 = 0.0;
    for i in 0..width {
        let mut s = 0.0;
        for j in 0..width {
            s += mat[i * width + j] * x[j].0;
        }
        worst = worst.max((s - b[i]).abs());
    }
    worst
}

#[test]
fn lu_solves_small_system() {
    let mat = [4.0, 1.0, 2.0, 1.0, 5.0, 1.0, 2.0, 1.0, 6.0];
    let b = [7.0, 7.0, 9.0];
    let x = LUSolver.solve(&rs(&mat), 3, &rs(&b)).unwrap();
    assert_eq!(x.len(), 3);
    assert!(residual(&mat, 3, &x, &b) < 1e-9);
    for v in &x {
        assert!((v.0 - 1.0).abs() < 1e-12);
    }
}

#[test]
fn lu_solves_diagonally_dominant_systems() {
    for width in 1..12usize {
        let mut mat = vec![0.0; width * width];
        let mut b = vec![0.0; width];
        for i in 0..width {
            for j in 0..width {
                mat[i * width + j] = ((i * 7 + j * 3) % 5) as f64 - 2.0;
            }
            mat[i * width + i] = 4.0 * width as f64 + 1.0;
            b[i] = (i as f64) - 3.5;
        }
        let x = LUSolver.solve(&rs(&mat), width, &rs(&b)).unwrap();
        let norm = mat.iter().fold(0.0f64, |m, v| m.max(v.abs()));
        assert!(residual(&mat, width, &x, &b) < 1e-9 * norm);
    }
}

#[test]
fn lu_rejects_non_square_matrix() {
    let r = LUSolver.solve(&rs(&[1.0, 2.0, 3.0, 4.0, 5.0]), 2, &rs(&[1.0, 2.0]));
    assert_eq!(r, Err(SolveError::DimensionMismatch));
}

#[test]
fn lu_rejects_wrong_right_hand_side() {
    let r = LUSolver.solve(&rs(&[1.0, 0.0, 0.0, 1.0]), 2, &rs(&[1.0, 2.0, 3.0]));
    assert_eq!(r, Err(SolveError::DimensionMismatch));
}

#[test]
fn lu_rejects_zero_pivot() {
    let r = LUSolver.solve(&rs(&[0.0, 1.0, 1.0, 0.0]), 2, &rs(&[1.0, 2.0]));
    assert_eq!(r, Err(SolveError::SingularSystem));
}

#[test]
fn lu_rejects_pivot_zeroed_by_elimination() {
    // second pivot: 4 − 2·2/1 = 0
    let r = LUSolver.solve(&rs(&[1.0, 2.0, 2.0, 4.0]), 2, &rs(&[1.0, 2.0]));
    assert_eq!(r, Err(SolveError::SingularSystem));
}

#[test]
fn lu_empty_system() {
    let r = LUSolver.solve(&rs(&[]), 0, &rs(&[]));
    assert_eq!(r, Ok(vec![]));
}

#[test]
fn trapezoid_is_exact_for_constants() {
    let integ = TrapezoidIntegrator::new(5);
    let r = integ.integrate(&Fun(|_| 1.0), R(0.0), R(4.0));
    assert_eq!(r.0, 4.0);
    let integ = TrapezoidIntegrator::new(2);
    let r = integ.integrate(&Fun(|_| 1.0), R(-1.5), R(2.5));
    assert_eq!(r.0, 4.0);
}

#[test]
fn trapezoid_odd_function_vanishes() {
    let integ = TrapezoidIntegrator::new(101);
    let r = integ.integrate(&Fun(|x| x), R(-3.0), R(3.0));
    assert!(r.0.abs() < 1e-12);
}

#[test]
fn trapezoid_quadratic_value() {
    // nodes 0, 1, 2 of x²: (0 + 1)/2 + (1 + 4)/2 = 3
    let integ = TrapezoidIntegrator::new(3);
    let r = integ.integrate(&Fun(|x| x * x), R(0.0), R(2.0));
    assert_eq!(r.0, 3.0);
}

#[test]
fn sampling_grid() {
    let v = to_vec(&Fun(|x| 2.0 * x), R(1.0), R(3.0), 3).unwrap();
    assert_eq!(v, vec![(R(1.0), R(2.0)), (R(2.0), R(4.0)), (R(3.0), R(6.0))]);
}

#[test]
fn sampling_needs_two_points() {
    assert_eq!(to_vec(&Fun(|x| x), R(0.0), R(1.0), 1), Err(SampleError::TooFewPoints));
    assert_eq!(to_vec(&Fun(|x| x), R(0.0), R(1.0), 0), Err(SampleError::TooFewPoints));
}

#[test]
fn point_function_reproduces_linear_at_midpoints() {
    let lin = |x: f64| 3.0 * x - 1.0;
    let pts: Vec<R> = (0..5).map(|i| R(lin(i as f64))).collect();
    let p = PointFunction::new(pts, R(0.0), R(4.0));
    for k in 0..4 {
        let x = k as f64 + 0.5;
        assert_eq!(p.get(R(x)).0, lin(x));
    }
    // at an inner node the whole weight falls on the following sample
    assert_eq!(p.get(R(1.0)).0, lin(2.0));
}

#[test]
fn point_function_weights_follow_stored_order() {
    // weight t on the earlier sample, 1 − t on the later one
    let p = PointFunction::new(rs(&[0.0, 4.0]), R(0.0), R(1.0));
    assert_eq!(p.get(R(0.25)).0, 3.0);
}

#[test]
fn point_function_clamps_outside() {
    let p = PointFunction::new(rs(&[2.0, 5.0, 9.0]), R(0.0), R(2.0));
    assert_eq!(p.get(R(-1.0)).0, 2.0);
    assert_eq!(p.get(R(2.0)).0, 9.0);
    assert_eq!(p.get(R(7.5)).0, 9.0);
    assert_eq!(p.len(), 3);
    assert_eq!(p.sample(1).0, 5.0);
}

#[test]
fn grid_index_helpers() {
    assert_eq!(segment(5, 2), Some(2));
    assert_eq!(segment(5, 3), Some(3));
    assert_eq!(segment(5, 4), None);
    assert_eq!(segment(1, 0), None);
    assert_eq!(lower_grid_index(3, 5), 3);
    assert_eq!(lower_grid_index(5, 5), 4);
    assert_eq!(lower_grid_index(usize::MAX, 5), 4);
    assert_eq!(node_weight(0, 4), NodeWeight::HalfDirect);
    assert_eq!(node_weight(2, 4), NodeWeight::BothSides);
    assert_eq!(node_weight(3, 4), NodeWeight::HalfBothSides);
}

#[test]
fn even_power_polynomial_at_zero() {
    let p = EvenPowerPolynomial::new(rs(&[3.0, 5.0, 7.0]));
    assert_eq!(p.get(R(0.0)).0, 3.0);
    // 3 + 5·4 + 7·16
    assert_eq!(p.get(R(2.0)).0, 135.0);
    assert_eq!(p.coefficient_count(), 3);
}

#[test]
fn cosine_series_at_zero() {
    let c = CosineSeries::new(rs(&[3.0, 5.0, 7.0]), R(2.0));
    assert_eq!(c.get(R(0.0)).0, 15.0);
    // cos(0) = 1, cos(π) = −1, cos(2π) = 1 at x = width
    assert!((c.get(R(2.0)).0 - 5.0).abs() < 1e-12);
}

fn zero() -> Fun<fn(f64) -> f64> {
    Fun(|_| 0.0)
}

fn sqrt_weight() -> Fun<fn(f64) -> f64> {
    Fun(|t| (1.0 - t * t).sqrt())
}

fn assert_one_everywhere(s: &Solution<R>, width: f64) {
    for k in 0..=20 {
        let x = width * k as f64 / 20.0;
        assert!((s.get(R(x)).0 - 1.0).abs() < 1e-9, "at {x}");
    }
}

#[test]
fn nystrom_without_birth_or_death_gives_one() {
    let m = NystromMethod::new(LUSolver, 20);
    let s = m.solve(&zero(), &zero(), R(0.7), R(3.0)).unwrap();
    assert!(matches!(s, Solution::Points(_)));
    assert_one_everywhere(&s, 3.0);
}

#[test]
fn neumann_without_birth_or_death_gives_one() {
    let m = NeumannMethod::new(5, 20, TrapezoidIntegrator::new(20));
    let s = m.solve(&zero(), &zero(), R(0.7), R(3.0)).unwrap();
    assert_one_everywhere(&s, 3.0);
}

#[test]
fn galerkin_without_birth_or_death_gives_one() {
    let m = GalerkinMethod::new(TrapezoidIntegrator::new(30), LUSolver, sqrt_weight(), 6);
    let s = m.solve(&zero(), &zero(), R(0.7), R(3.0)).unwrap();
    match &s {
        Solution::EvenPowers(p) => assert_eq!(p.coefficient_count(), 3),
        _ => panic!("expected an even power polynomial"),
    }
    assert_one_everywhere(&s, 3.0);
}

#[test]
fn galerkin_fourier_without_birth_or_death_gives_one() {
    let m = GalerkinMethodWithFourier::new(TrapezoidIntegrator::new(30), LUSolver, sqrt_weight(), 6);
    let s = m.solve(&zero(), &zero(), R(0.7), R(3.0)).unwrap();
    match &s {
        Solution::Cosines(c) => assert_eq!(c.coefficient_count(), 3),
        _ => panic!("expected a cosine series"),
    }
    assert_one_everywhere(&s, 3.0);
}

fn mean_relative_error(s: &Solution<R>, exact: &dyn Fn(f64) -> f64, width: f64) -> f64 {
    let n = 200;
    let mut total = 0.0;
    for k in 0..n {
        let x = width * k as f64 / (n - 1) as f64;
        total += (s.get(R(x)).0 - exact(x)).abs() / exact(x);
    }
    total / n as f64
}

#[test]
fn nystrom_matches_exponential_scenario() {
    let (a, b) = (1.0f64, 1.0f64);
    let y = 2.0 / 3.0 * b + 52.0 / 27.0 * a;
    let q = move |x: f64| {
        1.0 / 3.0 * a * x * x - 16.0 / 9.0 * a * x.abs() + 56.0 / 27.0 * a + 1.0 / 3.0 * b
    };
    let r = move |x: f64| a * x * x + b;
    let birth = Fun(|x: f64| (-2.0 * x.abs()).exp());
    let death = Fun(move |x: f64| (-(x.abs())).exp() * q(x) / (1.0 + (-(x.abs())).exp() * r(x)));
    let exact = move |x: f64| 1.0 + (-(x.abs())).exp() * r(x);
    let m = NystromMethod::new(LUSolver, 400);
    let s = m.solve(&birth, &death, R(y), R(15.0)).unwrap();
    assert!(mean_relative_error(&s, &exact, 15.0) < 0.03);
}

#[test]
fn solving_twice_gives_identical_results() {
    let birth = Fun(|x: f64| 0.3 * (-2.0 * x.abs()).exp());
    let death = Fun(|x: f64| 0.1 / (1.0 + x * x));
    let m = NystromMethod::new(LUSolver, 30);
    let s1 = m.solve(&birth, &death, R(0.5), R(4.0)).unwrap();
    let s2 = m.solve(&birth, &death, R(0.5), R(4.0)).unwrap();
    let n = NeumannMethod::new(4, 30, TrapezoidIntegrator::new(30));
    let t1 = n.solve(&birth, &death, R(0.5), R(4.0)).unwrap();
    let t2 = n.solve(&birth, &death, R(0.5), R(4.0)).unwrap();
    for k in 0..=40 {
        let x = R(4.0 * k as f64 / 40.0);
        assert_eq!(s1.get(x), s2.get(x));
        assert_eq!(t1.get(x), t2.get(x));
    }
}
