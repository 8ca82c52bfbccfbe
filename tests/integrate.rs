use ode::{solver, Method, Number, Solver};

#[derive(Clone, Copy, Debug, PartialEq, PartialOrd)]
struct F32(f32);

impl Number for F32 {
    fn add_spec(self, o: Self) -> Self {
        self.add(&o)
    }
    fn mul_spec(self, o: Self) -> Self {
        self.mul(&o)
    }
    fn div_spec(self, o: Self) -> Self {
        self.div(&o)
    }
    fn lt_spec(self, o: Self) -> bool {
        self.less_than(&o)
    }
    fn from_u32_spec(n: u32) -> Self {
        Self::from_u32(n)
    }
    fn add(&self, o: &Self) -> Self {
        F32(self.0 + o.0)
    }
    fn mul(&self, o: &Self) -> Self {
        F32(self.0 * o.0)
    }
    fn div(&self, o: &Self) -> Self {
        F32(self.0 / o.0)
    }
    fn less_than(&self, o: &Self) -> bool {
        self.0 < o.0
    }
    fn from_u32(n: u32) -> Self {
        F32(n as f32)
    }
}

#[derive(Clone, Copy, Debug, PartialEq, PartialOrd)]
struct F64(f64);

impl Number for F64 {
    fn add_spec(self, o: Self) -> Self {
        self.add(&o)
    }
    fn mul_spec(self, o: Self) -> Self {
        self.mul(&o)
    }
    fn div_spec(self, o: Self) -> Self {
        self.div(&o)
    }
    fn lt_spec(self, o: Self) -> bool {
        self.less_than(&o)
    }
    fn from_u32_spec(n: u32) -> Self {
        Self::from_u32(n)
    }
    fn add(&self, o: &Self) -> Self {
        F64(self.0 + o.0)
    }
    fn mul(&self, o: &Self) -> Self {
        F64(self.0 * o.0)
    }
    fn div(&self, o: &Self) -> Self {
        F64(self.0 / o.0)
    }
    fn less_than(&self, o: &Self) -> bool {
        self.0 < o.0
    }
    fn from_u32(n: u32) -> Self {
        F64(n as f64)
    }
}

fn f32s(v: &[f32]) -> Vec<F32> {
    v.iter().map(|x| F32(*x)).collect()
}

/*
 * Consider the ODE:
 *
 *     y'(t) = 2*t
 *
 * The analitical solution is
 *
 *     y(t) = t^2 + c
 */
#[test]
fn integrate_2_t() {
    let start = 0;
    let end = 500;

    let (_, num_sol) = solver(
        |t: &F32, _: &Vec<F32>| vec![F32(2. * t.0)],
        f32s(&[0.]),
        &[F32(start as f32), F32(end as f32)],
        F32(1.0),
        &f32s(&[1., 2., 2., 1.]),
        F32(6.),
    );

    let mut an_sol: Vec<u32> = vec![];
    for i in start..end {
        an_sol.push(i * i);
    }

    // to compare the results, we need to convert the numerical solution to
    // u32 (easy to do, since the solution is exact)
    let mut num_sol_u32: Vec<u32> = Vec::new();
    for el in num_sol[0].clone() {
        num_sol_u32.push(el.0 as u32);
    }

    // compare lengths
    assert_eq!(num_sol[0].len(), an_sol.len());
    assert_eq!(num_sol_u32, an_sol);
}

#[test]
fn lengths_agree_for_every_component() {
    let (times, traj) = solver(
        |_: &F64, x: &Vec<F64>| vec![x[1], F64(-x[0].0), F64(1.0)],
        vec![F64(1.0), F64(0.0), F64(0.0)],
        &[F64(0.0), F64(3.0)],
        F64(0.25),
        &vec![F64(1.0), F64(2.0), F64(2.0), F64(1.0)],
        F64(6.0),
    );
    assert_eq!(traj.len(), 3);
    assert_eq!(times.len(), 12);
    for row in &traj {
        assert_eq!(row.len(), times.len());
    }
    assert_eq!(traj[0][0], F64(1.0));
    assert_eq!(traj[1][0], F64(0.0));
}

#[test]
fn time_stamps_step_by_step() {
    let (times, _) = solver(
        |_: &F64, x: &Vec<F64>| x.clone(),
        vec![F64(1.0)],
        &[F64(1.0), F64(5.0)],
        F64(0.5),
        &vec![F64(1.0), F64(2.0), F64(2.0), F64(1.0)],
        F64(6.0),
    );
    assert_eq!(times[0], F64(1.0));
    for j in 0..times.len() - 1 {
        assert_eq!(times[j + 1], F64(times[j].0 + 0.5));
        assert!(times[j].0 < times[j + 1].0);
    }
    assert_eq!(times.len(), 8);
}

#[test]
fn endpoint_on_a_step_is_left_out() {
    let (times, traj) = solver(
        |t: &F32, _: &Vec<F32>| vec![F32(2. * t.0)],
        f32s(&[0.]),
        &[F32(0.0), F32(10.0)],
        F32(1.0),
        &f32s(&[1., 2., 2., 1.]),
        F32(6.),
    );
    assert_eq!(times.len(), 10);
    assert_eq!(*times.last().unwrap(), F32(9.0));
    assert!(times.last().unwrap().0 < 10.0);
    assert_eq!(*traj[0].last().unwrap(), F32(81.0));
}

#[test]
fn no_step_when_the_first_one_reaches_the_end() {
    let (times, traj) = solver(
        |_: &F64, x: &Vec<F64>| x.clone(),
        vec![F64(3.0), F64(4.0)],
        &[F64(0.0), F64(1.0)],
        F64(1.0),
        &vec![F64(1.0), F64(2.0), F64(2.0), F64(1.0)],
        F64(6.0),
    );
    assert_eq!(times, vec![F64(0.0)]);
    assert_eq!(traj, vec![vec![F64(3.0)], vec![F64(4.0)]]);
}

#[test]
fn one_step_of_the_exponential() {
    // x' = x from x = 1 with h = 1: the stages are 1, 1.5, 1.75, 2.75
    let (times, traj) = solver(
        |_: &F64, x: &Vec<F64>| x.clone(),
        vec![F64(1.0)],
        &[F64(0.0), F64(1.5)],
        F64(1.0),
        &vec![F64(1.0), F64(2.0), F64(2.0), F64(1.0)],
        F64(6.0),
    );
    assert_eq!(times, vec![F64(0.0), F64(1.0)]);
    let expected = 1.0 + 1.0 * (1.0 * 1.0 + 1.5 * 2.0 + 1.75 * 2.0 + 2.75 * 1.0) / 6.0;
    assert_eq!(traj[0], vec![F64(1.0), F64(expected)]);
}

#[test]
fn one_half_step_of_the_exponential() {
    // x' = x from x = 1 with h = 0.5: the stages are 1, 1.25, 1.3125, 1.65625
    let (times, traj) = solver(
        |_: &F64, x: &Vec<F64>| x.clone(),
        vec![F64(1.0)],
        &[F64(0.0), F64(0.6)],
        F64(0.5),
        &vec![F64(1.0), F64(2.0), F64(2.0), F64(1.0)],
        F64(6.0),
    );
    assert_eq!(times, vec![F64(0.0), F64(0.5)]);
    let expected = 1.0 + 0.5 * (1.0 * 1.0 + 1.25 * 2.0 + 1.3125 * 2.0 + 1.65625 * 1.0) / 6.0;
    assert_eq!(traj[0][1], F64(expected));
    assert_ne!(traj[0][1], F64(1.0));
}

#[test]
fn stages_are_evaluated_at_the_classical_points() {
    // x' = t: the stages are t, t + h/2, t + h/2, t + h
    let (_, traj) = solver(
        |t: &F64, _: &Vec<F64>| vec![*t],
        vec![F64(0.0)],
        &[F64(2.0), F64(4.5)],
        F64(2.0),
        &vec![F64(1.0), F64(2.0), F64(2.0), F64(1.0)],
        F64(6.0),
    );
    let expected = 0.0 + 2.0 * (2.0 * 1.0 + 3.0 * 2.0 + 3.0 * 2.0 + 4.0 * 1.0) / 6.0;
    assert_eq!(traj[0], vec![F64(0.0), F64(expected)]);
}

#[test]
fn new_solver_is_valid() {
    let s = Solver::new(&[F64(0.0), F64(1.0)], &vec![F64(0.0)]);
    assert!(s.validate());
}

#[test]
fn wrong_weight_count_is_invalid() {
    let mut s = Solver::new(&[F64(0.0), F64(1.0)], &vec![F64(0.0)]);
    s.weights(vec![F64(1.0), F64(1.0)]);
    assert!(!s.validate());
    s.weights(vec![F64(1.0), F64(2.0), F64(2.0), F64(1.0), F64(0.0)]);
    assert!(!s.validate());
    s.weights(vec![F64(0.0), F64(0.0), F64(0.0), F64(1.0)]);
    assert!(s.validate());
}

#[test]
fn default_step_is_one_hundredth() {
    let s = Solver::new(&[F64(0.0), F64(0.035)], &vec![F64(0.0)]);
    let (times, traj) = s.solve(|_: &F64, _: &Vec<F64>| vec![F64(1.0)]);
    // 0, 0.01, 0.02, 0.03: one more step would pass 0.035
    assert_eq!(times.len(), 4);
    assert_eq!(times[1], F64(1.0 / 100.0));
    assert_eq!(times[2], F64(1.0 / 100.0 + 1.0 / 100.0));
    assert_eq!(traj[0].len(), 4);
}

#[test]
fn solve_matches_solver_with_default_weights() {
    let mut s = Solver::new(&[F32(0.0), F32(0.5)], &f32s(&[0.0]));
    let (times, traj) = s.method(Method::RK4).solve(|t: &F32, _: &Vec<F32>| vec![F32(2. * t.0)]);
    let (times2, traj2) = solver(
        |t: &F32, _: &Vec<F32>| vec![F32(2. * t.0)],
        f32s(&[0.0]),
        &[F32(0.0), F32(0.5)],
        F32(1.0 / 100.0),
        &f32s(&[1., 2., 2., 1.]),
        F32(6.),
    );
    assert_eq!(times, times2);
    assert_eq!(traj, traj2);
}

#[test]
fn custom_weights_change_the_result() {
    // only the fourth stage counts: x' = t gives h * (t + h) per step
    let mut s = Solver::new(&[F64(0.0), F64(0.015)], &vec![F64(0.0)]);
    s.weights(vec![F64(0.0), F64(0.0), F64(0.0), F64(1.0)]);
    let (_, traj) = s.solve(|t: &F64, _: &Vec<F64>| vec![*t]);
    let h = 1.0 / 100.0;
    let expected = 0.0 + h * (0.0 * 0.0 + (h / 2.0) * 0.0 + (h / 2.0) * 0.0 + h * 1.0) / 1.0;
    assert_eq!(traj[0], vec![F64(0.0), F64(expected)]);
}

#[test]
fn method_discards_custom_weights() {
    let mut custom = Solver::new(&[F64(0.0), F64(0.055)], &vec![F64(1.0)]);
    custom.weights(vec![F64(0.0), F64(0.0), F64(0.0), F64(1.0)]);
    custom.method(Method::RK4);
    let plain = Solver::new(&[F64(0.0), F64(0.055)], &vec![F64(1.0)]);
    let a = custom.solve(|_: &F64, x: &Vec<F64>| x.clone());
    let b = plain.solve(|_: &F64, x: &Vec<F64>| x.clone());
    assert_eq!(a, b);

    let mut short = Solver::new(&[F64(0.0), F64(1.0)], &vec![F64(1.0)]);
    short.weights(vec![F64(1.0)]);
    assert!(!short.validate());
    short.method(Method::RK4);
    assert!(short.validate());
}

#[test]
fn solving_twice_is_bit_identical() {
    let mut s = Solver::new(&[F64(0.0), F64(0.5)], &vec![F64(1.0), F64(0.0)]);
    s.method(Method::RK4);
    let f = |_: &F64, x: &Vec<F64>| vec![x[1], F64(-x[0].0)];
    let (t1, x1) = s.solve(f);
    let (t2, x2) = s.solve(f);
    assert_eq!(t1.len(), t2.len());
    for j in 0..t1.len() {
        assert_eq!(t1[j].0.to_bits(), t2[j].0.to_bits());
    }
    for i in 0..x1.len() {
        for j in 0..x1[i].len() {
            assert_eq!(x1[i][j].0.to_bits(), x2[i][j].0.to_bits());
        }
    }
}
