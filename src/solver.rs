use vstd::prelude::*;
use crate::number::{Function, Number};
use crate::rk4;
use crate::rk4::{derivative_ok, is_trajectory, lemma_trajectory_unique, reaches_end};

verus! {

/// The integration scheme.
#[derive(Clone, Copy, Debug, PartialEq, Eq, Structural)]
pub enum Method {
    /// The classical four-stage Runge-Kutta scheme.
    RK4,
}

/// How many weights, one per stage, the scheme `m` takes.
pub open spec fn stage_count(m: Method) -> nat {
    match m {
        Method::RK4 => 4,
    }
}

/// The canonical weights of the scheme `m`.
pub open spec fn default_weights<T: Number>(m: Method) -> Seq<T> {
    match m {
        Method::RK4 => seq![
            T::from_u32_spec(1),
            T::from_u32_spec(2),
            T::from_u32_spec(2),
            T::from_u32_spec(1),
        ],
    }
}

/// `((0 + w[0]) + w[1]) + ...`, summed from the left.
pub open spec fn sum_of<T: Number>(w: Seq<T>) -> T
    decreases w.len(),
{
    if w.len() == 0 {
        T::from_u32_spec(0)
    } else {
        sum_of(w.drop_last()).add_spec(w.last())
    }
}

/// The step a new solver starts with: one hundredth.
pub open spec fn default_step<T: Number>() -> T {
    T::from_u32_spec(1).div_spec(T::from_u32_spec(100))
}

/// A copy of `v`, element by element.
fn copy_of<T: Copy>(v: &Vec<T>) -> (r: Vec<T>)
    ensures
        r@ == v@,
{
    let mut r: Vec<T> = Vec::new();
    let mut i: usize = 0;
    while i < v.len()
        invariant
            i <= v.len(),
            r@ =~= v@.take(i as int),
        decreases v.len() - i,
    {
        r.push(v[i]);
        i += 1;
    }
    assert(r@ =~= v@);
    r
}

/// What a `Solver` holds.
pub struct SolverView<T> {
    pub method: Method,
    pub weights: Seq<T>,
    pub weight_sum: T,
    pub time_begin: T,
    pub time_end: T,
    pub step: T,
    pub initial_conditions: Seq<T>,
}

impl<T: Number> SolverView<T> {
    /// The configuration after selecting the scheme `m`: its canonical
    /// weights replace the current ones.
    pub open spec fn with_method(self, m: Method) -> SolverView<T> {
        SolverView {
            method: m,
            weights: default_weights(m),
            weight_sum: sum_of(default_weights::<T>(m)),
            ..self
        }
    }

    /// The configuration after setting the weights to `w`.
    pub open spec fn with_weights(self, w: Seq<T>) -> SolverView<T> {
        SolverView { weights: w, weight_sum: sum_of(w), ..self }
    }

    /// The weights agree with the scheme.
    pub open spec fn valid(self) -> bool {
        self.weights.len() == stage_count(self.method)
    }

    /// `r` is what integrating `f` with this configuration gives.
    pub open spec fn solved<F: Fn(&T, &Vec<T>) -> Vec<T>>(
        self,
        f: F,
        r: (Vec<T>, Vec<Vec<T>>),
    ) -> bool {
        is_trajectory(
            f,
            self.initial_conditions,
            self.time_begin,
            self.time_end,
            self.step,
            self.weights,
            self.weight_sum,
            r.0@,
            r.1@,
        )
    }
}

/// A configured integration: scheme, weights, step, time interval and
/// initial state.
pub struct Solver<T: Number> {
    method: Method,
    weights: Vec<T>,
    weight_sum: T,
    time_begin: T,
    time_end: T,
    step: T,
    initial_conditions: Vec<T>,
}

impl<T: Number> View for Solver<T> {
    type V = SolverView<T>;

    closed spec fn view(&self) -> SolverView<T> {
        SolverView {
            method: self.method,
            weights: self.weights@,
            weight_sum: self.weight_sum,
            time_begin: self.time_begin,
            time_end: self.time_end,
            step: self.step,
            initial_conditions: self.initial_conditions@,
        }
    }
}

impl<T: Number> Solver<T> {
    /// The weight sum is the sum of the weights.
    pub open spec fn wf(&self) -> bool {
        self@.weight_sum == sum_of(self@.weights)
    }

    fn sum_weights(weights: &Vec<T>) -> (r: T)
        ensures
            r == sum_of(weights@),
    {
        let mut sum = T::from_u32(0);
        let mut i: usize = 0;
        while i < weights.len()
            invariant
                i <= weights.len(),
                sum == sum_of(weights@.take(i as int)),
            decreases weights.len() - i,
        {
            assert(weights@.take(i + 1).drop_last() =~= weights@.take(i as int));
            sum = sum.add(&weights[i]);
            i += 1;
        }
        assert(weights@.take(weights.len() as int) =~= weights@);
        sum
    }

    fn get_default_weights_for(method: &Method) -> (r: Vec<T>)
        ensures
            r@ == default_weights::<T>(*method),
    {
        match method {
            Method::RK4 => {
                let mut w: Vec<T> = Vec::new();
                w.push(T::from_u32(1));
                w.push(T::from_u32(2));
                w.push(T::from_u32(2));
                w.push(T::from_u32(1));
                assert(w@ =~= default_weights::<T>(*method));
                w
            },
        }
    }

    /// A solver for the interval `[time_interval[0], time_interval[1])` from
    /// `initial_conditions`, with the scheme RK4, its canonical weights and
    /// the default step.
    pub fn new(time_interval: &[T; 2], initial_conditions: &Vec<T>) -> (r: Solver<T>)
        ensures
            r.wf(),
            r@ == (SolverView {
                method: Method::RK4,
                weights: default_weights::<T>(Method::RK4),
                weight_sum: sum_of(default_weights::<T>(Method::RK4)),
                time_begin: time_interval[0],
                time_end: time_interval[1],
                step: default_step::<T>(),
                initial_conditions: initial_conditions@,
            }),
    {
        let weights = Self::get_default_weights_for(&Method::RK4);
        let sum_of_weights = Self::sum_weights(&weights);
        let default_step = T::from_u32(1).div(&T::from_u32(100));
        let init = copy_of(initial_conditions);
        Solver {
            method: Method::RK4,
            weights,
            weight_sum: sum_of_weights,
            time_begin: time_interval[0],
            time_end: time_interval[1],
            step: default_step,
            initial_conditions: init,
        }
    }

    /// Selects the scheme, and resets the weights to its canonical ones.
    pub fn method(&mut self, new_method: Method) -> (r: &mut Solver<T>)
        ensures
            r@ == old(self)@.with_method(new_method),
            r.wf(),
            *final(self) == *final(r),
    {
        self.weights = Self::get_default_weights_for(&new_method);
        self.method = new_method;
        self.weight_sum = Self::sum_weights(&self.weights);
        self
    }

    /// Replaces the weights, one per stage, and recomputes their sum.
    pub fn weights(&mut self, new_weights: Vec<T>) -> (r: &mut Solver<T>)
        ensures
            r@ == old(self)@.with_weights(new_weights@),
            r.wf(),
            *final(self) == *final(r),
    {
        self.weight_sum = Self::sum_weights(&new_weights);
        self.weights = new_weights;
        self
    }

    /// Whether there are as many weights as the scheme has stages.
    pub fn validate(&self) -> (r: bool)
        ensures
            r == self@.valid(),
    {
        self.weights.len() == match self.method {
            Method::RK4 => 4,
        }
    }

    /// Integrates `function` with this configuration.
    pub fn solve<F: Function<T>>(&self, function: F) -> (r: (Vec<T>, Vec<Vec<T>>))
        requires
            self@.valid(),
            derivative_ok(function),
            reaches_end(self@.time_begin, self@.step, self@.time_end),
        ensures
            self@.solved(function, r),
            forall|j: int|
                0 <= j < r.0.len() - 1 ==> r.0@[j + 1] == (#[trigger] r.0@[j]).add_spec(self@.step),
            forall|j: int| 0 < j < r.0.len() ==> (#[trigger] r.0@[j]).lt_spec(self@.time_end),
            forall|i: int| 0 <= i < r.1.len() ==> (#[trigger] r.1@[i]).len() == r.0.len(),
    {
        match self.method {
            Method::RK4 => {
                rk4::solver(
                    function,
                    copy_of(&self.initial_conditions),
                    &[self.time_begin, self.time_end],
                    self.step,
                    &self.weights,
                    self.weight_sum,
                )
            },
        }
    }
}

/// Selecting a scheme discards any weights set before: setting weights `w`
/// and then selecting `m` leaves the same configuration as selecting `m`
/// alone, with the canonical weights of `m`.
pub proof fn lemma_method_discards_weights<T: Number>(s: SolverView<T>, w: Seq<T>, m: Method)
    ensures
        s.with_weights(w).with_method(m) == s.with_method(m),
        s.with_weights(w).with_method(m).weights == default_weights::<T>(m),
{
}

/// Solving twice with an unchanged configuration and the same pure
/// derivative gives identical time stamps and trajectories.
pub proof fn lemma_solve_idempotent<T: Number, F: Fn(&T, &Vec<T>) -> Vec<T>>(
    s: SolverView<T>,
    f: F,
    a: (Vec<T>, Vec<Vec<T>>),
    b: (Vec<T>, Vec<Vec<T>>),
)
    requires
        s.solved(f, a),
        s.solved(f, b),
    ensures
        a.0@ == b.0@,
        a.1.len() == b.1.len(),
        forall|i: int| 0 <= i < a.1.len() ==> (#[trigger] a.1@[i])@ == b.1@[i]@,
{
    lemma_trajectory_unique(
        f,
        s.initial_conditions,
        s.time_begin,
        s.time_end,
        s.step,
        s.weights,
        s.weight_sum,
        a.0@,
        a.1@,
        b.0@,
        b.1@,
    );
}

} // verus!
