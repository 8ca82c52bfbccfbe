use vstd::prelude::*;
use crate::number::{Function, Number};

verus! {

/// `f` can be called on every time and state, returns a vector as long as
/// the state, and is pure: equal arguments give equal results.
pub open spec fn derivative_ok<T: Number, F: Fn(&T, &Vec<T>) -> Vec<T>>(f: F) -> bool {
    &&& forall|t: T, x: Vec<T>| #[trigger] f.requires((&t, &x))
    &&& forall|t: T, x: Vec<T>, r: Vec<T>| #[trigger] f.ensures((&t, &x), r) ==> r.len() == x.len()
    &&& forall|t: T, x1: Vec<T>, x2: Vec<T>, r1: Vec<T>, r2: Vec<T>|
        #[trigger] f.ensures((&t, &x1), r1) && #[trigger] f.ensures((&t, &x2), r2) && x1@ == x2@
            ==> r1@ == r2@
}

/// `r` is a possible result of `f` at time `t` on a vector that holds `x`.
pub open spec fn may_return<T: Number, F: Fn(&T, &Vec<T>) -> Vec<T>>(f: F, t: T, x: Seq<T>, r: Vec<T>) -> bool {
    exists|v: Vec<T>| v@ == x && #[trigger] f.ensures((&t, &v), r)
}

/// What the derivative `f` returns at time `t` and state `x`.
pub open spec fn deriv<T: Number, F: Fn(&T, &Vec<T>) -> Vec<T>>(f: F, t: T, x: Seq<T>) -> Seq<T> {
    (choose|r: Vec<T>| may_return(f, t, x, r))@
}

/// `s` multiplied by `h`, component by component.
pub open spec fn scaled<T: Number>(s: Seq<T>, h: T) -> Seq<T> {
    Seq::new(s.len(), |i: int| s[i].mul_spec(h))
}

/// `x + k / two`, component by component.
pub open spec fn half_step<T: Number>(x: Seq<T>, k: Seq<T>, two: T) -> Seq<T> {
    Seq::new(x.len(), |i: int| x[i].add_spec(k[i].div_spec(two)))
}

/// `x + k`, component by component.
pub open spec fn full_step<T: Number>(x: Seq<T>, k: Seq<T>) -> Seq<T> {
    Seq::new(x.len(), |i: int| x[i].add_spec(k[i]))
}

/// `a*w[0] + b*w[1] + c*w[2] + d*w[3]`, summed from the left.
pub open spec fn weighted<T: Number>(a: T, b: T, c: T, d: T, w: Seq<T>) -> T {
    a.mul_spec(w[0]).add_spec(b.mul_spec(w[1])).add_spec(c.mul_spec(w[2])).add_spec(d.mul_spec(w[3]))
}

/// One step of the weighted Runge-Kutta scheme from state `x` at time `t`
/// with step `h`, weights `w` and normalising divisor `ws`.
pub open spec fn rk_step<T: Number, F: Fn(&T, &Vec<T>) -> Vec<T>>(
    f: F,
    t: T,
    x: Seq<T>,
    h: T,
    w: Seq<T>,
    ws: T,
) -> Seq<T> {
    let two = T::from_u32_spec(2);
    let th = t.add_spec(h.div_spec(two));
    let s1 = deriv(f, t, x);
    let s2 = deriv(f, th, half_step(x, scaled(s1, h), two));
    let s3 = deriv(f, th, half_step(x, scaled(s2, h), two));
    let s4 = deriv(f, t.add_spec(h), full_step(x, scaled(s3, h)));
    Seq::new(
        x.len(),
        |i: int| x[i].add_spec(h.mul_spec(weighted(s1[i], s2[i], s3[i], s4[i], w)).div_spec(ws)),
    )
}

/// The `k`-th time stamp: `t0` followed by `k` additions of `h`.
pub open spec fn time_at<T: Number>(t0: T, h: T, k: nat) -> T
    decreases k,
{
    if k == 0 {
        t0
    } else {
        time_at(t0, h, (k - 1) as nat).add_spec(h)
    }
}

/// Whether the integration takes another step after the `k`-th time stamp.
pub open spec fn goes_on<T: Number>(t0: T, h: T, t1: T, k: nat) -> bool {
    time_at(t0, h, k).add_spec(h).lt_spec(t1)
}

/// Whether the integration from `t0` by steps `h` stops before `t1`.
pub open spec fn reaches_end<T: Number>(t0: T, h: T, t1: T) -> bool {
    exists|n: nat| !#[trigger] goes_on(t0, h, t1, n)
}

/// The state after `k` steps.
pub open spec fn state_at<T: Number, F: Fn(&T, &Vec<T>) -> Vec<T>>(
    f: F,
    x0: Seq<T>,
    t0: T,
    h: T,
    w: Seq<T>,
    ws: T,
    k: nat,
) -> Seq<T>
    decreases k,
{
    if k == 0 {
        x0
    } else {
        let j = (k - 1) as nat;
        rk_step(f, time_at(t0, h, j), state_at(f, x0, t0, h, w, ws, j), h, w, ws)
    }
}

/// A trajectory is determined by what it integrates: two that meet
/// `is_trajectory` for the same arguments hold the same values.
pub proof fn lemma_trajectory_unique<T: Number, F: Fn(&T, &Vec<T>) -> Vec<T>>(
    f: F,
    x0: Seq<T>,
    t0: T,
    t1: T,
    h: T,
    w: Seq<T>,
    ws: T,
    times_a: Seq<T>,
    traj_a: Seq<Vec<T>>,
    times_b: Seq<T>,
    traj_b: Seq<Vec<T>>,
)
    requires
        is_trajectory(f, x0, t0, t1, h, w, ws, times_a, traj_a),
        is_trajectory(f, x0, t0, t1, h, w, ws, times_b, traj_b),
    ensures
        times_a == times_b,
        traj_a.len() == traj_b.len(),
        forall|i: int| 0 <= i < traj_a.len() ==> (#[trigger] traj_a[i])@ == traj_b[i]@,
{
    let na = (times_a.len() - 1) as nat;
    let nb = (times_b.len() - 1) as nat;
    if na < nb {
        assert(goes_on(t0, h, t1, na));
    }
    if nb < na {
        assert(goes_on(t0, h, t1, nb));
    }
    assert(times_a =~= times_b);
    assert forall|i: int| 0 <= i < traj_a.len() implies (#[trigger] traj_a[i])@ == traj_b[i]@ by {
        assert forall|j: int| 0 <= j < traj_a[i]@.len() implies traj_a[i]@[j] == traj_b[i]@[j] by {
            assert(traj_a[i]@[j] == state_at(f, x0, t0, h, w, ws, j as nat)[i]);
            assert(traj_b[i]@[j] == state_at(f, x0, t0, h, w, ws, j as nat)[i]);
        }
        assert(traj_a[i]@ =~= traj_b[i]@);
    }
}

/// Where adding the step moves any time forward, the time stamps of a
/// trajectory increase strictly.
pub proof fn lemma_times_increase<T: Number, F: Fn(&T, &Vec<T>) -> Vec<T>>(
    f: F,
    x0: Seq<T>,
    t0: T,
    t1: T,
    h: T,
    w: Seq<T>,
    ws: T,
    times: Seq<T>,
    traj: Seq<Vec<T>>,
)
    requires
        is_trajectory(f, x0, t0, t1, h, w, ws, times, traj),
        forall|t: T| t.lt_spec(#[trigger] t.add_spec(h)),
    ensures
        forall|j: int| 0 <= j < times.len() - 1 ==> (#[trigger] times[j]).lt_spec(times[j + 1]),
{
    assert forall|j: int| 0 <= j < times.len() - 1 implies (#[trigger] times[j]).lt_spec(times[j + 1]) by {
        assert(times[j] == time_at(t0, h, j as nat));
        assert(times[j + 1] == time_at(t0, h, (j + 1) as nat));
        assert(times[j].lt_spec(times[j].add_spec(h)));
    }
}

proof fn lemma_deriv<T: Number, F: Fn(&T, &Vec<T>) -> Vec<T>>(f: F, t: T, v: Vec<T>, r: Vec<T>)
    requires
        derivative_ok(f),
        f.ensures((&t, &v), r),
    ensures
        deriv(f, t, v@) == r@,
        r.len() == v.len(),
{
    assert(may_return(f, t, v@, r));
    let w = choose|w: Vec<T>| may_return(f, t, v@, w);
    let u = choose|u: Vec<T>| u@ == v@ && #[trigger] f.ensures((&t, &u), w);
    assert(w@ == r@);
}

fn call<T: Number, F: Fn(&T, &Vec<T>) -> Vec<T>>(f: &F, t: &T, x: &Vec<T>) -> (r: Vec<T>)
    requires
        derivative_ok(*f),
    ensures
        r@ == deriv(*f, *t, x@),
        r.len() == x.len(),
{
    let r = f(t, x);
    proof {
        lemma_deriv(*f, *t, *x, r);
    }
    r
}

/// `times` and `traj` are what the integration of `f` from `x0` over
/// `[t0, t1)` by steps `h`, with weights `w` and divisor `ws`, produces: one
/// time stamp per step taken plus the initial one, each the previous plus
/// `h`, the last one the first after which another step would reach `t1`;
/// and, for each component of the state, its value at each time stamp.
pub open spec fn is_trajectory<T: Number, F: Fn(&T, &Vec<T>) -> Vec<T>>(
    f: F,
    x0: Seq<T>,
    t0: T,
    t1: T,
    h: T,
    w: Seq<T>,
    ws: T,
    times: Seq<T>,
    traj: Seq<Vec<T>>,
) -> bool {
    let n = (times.len() - 1) as nat;
    &&& times.len() >= 1
    &&& forall|j: nat| j < n ==> #[trigger] goes_on(t0, h, t1, j)
    &&& !goes_on(t0, h, t1, n)
    &&& forall|j: int| 0 <= j < times.len() ==> #[trigger] times[j] == time_at(t0, h, j as nat)
    &&& traj.len() == x0.len()
    &&& forall|i: int| 0 <= i < traj.len() ==> (#[trigger] traj[i]).len() == times.len()
    &&& forall|i: int, j: int|
        0 <= i < traj.len() && 0 <= j < times.len() ==> #[trigger] traj[i]@[j] == state_at(
            f,
            x0,
            t0,
            h,
            w,
            ws,
            j as nat,
        )[i]
}

fn scale<T: Number>(s: &Vec<T>, h: &T) -> (r: Vec<T>)
    ensures
        r@ == scaled(s@, *h),
{
    let mut r: Vec<T> = Vec::new();
    let mut i: usize = 0;
    while i < s.len()
        invariant
            i <= s.len(),
            r@ =~= scaled(s@, *h).take(i as int),
        decreases s.len() - i,
    {
        r.push(s[i].mul(h));
        i += 1;
    }
    assert(r@ =~= scaled(s@, *h));
    r
}

fn add_half<T: Number>(x: &Vec<T>, k: &Vec<T>, two: &T) -> (r: Vec<T>)
    requires
        k.len() == x.len(),
    ensures
        r@ == half_step(x@, k@, *two),
{
    let mut r: Vec<T> = Vec::new();
    let mut i: usize = 0;
    while i < x.len()
        invariant
            i <= x.len(),
            k.len() == x.len(),
            r@ =~= half_step(x@, k@, *two).take(i as int),
        decreases x.len() - i,
    {
        r.push(x[i].add(&k[i].div(two)));
        i += 1;
    }
    assert(r@ =~= half_step(x@, k@, *two));
    r
}

fn add_full<T: Number>(x: &Vec<T>, k: &Vec<T>) -> (r: Vec<T>)
    requires
        k.len() == x.len(),
    ensures
        r@ == full_step(x@, k@),
{
    let mut r: Vec<T> = Vec::new();
    let mut i: usize = 0;
    while i < x.len()
        invariant
            i <= x.len(),
            k.len() == x.len(),
            r@ =~= full_step(x@, k@).take(i as int),
        decreases x.len() - i,
    {
        r.push(x[i].add(&k[i]));
        i += 1;
    }
    assert(r@ =~= full_step(x@, k@));
    r
}

/// `x + h * (s1*w[0] + s2*w[1] + s3*w[2] + s4*w[3]) / ws`, component by component.
fn combine<T: Number>(
    x: &Vec<T>,
    s1: &Vec<T>,
    s2: &Vec<T>,
    s3: &Vec<T>,
    s4: &Vec<T>,
    h: &T,
    w: &Vec<T>,
    ws: &T,
) -> (r: Vec<T>)
    requires
        s1.len() == x.len(),
        s2.len() == x.len(),
        s3.len() == x.len(),
        s4.len() == x.len(),
        w.len() >= 4,
    ensures
        r@ == Seq::new(
            x.len() as nat,
            |i: int|
                x@[i].add_spec(
                    h.mul_spec(weighted(s1@[i], s2@[i], s3@[i], s4@[i], w@)).div_spec(*ws),
                ),
        ),
{
    let ghost want = Seq::new(
        x.len() as nat,
        |i: int|
            x@[i].add_spec(h.mul_spec(weighted(s1@[i], s2@[i], s3@[i], s4@[i], w@)).div_spec(*ws)),
    );
    let mut r: Vec<T> = Vec::new();
    let mut i: usize = 0;
    while i < x.len()
        invariant
            i <= x.len(),
            s1.len() == x.len(),
            s2.len() == x.len(),
            s3.len() == x.len(),
            s4.len() == x.len(),
            w.len() >= 4,
            want == Seq::new(
                x.len() as nat,
                |i: int|
                    x@[i].add_spec(
                        h.mul_spec(weighted(s1@[i], s2@[i], s3@[i], s4@[i], w@)).div_spec(*ws),
                    ),
            ),
            r@ =~= want.take(i as int),
        decreases x.len() - i,
    {
        let a = s1[i].mul(&w[0]);
        let b = s2[i].mul(&w[1]);
        let c = s3[i].mul(&w[2]);
        let d = s4[i].mul(&w[3]);
        let sum = a.add(&b).add(&c).add(&d);
        let v = x[i].add(&h.mul(&sum).div(ws));
        r.push(v);
        i += 1;
    }
    assert(r@ =~= want);
    r
}

/// Integrates `func` with the weighted fourth-order Runge-Kutta scheme.
///
/// Starting from `initial_conditions` at `time_interval[0]`, it takes steps
/// of `step` while the current time plus `step` stays below
/// `time_interval[1]`, so an end that falls on a step is left out. A step
/// from state `x` at time `t` evaluates the stages
/// `s1 = f(t, x)`, `s2 = f(t + h/2, x + h*s1/2)`, `s3 = f(t + h/2, x + h*s2/2)`,
/// `s4 = f(t + h, x + h*s3)` and moves to
/// `x + h * (s1*w[0] + s2*w[1] + s3*w[2] + s4*w[3]) / weight_sum`.
/// It returns the time stamps and, for each component of the state, its
/// value at each time stamp.
pub fn solver<T: Number, F: Function<T>>(
    func: F,
    initial_conditions: Vec<T>,
    time_interval: &[T; 2],
    step: T,
    weights: &Vec<T>,
    weight_sum: T,
) -> (r: (Vec<T>, Vec<Vec<T>>))
    requires
        derivative_ok(func),
        weights.len() >= 4,
        reaches_end(time_interval[0], step, time_interval[1]),
    ensures
        is_trajectory(
            func,
            initial_conditions@,
            time_interval[0],
            time_interval[1],
            step,
            weights@,
            weight_sum,
            r.0@,
            r.1@,
        ),
        forall|j: int| 0 <= j < r.0.len() - 1 ==> r.0@[j + 1] == (#[trigger] r.0@[j]).add_spec(step),
        forall|j: int| 0 < j < r.0.len() ==> (#[trigger] r.0@[j]).lt_spec(time_interval[1]),
        forall|i: int| 0 <= i < r.1.len() ==> (#[trigger] r.1@[i]).len() == r.0.len(),
{
    let t0 = time_interval[0];
    let t1 = time_interval[1];
    let ghost x0 = initial_conditions@;
    let ghost n0 = choose|n: nat| !#[trigger] goes_on(t0, step, t1, n);
    let two = T::from_u32(2);

    let mut time_stamps: Vec<T> = Vec::new();
    time_stamps.push(t0);
    let mut calculated_vals: Vec<Vec<T>> = Vec::new();
    let mut i: usize = 0;
    while i < initial_conditions.len()
        invariant
            i <= initial_conditions.len(),
            calculated_vals.len() == i,
            forall|r: int| 0 <= r < i ==> (#[trigger] calculated_vals@[r])@ == seq![initial_conditions@[r]],
        decreases initial_conditions.len() - i,
    {
        let mut row: Vec<T> = Vec::new();
        row.push(initial_conditions[i]);
        calculated_vals.push(row);
        i += 1;
    }

    let mut current_vals = initial_conditions;
    let mut current_time = t0;
    let ghost mut k: nat = 0;
    while current_time.add(&step).less_than(&t1)
        invariant
            derivative_ok(func),
            weights.len() >= 4,
            !goes_on(t0, step, t1, n0),
            k <= n0,
            two == T::from_u32_spec(2),
            t0 == time_interval[0],
            t1 == time_interval[1],
            current_time == time_at(t0, step, k),
            current_vals@ == state_at(func, x0, t0, step, weights@, weight_sum, k),
            current_vals.len() == x0.len(),
            time_stamps.len() == k + 1,
            forall|j: nat| j < k ==> #[trigger] goes_on(t0, step, t1, j),
            forall|j: int| 0 <= j < time_stamps.len() ==> #[trigger] time_stamps@[j] == time_at(t0, step, j as nat),
            calculated_vals.len() == x0.len(),
            forall|r: int| 0 <= r < calculated_vals.len() ==> (#[trigger] calculated_vals@[r]).len() == k + 1,
            forall|r: int, j: int|
                0 <= r < calculated_vals.len() && 0 <= j <= k ==> #[trigger] calculated_vals@[r]@[j]
                    == state_at(func, x0, t0, step, weights@, weight_sum, j as nat)[r],
        decreases n0 - k,
    {
        assert(goes_on(t0, step, t1, k));
        let s1 = call(&func, &current_time, &current_vals);
        let k1 = scale(&s1, &step);
        let x2 = add_half(&current_vals, &k1, &two);
        let half = step.div(&two);
        let th = current_time.add(&half);
        let s2 = call(&func, &th, &x2);
        let k2 = scale(&s2, &step);
        let x3 = add_half(&current_vals, &k2, &two);
        let s3 = call(&func, &th, &x3);
        let k3 = scale(&s3, &step);
        let x4 = add_full(&current_vals, &k3);
        let tf = current_time.add(&step);
        let s4 = call(&func, &tf, &x4);
        let next = combine(&current_vals, &s1, &s2, &s3, &s4, &step, weights, &weight_sum);
        assert(next@ =~= state_at(func, x0, t0, step, weights@, weight_sum, k + 1));

        let ghost before = calculated_vals@;
        let mut r: usize = 0;
        while r < calculated_vals.len()
            invariant
                r <= calculated_vals.len(),
                calculated_vals.len() == before.len(),
                next.len() == before.len(),
                forall|q: int| 0 <= q < r ==> (#[trigger] calculated_vals@[q])@ == before[q]@.push(next@[q]),
                forall|q: int| r <= q < calculated_vals.len() ==> #[trigger] calculated_vals@[q] == before[q],
            decreases calculated_vals.len() - r,
        {
            calculated_vals[r].push(next[r]);
            r += 1;
        }

        current_vals = next;
        current_time = tf;
        time_stamps.push(current_time);
        proof {
            k = k + 1;
            assert forall|r: int, j: int|
                0 <= r < calculated_vals.len() && 0 <= j <= k implies #[trigger] calculated_vals@[r]@[j]
                    == state_at(func, x0, t0, step, weights@, weight_sum, j as nat)[r] by {
                assert(calculated_vals@[r]@ == before[r]@.push(next@[r]));
                if j < k {
                    assert(calculated_vals@[r]@[j] == before[r]@[j]);
                }
            }
        }
    }
    proof {
        assert forall|j: int| 0 <= j < time_stamps.len() - 1 implies time_stamps@[j + 1] == (#[trigger] time_stamps@[j]).add_spec(step) by {
            assert(time_stamps@[j + 1] == time_at(t0, step, (j + 1) as nat));
        }
        assert forall|j: int| 0 < j < time_stamps.len() implies (#[trigger] time_stamps@[j]).lt_spec(t1) by {
            assert(goes_on(t0, step, t1, (j - 1) as nat));
            assert(time_stamps@[j] == time_at(t0, step, j as nat));
        }
    }
    (time_stamps, calculated_vals)
}

} // verus!
