use vstd::prelude::*;
use crate::scalar::Scalar;

verus! {

/// A real function of one variable.
pub trait Function<T: Scalar>: Sync {
    /// The value at `x`.
    spec fn spec_get(&self, x: T) -> T;

    fn get(&self, x: T) -> (r: T)
        ensures
            r == self.spec_get(x),
    ;
}

/// The values of `f`, as a mathematical function.
pub open spec fn values_of<T: Scalar, F: Function<T>>(f: &F) -> spec_fn(T) -> T {
    |x: T| f.spec_get(x)
}

/// A real function of two variables.
pub trait Function2d<T: Scalar>: Sync {
    fn get(&self, x: T, y: T) -> T;
}

/// Failure to sample a function on a grid.
#[derive(Debug, Clone, Copy, PartialEq, Eq, Structural)]
pub enum SampleError {
    /// A grid needs at least its two end points.
    TooFewPoints,
}

/// The grid step `(right − left)/(n − 1)`.
pub open spec fn grid_step<T: Scalar>(left: T, right: T, n: nat) -> T {
    right.spec_sub(left).spec_div(T::spec_from_usize((n - 1) as usize))
}

/// Grid point `i·step + left`.
pub open spec fn grid_point<T: Scalar>(left: T, step: T, i: nat) -> T {
    T::spec_from_usize(i as usize).spec_mul(step).spec_add(left)
}

/// `node_count` evenly spaced samples `(x, f(x))` over `[left, right]`,
/// both ends included.
pub fn to_vec<T: Scalar, F: Function<T>>(f: &F, left: T, right: T, node_count: usize) -> (r:
    Result<Vec<(T, T)>, SampleError>)
    ensures
        node_count < 2 <==> r == Err::<Vec<(T, T)>, SampleError>(SampleError::TooFewPoints),
        r matches Ok(v) ==> v@.len() == node_count && forall|i: int|
            0 <= i < node_count ==> {
                let x = grid_point(left, grid_step(left, right, node_count as nat), i as nat);
                #[trigger] v@[i] == (x, f.spec_get(x))
            },
{
    if node_count < 2 {
        return Err(SampleError::TooFewPoints);
    }
    let step = right.sub(left).div(T::from_usize(node_count - 1));
    let mut out: Vec<(T, T)> = Vec::new();
    let mut i: usize = 0;
    while i < node_count
        invariant
            i <= node_count,
            node_count >= 2,
            step == grid_step(left, right, node_count as nat),
            out@.len() == i,
            forall|k: int|
                0 <= k < i ==> {
                    let x = grid_point(left, step, k as nat);
                    #[trigger] out@[k] == (x, f.spec_get(x))
                },
        decreases node_count - i,
    {
        let x = T::from_usize(i).mul(step).add(left);
        out.push((x, f.get(x)));
        i = i + 1;
    }
    Ok(out)
}

} // verus!

verus! {

/// Which stored samples a lookup at raw grid index `i` reads, on a grid of
/// `n` samples: `Some(i)` blends samples `i` and `i + 1`, `None` means the
/// lookup lies at or past the last sample.
pub open spec fn segment_spec(n: nat, i: nat) -> Option<nat> {
    if i + 2 > n {
        None
    } else {
        Some(i)
    }
}

/// The segment of a grid of `n >= 1` samples that raw index `i` falls in.
pub fn segment(n: usize, i: usize) -> (r: Option<usize>)
    requires
        n >= 1,
    ensures
        r matches Some(k) ==> k + 1 < n,
        r == (match segment_spec(n as nat, i as nat) {
            Some(k) => Some(k as usize),
            None => None::<usize>,
        }),
{
    if i >= n - 1 {
        None
    } else {
        Some(i)
    }
}

/// The value of a point function with samples `pts` over `[left, right]`
/// at `x`: the first sample below `left`; the last sample at or past the
/// last grid segment; otherwise `pts[i]·t + pts[i+1]·(1 − t)`, with `i` and
/// `t` the integer and fractional parts of `(x − left)/step`.
pub open spec fn point_value<T: Scalar>(pts: Seq<T>, left: T, right: T, x: T) -> T {
    if x.spec_less_than(left) {
        pts[0]
    } else {
        let q = x.spec_sub(left).spec_div(grid_step(left, right, pts.len()));
        let i = q.spec_floor_index() as nat;
        match segment_spec(pts.len(), i) {
            None => pts[pts.len() - 1],
            Some(k) => {
                let t = q.spec_fract();
                pts[k as int].spec_mul(t).spec_add(pts[(k + 1) as int].spec_mul(T::spec_one().spec_sub(t)))
            },
        }
    }
}

/// A function known by its values at `n` evenly spaced points of
/// `[left, right]`, interpolated between them and held constant outside.
pub struct PointFunction<T> {
    pts: Vec<T>,
    left: T,
    right: T,
}

impl<T> PointFunction<T> {
    #[verifier::type_invariant]
    spec fn inv(self) -> bool {
        self.pts@.len() >= 1
    }

    /// The stored samples.
    pub closed spec fn samples(self) -> Seq<T> {
        self.pts@
    }

    /// The first grid point.
    pub closed spec fn lower(self) -> T {
        self.left
    }

    /// The last grid point.
    pub closed spec fn upper(self) -> T {
        self.right
    }
}

impl<T: Scalar> PointFunction<T> {
    pub fn new(pts: Vec<T>, left: T, right: T) -> (r: Self)
        requires
            pts@.len() >= 1,
        ensures
            r.samples() == pts@,
            r.lower() == left,
            r.upper() == right,
    {
        PointFunction { pts, left, right }
    }

    pub fn len(&self) -> (r: usize)
        ensures
            r == self.samples().len(),
            r >= 1,
    {
        proof {
            use_type_invariant(self);
        }
        self.pts.len()
    }

    /// The `i`-th stored sample.
    pub fn sample(&self, i: usize) -> (r: T)
        requires
            i < self.samples().len(),
        ensures
            r == self.samples()[i as int],
    {
        self.pts[i]
    }
}

impl<T: Scalar> Function<T> for PointFunction<T> {
    open spec fn spec_get(&self, x: T) -> T {
        point_value(self.samples(), self.lower(), self.upper(), x)
    }

    fn get(&self, x: T) -> (r: T) {
        proof {
            use_type_invariant(self);
        }
        let n = self.pts.len();
        if x.less_than(self.left) {
            return self.pts[0];
        }
        let step = self.right.sub(self.left).div(T::from_usize(n - 1));
        let q = x.sub(self.left).div(step);
        match segment(n, q.floor_index()) {
            None => self.pts[n - 1],
            Some(i) => {
                let t = q.fract();
                self.pts[i].mul(t).add(self.pts[i + 1].mul(T::one().sub(t)))
            },
        }
    }
}

} // verus!
