use vstd::prelude::*;

use crate::errors::FftError;
use crate::spectrum::spectrum_entries;

verus! {

/// Direction of a planned transform.
#[derive(Clone, Copy, Debug, PartialEq, Eq, Structural)]
pub enum Direction {
    /// Real time-domain signal to complex half-spectrum.
    Forward,
    /// Complex half-spectrum back to a real time-domain signal.
    Inverse,
}

/// A planned transform of one fixed time-domain length and direction.
///
/// A plan is immutable once built and fixes the buffer sizes of every
/// execution of that transform; the numeric kernel executing against it
/// is chosen outside by the same length and direction, so equal plans
/// give numerically equal transforms.
#[derive(Clone, Copy, Debug, PartialEq, Eq, Structural)]
pub struct Plan {
    /// Time-domain length of the transform.
    pub length: usize,
    /// Direction of the transform.
    pub direction: Direction,
}

impl Plan {
    /// A plan is well formed when its length is one the planner accepts
    /// for its direction: at least 1 forward, even and at least 2 inverse.
    pub open spec fn wf(self) -> bool {
        match self.direction {
            Direction::Forward => self.length >= 1,
            Direction::Inverse => self.length >= 2 && self.length % 2 == 0,
        }
    }

    /// Number of complex bins of the half-spectrum this plan produces
    /// (forward) or consumes (inverse).
    pub fn spectrum_len(&self) -> (r: usize)
        ensures
            r == spectrum_entries(self.length as nat),
    {
        self.length / 2 + 1
    }

    /// Length of the packed wire form of that half-spectrum.
    pub fn packed_len(&self) -> (r: usize)
        requires
            self.length <= usize::MAX - 2,
        ensures
            r == 2 * spectrum_entries(self.length as nat),
    {
        2 * (self.length / 2 + 1)
    }
}

/// The plan a forward request for `length` resolves to.
pub open spec fn forward_plan(length: usize) -> Plan {
    Plan { length, direction: Direction::Forward }
}

/// The plan an inverse request for `length` resolves to.
pub open spec fn inverse_plan(length: usize) -> Plan {
    Plan { length, direction: Direction::Inverse }
}

/// What a forward plan request for `length` returns: the forward plan
/// for `length` if `length >= 1`, and `InvalidLength` exactly on a
/// zero length.
pub open spec fn plan_forward_result(r: Result<Plan, FftError>, length: usize) -> bool {
    match r {
        Ok(p) => length >= 1 && p == forward_plan(length),
        Err(e) => length == 0 && e == FftError::InvalidLength,
    }
}

/// What an inverse plan request for `length` returns: the inverse plan
/// for `length` if `length` is even and at least 2, and `InvalidLength`
/// exactly on an odd or too small length.
pub open spec fn plan_inverse_result(r: Result<Plan, FftError>, length: usize) -> bool {
    match r {
        Ok(p) => length >= 2 && length % 2 == 0 && p == inverse_plan(length),
        Err(e) => (length < 2 || length % 2 != 0) && e == FftError::InvalidLength,
    }
}

/// Plan a forward transform of a real signal of `length` samples.
pub fn plan_forward(length: usize) -> (r: Result<Plan, FftError>)
    ensures
        plan_forward_result(r, length),
{
    if length == 0 {
        Err(FftError::InvalidLength)
    } else {
        Ok(Plan { length, direction: Direction::Forward })
    }
}

/// Plan an inverse transform towards a real signal of `length` samples.
///
/// `length` is the time-domain output length, not the spectrum length;
/// only even lengths of at least 2 are representable by a packed
/// half-spectrum.
pub fn plan_inverse(length: usize) -> (r: Result<Plan, FftError>)
    ensures
        plan_inverse_result(r, length),
{
    if length < 2 || length % 2 != 0 {
        Err(FftError::InvalidLength)
    } else {
        Ok(Plan { length, direction: Direction::Inverse })
    }
}

/// Two plans collide in the cache when they answer the same request.
pub open spec fn same_key(a: Plan, b: Plan) -> bool {
    a.length == b.length && a.direction == b.direction
}

/// Well-formed cache contents: every cached plan is well formed and no
/// two entries answer the same request.
pub open spec fn cache_wf(s: Seq<Plan>) -> bool {
    &&& forall|i: int| 0 <= i < s.len() ==> (#[trigger] s[i]).wf()
    &&& forall|i: int, j: int|
        0 <= i < j < s.len() ==> !same_key(#[trigger] s[i], #[trigger] s[j])
}

/// The cache holds an entry for (`length`, `direction`).
pub open spec fn cache_has(s: Seq<Plan>, length: usize, direction: Direction) -> bool {
    exists|i: int| 0 <= i < s.len() && same_key(#[trigger] s[i], Plan { length, direction })
}

/// A lazy cache of plans, keyed by length and direction.
///
/// Entries are created on first request for a key, retained for the
/// lifetime of the cache and never evicted; a forward and an inverse
/// entry of the same length are distinct. Repeated requests for one key
/// return a plan equal to the one first built, so reuse cannot change
/// the behavior of later transforms.
pub struct PlanCache {
    plans: Vec<Plan>,
}

impl View for PlanCache {
    type V = Seq<Plan>;

    closed spec fn view(&self) -> Seq<Plan> {
        self.plans@
    }
}

impl PlanCache {
    /// An empty cache.
    pub fn new() -> (c: PlanCache)
        ensures
            c@.len() == 0,
            cache_wf(c@),
    {
        PlanCache { plans: Vec::new() }
    }

    /// Request the forward plan for `length`, building and retaining it
    /// on the first request and reusing the retained entry afterwards.
    pub fn get_forward(&mut self, length: usize) -> (r: Result<Plan, FftError>)
        requires
            cache_wf(old(self)@),
        ensures
            cache_wf(final(self)@),
            plan_forward_result(r, length),
            r matches Err(_) ==> final(self)@ == old(self)@,
            r matches Ok(_) ==> cache_has(final(self)@, length, Direction::Forward),
            final(self)@ == old(self)@ || final(self)@ == old(self)@.push(
                forward_plan(length),
            ),
            cache_has(old(self)@, length, Direction::Forward) ==> final(self)@ == old(self)@,
    {
        if length == 0 {
            return Err(FftError::InvalidLength);
        }
        let p = Plan { length, direction: Direction::Forward };
        if !self.lookup(p) {
            self.plans.push(p);
            proof {
                let last: int = self.plans@.len() - 1;
                assert(same_key(self.plans@[last], Plan { length, direction: Direction::Forward }));
            }
        }
        Ok(p)
    }

    /// Request the inverse plan for `length`, building and retaining it
    /// on the first request and reusing the retained entry afterwards.
    pub fn get_inverse(&mut self, length: usize) -> (r: Result<Plan, FftError>)
        requires
            cache_wf(old(self)@),
        ensures
            cache_wf(final(self)@),
            plan_inverse_result(r, length),
            r matches Err(_) ==> final(self)@ == old(self)@,
            r matches Ok(_) ==> cache_has(final(self)@, length, Direction::Inverse),
            final(self)@ == old(self)@ || final(self)@ == old(self)@.push(
                inverse_plan(length),
            ),
            cache_has(old(self)@, length, Direction::Inverse) ==> final(self)@ == old(self)@,
    {
        if length < 2 || length % 2 != 0 {
            return Err(FftError::InvalidLength);
        }
        let p = Plan { length, direction: Direction::Inverse };
        if !self.lookup(p) {
            self.plans.push(p);
            proof {
                let last: int = self.plans@.len() - 1;
                assert(same_key(self.plans@[last], Plan { length, direction: Direction::Inverse }));
            }
        }
        Ok(p)
    }

    /// Number of plans the cache retains.
    pub fn len(&self) -> (r: usize)
        ensures
            r == self@.len(),
    {
        self.plans.len()
    }

    /// Whether an entry for the key of `p` is already cached.
    fn lookup(&self, p: Plan) -> (found: bool)
        ensures
            found == cache_has(self@, p.length, p.direction),
    {
        let n = self.plans.len();
        let mut i: usize = 0;
        while i < n
            invariant
                n == self.plans@.len(),
                i <= n,
                forall|j: int| 0 <= j < i ==> !same_key(#[trigger] self.plans@[j], p),
            decreases n - i,
        {
            let cached = self.plans[i];
            if cached.length == p.length && cached.direction == p.direction {
                assert(same_key(self.plans@[i as int], Plan { length: p.length, direction: p.direction }));
                return true;
            }
            i = i + 1;
        }
        false
    }
}

/// Plan reuse law: two forward plan requests for the same length answer
/// alike — both fail, or both return the one forward plan of that
/// length — so a transform executed against a reused plan cannot differ
/// from one executed against a freshly built plan.
pub proof fn lemma_plan_reuse(r1: Result<Plan, FftError>, r2: Result<Plan, FftError>, length: usize)
    requires
        plan_forward_result(r1, length),
        plan_forward_result(r2, length),
    ensures
        r1 == r2,
{
}

/// Plan reuse law for the inverse direction.
pub proof fn lemma_plan_reuse_inverse(
    r1: Result<Plan, FftError>,
    r2: Result<Plan, FftError>,
    length: usize,
)
    requires
        plan_inverse_result(r1, length),
        plan_inverse_result(r2, length),
    ensures
        r1 == r2,
{
}

} // verus!
