//! Partition of the nonce space into disjoint windows.

use vstd::prelude::*;
use vstd::arithmetic::div_mod::*;

verus! {

/// A window of the nonce space handed to one member for one round:
/// the nonces from `start` up to, not including, `end`.
#[derive(Clone, Copy, Debug, PartialEq, Eq, Structural)]
pub struct NonceRange {
    pub member_id: u64,
    pub start: u64,
    pub end: u64,
}

impl NonceRange {
    /// Whether `nonce` lies inside the window.
    pub open spec fn contains(self, nonce: u64) -> bool {
        self.start <= nonce < self.end
    }

    /// Whether the two windows have no nonce in common.
    pub open spec fn disjoint(self, other: NonceRange) -> bool {
        forall|nonce: u64| !(#[trigger] self.contains(nonce) && other.contains(nonce))
    }

    /// Tests whether `nonce` lies inside the window.
    pub fn holds(&self, nonce: u64) -> (inside: bool)
        ensures
            inside == self.contains(nonce),
    {
        self.start <= nonce && nonce < self.end
    }
}

/// How a round's nonce space is cut into windows.
///
/// The space is the nonces below `space_size`. It is divided into
/// `expected_pool_size` windows of `space_size / expected_pool_size` nonces
/// each, laid out in increasing order from nonce zero. Every round hands
/// them out in that order, one to each new member, from a cursor that
/// starts at zero when the round opens: the member served after `k` others
/// gets the nonces from `k` times the window size up to, not including,
/// `k + 1` times the window size. `expected_pool_size` is also the ceiling
/// on how many members a round can serve: once the cursor has passed the
/// last window the space has no disjoint window left, and the round hands
/// out none.
#[derive(Clone, Copy, Debug, PartialEq, Eq)]
pub struct AllocationPolicy {
    space_size: u64,
    expected_pool_size: u64,
}

impl AllocationPolicy {
    /// The number of nonces in the space.
    pub closed spec fn spec_space_size(&self) -> u64 {
        self.space_size
    }

    /// The number of windows, which is the largest pool a round can serve.
    pub closed spec fn spec_expected_pool_size(&self) -> u64 {
        self.expected_pool_size
    }

    /// A policy is usable when it has at least one window and every window
    /// holds at least one nonce. Every policy that `new` hands out is.
    #[verifier::type_invariant]
    pub open spec fn wf(self) -> bool {
        1 <= self.spec_expected_pool_size() <= self.spec_space_size()
    }

    /// The number of nonces in each window.
    pub open spec fn window(self) -> nat {
        self.spec_space_size() as nat / self.spec_expected_pool_size() as nat
    }

    /// The first nonce of the window that a round hands out after it has
    /// handed out `issued` others.
    pub open spec fn window_start(self, issued: nat) -> nat {
        issued * self.window()
    }

    /// The nonce just past that window.
    pub open spec fn window_end(self, issued: nat) -> nat {
        self.window_start(issued) + self.window()
    }

    /// A policy over the nonces below `space_size`, for a pool of up to
    /// `expected_pool_size` members; `None` when the pool size is zero or
    /// larger than the space.
    pub fn new(space_size: u64, expected_pool_size: u64) -> (policy: Option<AllocationPolicy>)
        ensures
            policy is Some <==> 1 <= expected_pool_size <= space_size,
            policy matches Some(p) ==> {
                &&& p.wf()
                &&& p.spec_space_size() == space_size
                &&& p.spec_expected_pool_size() == expected_pool_size
            },
    {
        if 1 <= expected_pool_size && expected_pool_size <= space_size {
            Some(AllocationPolicy { space_size, expected_pool_size })
        } else {
            None
        }
    }

    /// The number of nonces in the space.
    #[verifier::when_used_as_spec(spec_space_size)]
    pub fn space_size(&self) -> (size: u64)
        ensures
            size == self.spec_space_size(),
    {
        self.space_size
    }

    /// The number of windows, which is the largest pool a round can serve.
    #[verifier::when_used_as_spec(spec_expected_pool_size)]
    pub fn expected_pool_size(&self) -> (size: u64)
        ensures
            size == self.spec_expected_pool_size(),
    {
        self.expected_pool_size
    }

    /// The window that a round hands to `member_id` after it has handed
    /// out `issued` others.
    pub fn nth_window(&self, issued: u64, member_id: u64) -> (range: NonceRange)
        requires
            issued < self.spec_expected_pool_size(),
        ensures
            range.member_id == member_id,
            range.start == self.window_start(issued as nat),
            range.end == self.window_end(issued as nat),
            range.start < range.end <= self.spec_space_size(),
    {
        proof {
            use_type_invariant(self);
            self.lemma_window_fits(issued as nat);
        }
        let window: u64 = self.space_size / self.expected_pool_size;
        let start: u64 = issued * window;
        NonceRange { member_id, start, end: start + window }
    }

    /// Every window of a usable policy is non-empty and lies inside the space.
    pub proof fn lemma_window_fits(self, issued: nat)
        requires
            self.wf(),
            issued < self.spec_expected_pool_size(),
        ensures
            self.window() >= 1,
            self.window_start(issued) < self.window_end(issued),
            self.window_end(issued) <= self.spec_space_size(),
    {
        let pool = self.spec_expected_pool_size() as int;
        let space = self.spec_space_size() as int;
        let window = self.window() as int;
        let k = issued as int;
        lemma_div_non_zero(space, pool);
        lemma_fundamental_div_mod(space, pool);
        lemma_mod_bound(space, pool);
        assert((k + 1) * window <= pool * window) by (nonlinear_arith)
            requires
                k + 1 <= pool,
                window >= 0,
        ;
        assert((k + 1) * window == k * window + window) by (nonlinear_arith);
    }

    /// The windows come in increasing order, each starting where the one
    /// before it ends.
    pub proof fn lemma_windows_adjoin(self, issued: nat)
        ensures
            self.window_start(issued + 1) == self.window_end(issued),
    {
        let window = self.window() as int;
        let k = issued as int;
        assert((k + 1) * window == k * window + window) by (nonlinear_arith);
    }

    /// Two different windows share no nonce: the earlier ends before the
    /// later starts.
    pub proof fn lemma_windows_disjoint(self, i: nat, j: nat)
        requires
            i < j,
        ensures
            self.window_end(i) <= self.window_start(j),
    {
        let window = self.window() as int;
        let a = i as int;
        let b = j as int;
        assert((a + 1) * window <= b * window) by (nonlinear_arith)
            requires
                a + 1 <= b,
                window >= 0,
        ;
        assert((a + 1) * window == a * window + window) by (nonlinear_arith);
    }
}

} // verus!
