//! How many dead drops one request may fetch.
use vstd::prelude::*;

verus! {

/// The most dead drops served per request, for each direction; both are at least one.
#[derive(Clone, Copy, Debug)]
pub struct DeadDropLimits {
    pub j2u_dead_drops_per_request_limit: u32,
    pub u2j_dead_drops_per_request_limit: u32,
}

impl DeadDropLimits {
    /// Both limits are at least one.
    pub open spec fn valid(&self) -> bool {
        self.j2u_dead_drops_per_request_limit > 0 && self.u2j_dead_drops_per_request_limit > 0
    }

    pub fn new(j2u_dead_drops_per_request_limit: u32, u2j_dead_drops_per_request_limit: u32) -> (r: Self)
        requires
            j2u_dead_drops_per_request_limit > 0,
            u2j_dead_drops_per_request_limit > 0,
        ensures
            r.j2u_dead_drops_per_request_limit == j2u_dead_drops_per_request_limit,
            r.u2j_dead_drops_per_request_limit == u2j_dead_drops_per_request_limit,
            r.valid(),
    {
        DeadDropLimits { j2u_dead_drops_per_request_limit, u2j_dead_drops_per_request_limit }
    }
}

/// The number of dead drops served: the requested number when it is within
/// the limit, the limit otherwise, and the limit when none was requested.
pub open spec fn limit_or_default_spec(limit: Option<u32>, default_limit: u32) -> u32 {
    match limit {
        Some(requested) => if requested <= default_limit {
            requested
        } else {
            default_limit
        },
        None => default_limit,
    }
}

/// The number of dead drops to serve for a request.  A requested number, like
/// the limit, is at least one.
pub fn limit_or_default(limit: Option<u32>, default_limit: u32) -> (r: u32)
    requires
        default_limit > 0,
        limit matches Some(l) ==> l > 0,
    ensures
        r == limit_or_default_spec(limit, default_limit),
{
    match limit {
        Some(requested_limit) => {
            if requested_limit <= default_limit {
                requested_limit
            } else {
                default_limit
            }
        },
        None => default_limit,
    }
}

/// The served number never exceeds the limit, is never zero, and is the
/// requested number whenever that is within the limit.
pub proof fn lemma_limit_is_capped(limit: Option<u32>, default_limit: u32)
    requires
        default_limit > 0,
        limit matches Some(l) ==> l > 0,
    ensures
        0 < limit_or_default_spec(limit, default_limit) <= default_limit,
        limit matches Some(l) ==> (l <= default_limit ==> limit_or_default_spec(limit, default_limit) == l),
        limit matches Some(l) ==> (l > default_limit ==> limit_or_default_spec(limit, default_limit)
            == default_limit),
{
}

/// The query of a dead drop listing: the ids to start after, and the number wanted.
#[derive(Clone, Copy, Debug)]
pub struct GetDeadDropQueryParams {
    ids_greater_than: i32,
    limit: Option<u32>,
}

impl GetDeadDropQueryParams {
    #[verifier::type_invariant]
    spec fn limit_positive(self) -> bool {
        self.limit matches Some(l) ==> l > 0
    }

    pub closed spec fn spec_ids_greater_than(self) -> i32 {
        self.ids_greater_than
    }

    pub closed spec fn spec_limit(self) -> Option<u32> {
        self.limit
    }

    /// A query; a requested number is at least one.
    pub fn new(ids_greater_than: i32, limit: Option<u32>) -> (r: Self)
        requires
            limit matches Some(l) ==> l > 0,
        ensures
            r.spec_ids_greater_than() == ids_greater_than,
            r.spec_limit() == limit,
    {
        GetDeadDropQueryParams { ids_greater_than, limit }
    }

    pub fn ids_greater_than(&self) -> (r: i32)
        ensures
            r == self.spec_ids_greater_than(),
    {
        self.ids_greater_than
    }

    /// The number of dead drops requested, if any.
    pub fn limit(&self) -> (r: Option<u32>)
        ensures
            r == self.spec_limit(),
    {
        self.limit
    }

    /// The number of dead drops to serve for this query under `default_limit`.
    pub fn limit_or_default(&self, default_limit: u32) -> (r: u32)
        requires
            default_limit > 0,
        ensures
            r == limit_or_default_spec(self.spec_limit(), default_limit),
    {
        proof {
            use_type_invariant(self);
        }
        limit_or_default(self.limit, default_limit)
    }
}

/// The query of a dead drop listing on the paths kept for older clients.
#[derive(Clone, Copy, Debug)]
pub struct LegacyGetDeadDropQueryParams {
    ids_greater_than: i32,
    limit: Option<u32>,
}

impl LegacyGetDeadDropQueryParams {
    #[verifier::type_invariant]
    spec fn limit_positive(self) -> bool {
        self.limit matches Some(l) ==> l > 0
    }

    pub closed spec fn spec_ids_greater_than(self) -> i32 {
        self.ids_greater_than
    }

    pub closed spec fn spec_limit(self) -> Option<u32> {
        self.limit
    }

    /// A query; a requested number is at least one.
    pub fn new(ids_greater_than: i32, limit: Option<u32>) -> (r: Self)
        requires
            limit matches Some(l) ==> l > 0,
        ensures
            r.spec_ids_greater_than() == ids_greater_than,
            r.spec_limit() == limit,
    {
        LegacyGetDeadDropQueryParams { ids_greater_than, limit }
    }

    pub fn ids_greater_than(&self) -> (r: i32)
        ensures
            r == self.spec_ids_greater_than(),
    {
        self.ids_greater_than
    }

    /// The number of dead drops requested, if any.
    pub fn limit(&self) -> (r: Option<u32>)
        ensures
            r == self.spec_limit(),
    {
        self.limit
    }

    /// The number of dead drops to serve for this query under `default_limit`.
    pub fn limit_or_default(&self, default_limit: u32) -> (r: u32)
        requires
            default_limit > 0,
        ensures
            r == limit_or_default_spec(self.spec_limit(), default_limit),
    {
        proof {
            use_type_invariant(self);
        }
        limit_or_default(self.limit, default_limit)
    }
}

} // verus!
