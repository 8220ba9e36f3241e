use coverdrop::dead_drops::{limit_or_default, DeadDropLimits, GetDeadDropQueryParams, LegacyGetDeadDropQueryParams};

// Wrapper to avoid the construction of a GetDeadDropQueryParams many times
fn query_param_limit(limit: Option<u32>, default_limit: u32) -> u32 {
    let params = GetDeadDropQueryParams::new(1, limit);
    params.limit_or_default(default_limit)
}

#[test]
fn query_params_limit_less_than_default() {
    assert_eq!(query_param_limit(Some(1), 10), 1);
}

#[test]
fn query_params_limit_equal_to_default() {
    assert_eq!(query_param_limit(Some(10), 10), 10);
}

#[test]
fn query_params_limit_more_than_default() {
    assert_eq!(query_param_limit(Some(100), 10), 10);
}

#[test]
fn query_params_without_limit_use_default() {
    assert_eq!(query_param_limit(None, 24), 24);
    assert_eq!(limit_or_default(None, 360), 360);
}

#[test]
fn legacy_query_params_follow_the_same_rule() {
    let params = LegacyGetDeadDropQueryParams::new(7, Some(500));
    assert_eq!(params.ids_greater_than(), 7);
    assert_eq!(params.limit_or_default(360), 360);
    let params = LegacyGetDeadDropQueryParams::new(7, Some(5));
    assert_eq!(params.limit_or_default(360), 5);
}

#[test]
fn dead_drop_limits_keep_both_directions() {
    let limits = DeadDropLimits::new(360, 24);
    assert_eq!(limits.j2u_dead_drops_per_request_limit, 360);
    assert_eq!(limits.u2j_dead_drops_per_request_limit, 24);
}

#[test]
fn query_params_keep_what_was_asked() {
    let params = GetDeadDropQueryParams::new(42, Some(3));
    assert_eq!(params.ids_greater_than(), 42);
    assert_eq!(params.limit(), Some(3));
    assert_eq!(GetDeadDropQueryParams::new(0, None).limit(), None);
    assert_eq!(LegacyGetDeadDropQueryParams::new(1, Some(9)).limit(), Some(9));
}
