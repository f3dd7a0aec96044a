use veloren_server::ban::{ban_end_date, DurationOutOfRange, Moment, DELTA_MAX_NANOS, DELTA_MAX_SECS};

const NOW: Moment = Moment { secs: 1_700_000_000, nanos: 250 };

#[test]
fn no_duration_is_a_permanent_ban() {
    assert_eq!(ban_end_date(NOW, None), Ok(None));
}

#[test]
fn a_duration_ends_the_ban_that_much_later() {
    assert_eq!(
        ban_end_date(NOW, Some((3600, 500))),
        Ok(Some(Moment { secs: 1_700_003_600, nanos: 750 }))
    );
    assert_eq!(
        ban_end_date(NOW, Some((1, 999_999_800))),
        Ok(Some(Moment { secs: 1_700_000_002, nanos: 50 }))
    );
}

#[test]
fn a_duration_beyond_any_date_is_permanent() {
    assert_eq!(ban_end_date(NOW, Some((DELTA_MAX_SECS, 0))), Ok(None));
}

#[test]
fn a_duration_beyond_any_time_span_is_refused() {
    assert_eq!(ban_end_date(NOW, Some((DELTA_MAX_SECS, DELTA_MAX_NANOS + 1))), Err(DurationOutOfRange));
    assert_eq!(ban_end_date(NOW, Some((u64::MAX, 0))), Err(DurationOutOfRange));
}
