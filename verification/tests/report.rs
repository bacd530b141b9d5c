use stock_tracer::instant::Timestamp;
use stock_tracer::report::{join_record, record_line, RecordFigures};

fn figures(texts: [&str; 5]) -> RecordFigures {
    RecordFigures {
        last_price: texts[0].to_string(),
        relative_change_pct: texts[1].to_string(),
        period_min: texts[2].to_string(),
        period_max: texts[3].to_string(),
        last_moving_average: texts[4].to_string(),
    }
}

#[test]
fn a_record_is_joined_by_commas() {
    let line = join_record("AAA", "2023-01-01T00:00:00+00:00", &figures(["15", "50", "10", "15", "12.5"]));
    assert_eq!(line, "AAA,2023-01-01T00:00:00+00:00,15,50,10,15,12.5");
}

#[test]
fn empty_fields_keep_their_commas() {
    assert_eq!(join_record("", "", &figures(["", "", "", "", ""])), ",,,,,,");
    assert_eq!(join_record("AAA", "T", &figures(["15", "50", "10", "15", ""])), "AAA,T,15,50,10,15,");
}

#[test]
fn the_period_start_is_written_as_rfc3339() {
    let from = Timestamp { secs: 1_672_531_200, nanos: 0 };
    let line = record_line("AAA", from, &figures(["15", "50", "10", "15", "12.5"]));
    assert_eq!(line.unwrap(), "AAA,2023-01-01T00:00:00+00:00,15,50,10,15,12.5");
}

#[test]
fn the_epoch_and_the_time_before_it() {
    let none = figures(["1", "2", "3", "4", "5"]);
    assert_eq!(
        record_line("X", Timestamp { secs: 0, nanos: 0 }, &none).unwrap(),
        "X,1970-01-01T00:00:00+00:00,1,2,3,4,5"
    );
    assert_eq!(
        record_line("X", Timestamp { secs: -1, nanos: 0 }, &none).unwrap(),
        "X,1969-12-31T23:59:59+00:00,1,2,3,4,5"
    );
}

#[test]
fn fractions_of_a_second_are_written_where_there_are_any() {
    let none = figures(["1", "2", "3", "4", "5"]);
    assert_eq!(
        record_line("X", Timestamp { secs: 1_431_648_000, nanos: 500_000_000 }, &none).unwrap(),
        "X,2015-05-15T00:00:00.500+00:00,1,2,3,4,5"
    );
    assert_eq!(
        record_line("X", Timestamp { secs: 1_431_648_000, nanos: 1 }, &none).unwrap(),
        "X,2015-05-15T00:00:00.000000001+00:00,1,2,3,4,5"
    );
}

#[test]
fn a_moment_that_is_no_date_has_no_line() {
    let none = figures(["1", "2", "3", "4", "5"]);
    assert_eq!(record_line("X", Timestamp { secs: i64::MAX, nanos: 0 }, &none), None);
    assert_eq!(record_line("X", Timestamp { secs: i64::MIN, nanos: 0 }, &none), None);
    assert_eq!(record_line("X", Timestamp { secs: 0, nanos: 2_000_000_000 }, &none), None);
}
