use cleese::plugins::basic::format_duration;

#[test]
fn test_format() {
    assert_eq!(format_duration(0).as_str(), "0 seconds");
    assert_eq!(format_duration(1).as_str(), "1 second");
    assert_eq!(format_duration(2).as_str(), "2 seconds");
    assert_eq!(format_duration(93).as_str(), "1 minute 33 seconds");
    assert_eq!(
        format_duration(3145400).as_str(),
        "36 days 9 hours 43 minutes 20 seconds"
    );
}

#[test]
fn test_format_hours_only() {
    assert_eq!(format_duration(3600).as_str(), "1 hour 0 minutes 0 seconds");
    assert_eq!(format_duration(3661).as_str(), "1 hour 1 minute 1 second");
}

#[test]
fn test_format_negative() {
    assert_eq!(format_duration(-5).as_str(), "-5 seconds");
}

#[test]
fn test_format_agrees_with_uptime_module() {
    assert_eq!(
        cleese::plugins::uptime::format_duration(93).as_str(),
        "1 minute 33 seconds"
    );
}
