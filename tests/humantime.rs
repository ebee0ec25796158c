use mine_stats::humantime::{Accuracy, HumanTime, Humanize, Tense, TimePeriod};

#[test]
fn precise_text_lists_every_unit() {
    let t = HumanTime::new(3723, 0);
    assert_eq!(t.to_text_en(Accuracy::Precise, Tense::Present), "1 hour, 2 minutes and 3 seconds");
    assert_eq!(t.to_text_en(Accuracy::Precise, Tense::Past), "1 hour, 2 minutes and 3 seconds ago");
    assert_eq!(t.to_text_en(Accuracy::Precise, Tense::Future), "in 1 hour, 2 minutes and 3 seconds");
}

#[test]
fn precise_text_of_large_duration() {
    let secs = 2 * 31_536_000 + 30 * 86_400 + 7 * 86_400 + 86_400 + 1;
    let t = HumanTime::new(secs, 0);
    assert_eq!(
        t.to_text_en(Accuracy::Precise, Tense::Present),
        "2 years, 1 month, 1 week, 1 day and 1 second"
    );
}

#[test]
fn precise_text_below_a_second() {
    let t = HumanTime::new(0, 1_002_003);
    assert_eq!(t.to_text_en(Accuracy::Precise, Tense::Present), "1 ms, 2 µs and 3 ns");
}

#[test]
fn empty_duration_reads_zero_seconds() {
    let t = HumanTime::now();
    assert!(t.is_zero());
    assert_eq!(t.precise_period(), vec![TimePeriod::Seconds(0)]);
    assert_eq!(t.locale_en(Accuracy::Precise), "0 seconds");
    assert_eq!(t.locale_en(Accuracy::Rough), "now");
}

#[test]
fn rough_text_picks_one_unit() {
    assert_eq!(HumanTime::new(3600, 0).to_text_en(Accuracy::Rough, Tense::Present), "an hour");
    assert_eq!(HumanTime::new(5 * 3600, 0).to_text_en(Accuracy::Rough, Tense::Present), "5 hours");
    assert_eq!(HumanTime::new(60, 0).to_text_en(Accuracy::Rough, Tense::Present), "a minute");
    assert_eq!(HumanTime::new(30, 0).to_text_en(Accuracy::Rough, Tense::Present), "30 seconds");
    assert_eq!(HumanTime::new(400 * 86_400, 0).to_text_en(Accuracy::Rough, Tense::Present), "a year");
    assert_eq!(HumanTime::new(600 * 86_400, 0).to_text_en(Accuracy::Rough, Tense::Present), "2 years");
    assert_eq!(HumanTime::new(50 * 86_400, 0).rough_period(), vec![TimePeriod::Months(2)]);
}

#[test]
fn natural_tense_is_future_or_present() {
    assert_eq!(HumanTime::new(5, 0).tense(Accuracy::Rough), Tense::Present);
    assert_eq!(HumanTime::new(5, 0).tense(Accuracy::Precise), Tense::Future);
    assert_eq!(HumanTime::now().tense(Accuracy::Precise), Tense::Present);
    assert_eq!(HumanTime::new(3600, 0).locale_en(Accuracy::Rough), "in an hour");
    assert_eq!(HumanTime::new(3600, 0).humanize(), "in an hour");
}

#[test]
fn accuracy_predicates() {
    assert!(Accuracy::Precise.is_precise());
    assert!(!Accuracy::Precise.is_rough());
    assert!(Accuracy::Rough.is_rough());
    assert!(!Accuracy::Rough.is_precise());
}

#[test]
fn period_words() {
    assert_eq!(TimePeriod::Hours(1).to_text(Accuracy::Rough), "an hour");
    assert_eq!(TimePeriod::Hours(1).to_text(Accuracy::Precise), "1 hour");
    assert_eq!(TimePeriod::Seconds(1).to_text_rough(), "1 seconds");
    assert_eq!(TimePeriod::Seconds(1).to_text_precise(), "1 second");
    assert_eq!(TimePeriod::Eternity.to_text_precise(), "eternity");
    assert_eq!(TimePeriod::Nanos(1234567890).to_text_precise(), "1234567890 ns");
}
