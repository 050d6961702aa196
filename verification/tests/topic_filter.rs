use mqttrust::error::Error;
use mqttrust::topic_filter::TopicFilter;

#[test]
fn test_nonwild_topic_filter() {
    const FILTER: &str = "some/topic";

    let filter = TopicFilter::new(FILTER).unwrap();
    assert!(filter.is_match(FILTER));

    assert_eq!(filter.filter(), FILTER);
}

#[test]
fn test_topic_filter() {
    const FILTER1: &str = "some/topic/#";

    let filter = TopicFilter::new(FILTER1).unwrap();
    assert!(filter.is_match("some/topic/thing"));
    assert!(filter.is_match("some/topic/thing/more/sections"));

    assert_eq!(filter.filter(), FILTER1);

    const FILTER2: &str = "some/+/thing";
    let filter = TopicFilter::new(FILTER2).unwrap();
    assert!(filter.is_match("some/topic/thing"));
    assert!(!filter.is_match("some/topic/plus/thing"));

    assert_eq!(filter.filter(), FILTER2);

    const FILTER3: &str = "some/+";
    let filter = TopicFilter::new(FILTER3).unwrap();
    assert!(filter.is_match("some/thing"));
    assert!(!filter.is_match("some/thing/plus"));
}

#[test]
fn a_filter_without_wildcards_matches_only_itself() {
    let filter = TopicFilter::new("some/topic").unwrap();
    assert!(!filter.is_match("some/topic/"));
    assert!(!filter.is_match("some"));
    assert!(!filter.is_match("some/other"));
}

#[test]
fn hash_matches_everything() {
    let filter = TopicFilter::new("#").unwrap();
    assert!(filter.is_match("some"));
    assert!(filter.is_match("some/topic"));
    assert!(filter.is_match(""));
}

#[test]
fn hash_needs_its_own_level() {
    let filter = TopicFilter::new("some/#").unwrap();
    assert!(filter.is_match("some/topic"));
    assert!(!filter.is_match("other/topic"));
    assert!(!filter.is_match("some"));
}

#[test]
fn bad_topic_filters() {
    assert!(matches!(
        TopicFilter::new(""),
        Err(Error::BadTopicFilter)
    ));
    assert!(matches!(
        TopicFilter::new("some/#/topic"),
        Err(Error::BadTopicFilter)
    ));
    let long = "a".repeat(129);
    assert!(matches!(TopicFilter::new(&long), Err(Error::Overflow)));
    assert!(TopicFilter::new(&long[..128]).is_ok());
}
