use bevy_editor::output::{
    event_messages, filter_events, starts_with_log, CollectedEvent, EventCollector, Level, LevelFilter, LogsState,
};

fn event(level: Level) -> CollectedEvent<u32> {
    CollectedEvent::new(level, vec![], 0)
}

fn fields(pairs: &[(&str, &str)]) -> Vec<(String, String)> {
    pairs.iter().map(|(k, v)| (k.to_string(), v.to_string())).collect()
}

#[test]
fn level_names_and_colors() {
    assert_eq!(Level::Trace.as_str(), "TRACE");
    assert_eq!(Level::Warn.as_str(), "WARN");
    assert_eq!(Level::Error.to_color32(), (204, 0, 0));
    assert_eq!(Level::Info.to_color32(), (78, 154, 6));
    assert!(Level::Error.at_most(Level::Info));
    assert!(!Level::Trace.at_most(Level::Debug));
}

#[test]
fn level_filter() {
    let mut f = LevelFilter::default_filter();
    assert!(f.get(Level::Trace) && f.get(Level::Error));
    f.debug = false;
    assert!(!f.get(Level::Debug));
    assert!(LogsState::default_state().level_filter.get(Level::Info));
}

#[test]
fn collector_keeps_levels_up_to_its_own() {
    let mut c: EventCollector<u32> = EventCollector::new().with_level(Level::Info);
    c.collect(event(Level::Debug));
    c.collect(event(Level::Warn));
    c.collect(event(Level::Info));
    let levels: Vec<Level> = c.events().iter().map(|e| e.level()).collect();
    assert!(levels == vec![Level::Warn, Level::Info]);
    c.clear();
    assert!(c.events().is_empty());
    let mut all: EventCollector<u32> = EventCollector::new();
    all.collect(event(Level::Trace));
    assert_eq!(all.events().len(), 1);
}

#[test]
fn filtered_events() {
    let events = vec![event(Level::Info), event(Level::Debug), event(Level::Info)];
    let mut f = LevelFilter::default_filter();
    f.debug = false;
    assert_eq!(filter_events(&events, &f), vec![0, 2]);
}

#[test]
fn log_prefix() {
    assert!(starts_with_log("log.target"));
    assert!(!starts_with_log("log"));
    assert!(!starts_with_log("logs.x"));
}

#[test]
fn event_texts() {
    let fs = fields(&[("count", "3"), ("log.file", "main.rs"), ("message", "  hello  "), ("user", "ann")]);
    let (short, complete) = event_messages(&fs);
    assert_eq!(short, "hello, count: 3, user: ann");
    assert_eq!(complete, "hello\n count: 3\n user: ann\n\n\n log.file: main.rs");
    let (short, complete) = event_messages(&vec![]);
    assert_eq!(short, "");
    assert_eq!(complete, "\n\n");
}

#[test]
fn collected_events_keep_their_fields() {
    let mut c: EventCollector<u32> = EventCollector::new();
    c.collect(CollectedEvent::new(Level::Warn, fields(&[("message", "low disk")]), 7));
    assert_eq!(*c.events()[0].fields(), fields(&[("message", "low disk")]));
    assert_eq!(*c.events()[0].time(), 7);
}

#[test]
fn event_fields_ordered_by_name_last_value_kept() {
    let e = CollectedEvent::new(
        Level::Info,
        fields(&[("user", "ann"), ("count", "3"), ("message", "hi"), ("count", "4"), ("a", "1")]),
        0u32,
    );
    assert_eq!(*e.fields(), fields(&[("a", "1"), ("count", "4"), ("message", "hi"), ("user", "ann")]));
    assert!(e.level() == Level::Info);
}

#[test]
fn message_trimmed_of_unicode_whitespace() {
    let fs = fields(&[("message", "\u{3000}\t hi there\u{A0}\n\u{2009}")]);
    let (short, _) = event_messages(&fs);
    assert_eq!(short, "hi there");
    let fs = fields(&[("message", "\u{200B}x\u{200B}")]);
    let (short, _) = event_messages(&fs);
    assert_eq!(short, "\u{200B}x\u{200B}");
}
