use espflashtool::event::{
    format_data, hex_byte, hex_u32, u64_dec, Event, EventCollector, EventFilter, EventObserver,
    EventProvider, EventTracer,
};

#[test]
fn test_collector_records_events() {
    let mut provider: EventProvider<_> = EventProvider::new();
    let handle = provider.add_observer(EventCollector::new().observer());
    provider.send_event(5, &Event::Reset);
    provider.send_event(9, &Event::SerialRead(vec![1, 2, 3]));
    let observer = provider.remove_observer(handle).unwrap();
    let events = EventCollector::collect(observer);
    assert_eq!(events.len(), 2);
    assert_eq!(events[0], (5, Event::Reset));
    assert_eq!(events[1], (9, Event::SerialRead(vec![1, 2, 3])));
}

#[test]
fn test_removed_observer_hears_nothing() {
    let mut provider: EventProvider<_> = EventProvider::new();
    let handle = provider.add_observer(EventCollector::new().observer());
    provider.send_event(1, &Event::Reset);
    let observer = provider.remove_observer(handle).unwrap();
    provider.send_event(2, &Event::Reset);
    assert_eq!(EventCollector::collect(observer).len(), 1);
    assert!(provider.remove_observer(handle).is_none());
}

#[test]
fn test_observers_notified_in_order() {
    struct Tag {
        order: Vec<u64>,
    }
    impl EventObserver for Tag {
        fn notify(&mut self, timestamp_ms: u64, _event: &Event) {
            self.order.push(timestamp_ms);
        }
    }
    let mut provider: EventProvider<Tag> = EventProvider::new();
    let a = provider.add_observer(Tag { order: Vec::new() });
    let b = provider.add_observer(Tag { order: Vec::new() });
    provider.send_event(1, &Event::Reset);
    provider.send_event(2, &Event::Reset);
    assert_eq!(provider.remove_observer(a).unwrap().order, vec![1, 2]);
    assert_eq!(provider.remove_observer(b).unwrap().order, vec![1, 2]);
}

#[test]
fn test_event_filter_classes() {
    let filter = EventFilter { serial: true, line: false, slip: false, command: true };
    assert!(filter.passes(&Event::SerialRead(vec![])));
    assert!(filter.passes(&Event::Reset));
    assert!(filter.passes(&Event::CommandTimeout(8)));
    assert!(!filter.passes(&Event::SerialLine(vec![])));
    assert!(!filter.passes(&Event::SlipRead(vec![])));
    let tracer = EventTracer::new(filter);
    assert_eq!(tracer.observer().filter, filter);
}

#[test]
fn test_tracer_tracks_last_emission() {
    let filter = EventFilter { serial: false, line: false, slip: false, command: true };
    let mut observer = EventTracer::new(filter).observer();
    assert_eq!(observer.last_ms, None);
    observer.notify(5, &Event::Reset);
    assert_eq!(observer.last_ms, Some(5));
    // A filtered-out event leaves the last emission untouched.
    observer.notify(9, &Event::SerialRead(vec![1]));
    assert_eq!(observer.last_ms, Some(5));
}

#[test]
fn test_into_owned_is_identity() {
    let event = Event::SlipWrite(vec![0xC0]);
    assert_eq!(event.clone().into_owned(), event);
}

#[test]
fn test_number_formatting() {
    assert_eq!(u64_dec(0), "0");
    assert_eq!(u64_dec(7), "7");
    assert_eq!(u64_dec(1234), "1234");
    assert_eq!(u64_dec(u64::MAX), "18446744073709551615");
    assert_eq!(hex_byte(0x00), "00");
    assert_eq!(hex_byte(0xAB), "AB");
    assert_eq!(hex_byte(0x0F), "0F");
    assert_eq!(hex_u32(0x40001000), "40001000");
    assert_eq!(hex_u32(0xDEADBEEF), "DEADBEEF");
}

#[test]
fn test_format_data_hex_dump() {
    assert_eq!(format_data(&[0x01, 0xA2, 0xFF]), "01 A2 FF ");
    let sixteen = format_data(&[0u8; 16]);
    assert!(sixteen.ends_with('\n'));
}

#[test]
fn test_describe_events() {
    assert_eq!(Event::Reset.describe(), "Reset");
    assert_eq!(Event::SerialRead(vec![1, 2, 3]).describe(), "Read 3 bytes");
    let timeout = Event::CommandTimeout(0x08).describe();
    assert!(timeout.contains("Sync"));
    assert!(timeout.contains("08"));
}
