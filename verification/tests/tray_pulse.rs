use mibar::pulse::{on_subscription_event, DefaultSinkTracker, Facility, Operation, SinkQuery};
use mibar::static_ptr::StaticPtr;
use mibar::tray::{reverse_pixel_bytes, SniId, Tray, TrayIcons};
use mibar::image::{Filter, Resize};

#[test]
fn icon_pixels_are_reversed_four_by_four() {
    let mut px = vec![1, 2, 3, 4, 5, 6, 7, 8, 9, 10];
    reverse_pixel_bytes(&mut px);
    assert_eq!(px, vec![4, 3, 2, 1, 8, 7, 6, 5, 9, 10]);
}

#[test]
fn tray_icons_are_removed_by_item() {
    let mut icons = TrayIcons::new();
    icons.push("a", SniId(1));
    icons.push("b", SniId(2));
    icons.push("c", SniId(1));
    assert_eq!(icons.remove(SniId(1)), Some("a"));
    assert_eq!(icons.len(), 2);
    assert_eq!(*icons.widget(0), "b");
    assert_eq!(icons.remove(SniId(5)), None);
    assert_eq!(icons.len(), 2);
}

#[test]
fn tray_icon_size() {
    let t = Tray::new(24);
    assert_eq!(t.icon_resize(), Resize { width: 24, height: 24, filter: Filter::Auto });
}

#[test]
fn subscription_events() {
    let q = on_subscription_event(Some(Facility::Server), Some(Operation::Changed), 3, None);
    assert_eq!(q, SinkQuery::DefaultSink);
    let q = on_subscription_event(Some(Facility::Sink), Some(Operation::Changed), 3, Some(3));
    assert_eq!(q, SinkQuery::SinkByIndex(3));
    let q = on_subscription_event(Some(Facility::Sink), Some(Operation::Changed), 4, Some(3));
    assert_eq!(q, SinkQuery::Nothing);
    let q = on_subscription_event(Some(Facility::Sink), Some(Operation::Removed), 3, Some(3));
    assert_eq!(q, SinkQuery::DefaultSink);
    let q = on_subscription_event(None, Some(Operation::Removed), 3, Some(3));
    assert_eq!(q, SinkQuery::Nothing);
}

#[test]
fn default_sink_listings() {
    let mut t = DefaultSinkTracker::new();
    t.on_item(7);
    t.on_end();
    assert_eq!(t.default_sink, Some(7));
    t.on_end();
    assert_eq!(t.default_sink, None);
}

static ANSWER: u32 = 42;

#[test]
fn static_pointers() {
    let p = StaticPtr::new(&ANSWER);
    let q = p;
    assert_eq!(*q.get(), 42);
}

#[test]
fn pulse_subscriber_count_leaves_out_own_receiver() {
    assert_eq!(mibar::pulse::subscriber_count(None), 0);
    assert_eq!(mibar::pulse::subscriber_count(Some(1)), 0);
    assert_eq!(mibar::pulse::subscriber_count(Some(4)), 3);
}
