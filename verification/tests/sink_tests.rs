use usgs_data2csv::sink::{KeyedSink, SinkAction};

fn open(file_name: &str, close_previous: bool) -> SinkAction {
    SinkAction::Open { file_name: file_name.to_string(), close_previous }
}

#[test]
fn returning_key_opens_a_new_file() {
    let mut sink = KeyedSink::new();
    let mut opened = 0;
    let mut actions = Vec::new();
    for key in ["x", "x", "y", "x"] {
        let action = sink.route(key, "csv");
        if let SinkAction::Open { .. } = action {
            opened += 1;
        }
        actions.push(action);
    }
    assert_eq!(opened, 3);
    assert_eq!(
        actions,
        vec![
            open("x.csv", false),
            SinkAction::Append,
            open("y.csv", true),
            open("x.csv", true),
        ]
    );
}

#[test]
fn first_key_opens_without_closing() {
    let mut sink = KeyedSink::new();
    assert_eq!(sink.open_key, None);
    assert_eq!(sink.route("a", "txt"), open("a.txt", false));
    assert_eq!(sink.open_key, Some("a".to_string()));
}

#[test]
fn equal_key_appends() {
    let mut sink = KeyedSink::new();
    sink.route("a", "txt");
    assert_eq!(sink.route("a", "txt"), SinkAction::Append);
    assert_eq!(sink.route("a", "csv"), SinkAction::Append);
    assert_eq!(sink.open_key, Some("a".to_string()));
}

#[test]
fn file_is_named_from_key_and_extension() {
    let mut sink = KeyedSink::new();
    assert_eq!(sink.route("01010000", "csv"), open("01010000.csv", false));
    assert_eq!(sink.route("", "csv"), open(".csv", true));
    assert_eq!(sink.route("k", ""), open("k.", true));
}

#[test]
fn close_forgets_the_open_key() {
    let mut sink = KeyedSink::new();
    assert!(!sink.close());
    sink.route("a", "csv");
    assert!(sink.close());
    assert_eq!(sink.open_key, None);
    assert_eq!(sink.route("a", "csv"), open("a.csv", false));
}
