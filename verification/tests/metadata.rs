use stream_registry::bootstrap::FetchedStream;
use stream_registry::error::Error;
use stream_registry::record::{LogStreamMetadata, Stats};
use stream_registry::registry::STREAM_INFO;
use stream_registry::text::parse_string;

#[test]
fn update_stats_zero() {
    let mut stats = Stats { size: 0, compressed_size: 0, prev_compressed: 0 };

    stats.update(2056, 2000);

    assert_eq!(stats, Stats { size: 2056, compressed_size: 2000, prev_compressed: 0 });
}

#[test]
fn update_stats_some() {
    let mut stats = Stats { size: 1024, compressed_size: 512, prev_compressed: 2048 };

    stats.update(2056, 2000);

    assert_eq!(stats, Stats { size: 3080, compressed_size: 4048, prev_compressed: 2048 });
}

#[test]
fn update_overwrites_in_flight_segment() {
    // Before the carry is advanced, a second update replaces (not adds to)
    // the in-flight segment's compressed contribution.
    let mut stats = Stats { size: 0, compressed_size: 0, prev_compressed: 100 };
    stats.update(10, 7);
    stats.update(10, 9);
    assert_eq!(stats, Stats { size: 20, compressed_size: 109, prev_compressed: 100 });
}

#[test]
fn test_parse_string_nonempty() {
    let bytes: Vec<u8> = "Hello world".as_bytes().to_vec();
    let parsed = parse_string(bytes);
    assert_eq!(parsed.unwrap(), "Hello world");
}

#[test]
fn test_parse_string_empty() {
    let bytes: Vec<u8> = Vec::new();
    let parsed = parse_string(bytes);
    assert_eq!(parsed.unwrap(), "");
}

#[test]
fn test_bad_parse_string() {
    let bad: Vec<u8> = vec![195, 40];
    assert!(parse_string(bad).is_err());
}

#[test]
fn parse_string_error_kind() {
    let bad: Vec<u8> = vec![195, 40];
    assert_eq!(parse_string(bad), Err(Error::InvalidUtf8));
}

#[test]
fn test_add_stream() {
    let mut registry = STREAM_INFO::new();
    registry
        .add_stream("teststream".to_string(), "schema".to_string(), "alert_config".to_string())
        .unwrap();

    assert_eq!(registry.len(), 1);
    let record = registry.get("teststream").unwrap();
    assert_eq!(
        *record,
        LogStreamMetadata {
            schema: "schema".to_string(),
            alert_config: "alert_config".to_string(),
            stats: Stats { size: 0, compressed_size: 0, prev_compressed: 0 },
        }
    );
}

#[test]
fn test_add_stream_empty_texts() {
    let mut registry = STREAM_INFO::new();
    registry.add_stream("teststream".to_string(), "".to_string(), "".to_string()).unwrap();

    assert_eq!(registry.len(), 1);
    let record = registry.get("teststream").unwrap();
    assert_eq!(
        *record,
        LogStreamMetadata {
            schema: "".to_string(),
            alert_config: "".to_string(),
            stats: Stats { size: 0, compressed_size: 0, prev_compressed: 0 },
        }
    );
}

#[test]
fn add_stream_overwrites_and_resets_stats() {
    let mut registry = STREAM_INFO::new();
    registry.add_stream("s".to_string(), "old".to_string(), "a".to_string()).unwrap();
    registry.update_stats("s", 100, 50).unwrap();

    registry.add_stream("s".to_string(), "new".to_string(), "b".to_string()).unwrap();

    assert_eq!(registry.len(), 1);
    let record = registry.get("s").unwrap();
    assert_eq!(record.schema, "new");
    assert_eq!(record.alert_config, "b");
    assert_eq!(record.stats, Stats { size: 0, compressed_size: 0, prev_compressed: 0 });
}

#[test]
fn test_delete_stream() {
    let mut registry = STREAM_INFO::new();
    registry.add_stream("teststream".to_string(), "".to_string(), "".to_string()).unwrap();

    registry.delete_stream("teststream").unwrap();
    assert!(registry.get("teststream").is_none());
    assert_eq!(registry.len(), 0);

    // Deleting an absent stream is not an error.
    registry.delete_stream("teststream").unwrap();
    assert!(registry.get("teststream").is_none());
}

#[test]
fn missing_stream_lookups_fail() {
    let registry = STREAM_INFO::new();
    assert_eq!(registry.schema("missing"), Err(Error::StreamMetaNotFound("missing".to_string())));
    assert_eq!(registry.alert("missing"), Err(Error::StreamMetaNotFound("missing".to_string())));

    let mut registry = registry;
    assert_eq!(
        registry.update_stats("missing", 1, 1),
        Err(Error::StreamMetaNotFound("missing".to_string()))
    );
}

#[test]
fn schema_and_alert_read_back() {
    let mut registry = STREAM_INFO::new();
    registry.add_stream("s".to_string(), "schema".to_string(), "alert".to_string()).unwrap();
    assert_eq!(registry.schema("s").unwrap(), "schema");
    assert_eq!(registry.alert("s").unwrap(), "alert");
}

#[test]
fn update_stats_through_registry() {
    let mut registry = STREAM_INFO::new();
    registry.add_stream("s".to_string(), "".to_string(), "".to_string()).unwrap();

    registry.update_stats("s", 1024, 512).unwrap();
    let record = registry.get("s").unwrap();
    assert_eq!(record.stats, Stats { size: 1024, compressed_size: 512, prev_compressed: 0 });

    registry.update_stats("s", 1000, 700).unwrap();
    let record = registry.get("s").unwrap();
    assert_eq!(record.stats, Stats { size: 2024, compressed_size: 700, prev_compressed: 0 });
}

#[test]
fn set_schema_preserves_alert_and_resets_stats() {
    let mut registry = STREAM_INFO::new();
    registry.add_stream("s".to_string(), "first".to_string(), "alert".to_string()).unwrap();
    registry.update_stats("s", 5, 5).unwrap();

    registry.set_schema("s".to_string(), "second".to_string()).unwrap();

    let record = registry.get("s").unwrap();
    assert_eq!(record.schema, "second");
    assert_eq!(record.alert_config, "alert");
    assert_eq!(record.stats, Stats { size: 0, compressed_size: 0, prev_compressed: 0 });
}

#[test]
fn set_alert_preserves_schema_and_resets_stats() {
    let mut registry = STREAM_INFO::new();
    registry.add_stream("s".to_string(), "schema".to_string(), "first".to_string()).unwrap();
    registry.update_stats("s", 5, 5).unwrap();

    registry.set_alert("s".to_string(), "second".to_string()).unwrap();

    let record = registry.get("s").unwrap();
    assert_eq!(record.schema, "schema");
    assert_eq!(record.alert_config, "second");
    assert_eq!(record.stats, Stats { size: 0, compressed_size: 0, prev_compressed: 0 });
}

#[test]
fn set_schema_on_missing_stream_fails() {
    let mut registry = STREAM_INFO::new();
    assert_eq!(
        registry.set_schema("missing".to_string(), "schema".to_string()),
        Err(Error::StreamMetaNotFound("missing".to_string()))
    );
    assert_eq!(
        registry.set_alert("missing".to_string(), "alert".to_string()),
        Err(Error::StreamMetaNotFound("missing".to_string()))
    );
    assert_eq!(registry.len(), 0);
}

#[test]
fn load_decodes_and_falls_back() {
    let mut registry = STREAM_INFO::new();
    let streams = vec![
        FetchedStream {
            name: "good".to_string(),
            schema_bytes: Some("schema".as_bytes().to_vec()),
            alert_bytes: Some("alert".as_bytes().to_vec()),
        },
        FetchedStream {
            name: "bad_alert".to_string(),
            schema_bytes: Some("schema".as_bytes().to_vec()),
            alert_bytes: Some(vec![195, 40]),
        },
        FetchedStream {
            name: "missing_schema".to_string(),
            schema_bytes: None,
            alert_bytes: Some("alert".as_bytes().to_vec()),
        },
    ];

    registry.load(streams).unwrap();

    assert_eq!(registry.len(), 3);
    assert_eq!(registry.schema("good").unwrap(), "schema");
    assert_eq!(registry.alert("good").unwrap(), "alert");
    // An undecodable alert never blocks the stream's load; it becomes empty.
    assert_eq!(registry.schema("bad_alert").unwrap(), "schema");
    assert_eq!(registry.alert("bad_alert").unwrap(), "");
    // A missing schema likewise becomes empty.
    assert_eq!(registry.schema("missing_schema").unwrap(), "");
    assert_eq!(registry.alert("missing_schema").unwrap(), "alert");
}

#[test]
fn load_later_entry_overwrites_earlier() {
    let mut registry = STREAM_INFO::new();
    let streams = vec![
        FetchedStream {
            name: "s".to_string(),
            schema_bytes: Some("one".as_bytes().to_vec()),
            alert_bytes: None,
        },
        FetchedStream {
            name: "s".to_string(),
            schema_bytes: Some("two".as_bytes().to_vec()),
            alert_bytes: None,
        },
    ];

    registry.load(streams).unwrap();

    assert_eq!(registry.len(), 1);
    assert_eq!(registry.schema("s").unwrap(), "two");
}

#[test]
fn load_overwrites_existing_entry() {
    let mut registry = STREAM_INFO::new();
    registry.add_stream("s".to_string(), "mem".to_string(), "mem".to_string()).unwrap();
    registry.update_stats("s", 9, 9).unwrap();

    let streams = vec![FetchedStream {
        name: "s".to_string(),
        schema_bytes: Some("disk".as_bytes().to_vec()),
        alert_bytes: None,
    }];
    registry.load(streams).unwrap();

    let record = registry.get("s").unwrap();
    assert_eq!(record.schema, "disk");
    assert_eq!(record.alert_config, "");
    assert_eq!(record.stats, Stats { size: 0, compressed_size: 0, prev_compressed: 0 });
}
