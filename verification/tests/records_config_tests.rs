use valutx::config::Config;
use valutx::errors::{ConfigError, StoreError};
use valutx::records::{LogEntry, Record, RecordStore};

fn record(id: &str, title: &str, data: &str) -> Record {
    Record { id: id.to_string(), title: title.to_string(), encrypted_data: data.to_string() }
}

#[test]
fn test_record_validate() {
    assert_eq!(record("1", "a title", "payload").validate(), Ok(()));
    assert_eq!(record("1", "", "payload").validate(), Err(StoreError::EmptyTitle));
    assert_eq!(record("1", "   \t ", "payload").validate(), Err(StoreError::EmptyTitle));
    assert_eq!(record("1", "a title", "").validate(), Err(StoreError::EmptyData));
    assert_eq!(record("1", "a title", " \n").validate(), Err(StoreError::EmptyData));
    // The empty title is reported before the empty payload.
    assert_eq!(record("1", "", "").validate(), Err(StoreError::EmptyTitle));
}

#[test]
fn test_insert_record_validates_and_keeps_ids_unique() {
    let mut store = RecordStore::new();
    store.insert_record(record("1", "first", "data1")).expect("insert");
    store.insert_record(record("2", "second", "data2")).expect("insert");

    assert_eq!(
        store.insert_record(record("1", "again", "data3")),
        Err(StoreError::DuplicateId)
    );
    assert_eq!(
        store.insert_record(record("3", "", "data4")),
        Err(StoreError::EmptyTitle)
    );
    assert_eq!(store.records.len(), 2);
    assert_eq!(store.records[0].id, "1");
    assert_eq!(store.records[1].id, "2");
}

#[test]
fn test_config_init() {
    let config = Config::init("mongodb://localhost:27017".to_string(), "mysecret".to_string())
        .expect("Failed to initialize config");
    assert_eq!(config.mongo_uri, "mongodb://localhost:27017");
    assert_eq!(config.jwt_secret, "mysecret");
}

#[test]
fn test_config_init_fails_fast() {
    assert_eq!(
        Config::init("".to_string(), "mysecret".to_string()),
        Err(ConfigError::MissingMongoUri)
    );
    assert_eq!(
        Config::init("mongodb://localhost:27017".to_string(), "".to_string()),
        Err(ConfigError::MissingJwtSecret)
    );
    assert_eq!(Config::init("".to_string(), "".to_string()), Err(ConfigError::MissingMongoUri));
}

#[test]
fn test_log_entry_holds_its_fields() {
    let entry = LogEntry {
        timestamp: "2024-01-01T00:00:00Z".to_string(),
        event_type: "login".to_string(),
        details: "user alice".to_string(),
    };
    assert_eq!(entry.event_type, "login");
}
