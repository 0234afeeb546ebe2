use redis_enrichment::sink::{EventStatus, MongoErrorKind};
use redis_enrichment::{MongoDbResponse, MongoDbRetryLogic, MongoDbSinkError};

#[test]
fn retriable_errors() {
    let logic = MongoDbRetryLogic;
    assert!(logic.is_retriable_error(&MongoDbSinkError::MongoDb { kind: MongoErrorKind::Io }));
    assert!(logic.is_retriable_error(&MongoDbSinkError::MongoDb { kind: MongoErrorKind::ConnectionPoolCleared }));
    assert!(!logic.is_retriable_error(&MongoDbSinkError::MongoDb { kind: MongoErrorKind::Other }));
}

#[test]
fn response_reports_delivery() {
    let r = MongoDbResponse { events_count: 3, events_byte_size: 120, request_encoded_size: 150 };
    assert_eq!(r.event_status(), EventStatus::Delivered);
    assert_eq!(r.events_sent(), (3, 120));
    assert_eq!(r.bytes_sent(), Some(150));
}
