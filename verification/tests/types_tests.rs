use proxy_cache::types::{
    CacheResponse, ErrorEnum, KeyExpiry, Reply, ReplyBody, CACHE_HIT_HEADER, STATUS_BAD_GATEWAY,
    STATUS_INTERNAL_SERVER_ERROR, STATUS_OK,
};

#[test]
fn status_codes() {
    assert_eq!(STATUS_OK, 200);
    assert_eq!(STATUS_INTERNAL_SERVER_ERROR, 500);
    assert_eq!(STATUS_BAD_GATEWAY, 502);
    assert_eq!(CACHE_HIT_HEADER, "X-Cache-Hit");
}

#[test]
fn hit_is_answered_with_payload_and_header_one() {
    let reply = CacheResponse::new(b"WORLD".to_vec(), true).into_response();
    assert_eq!(
        reply,
        Reply {
            status: 200,
            hit_header: Some("1".to_string()),
            body: ReplyBody::Bytes(b"WORLD".to_vec()),
        }
    );
}

#[test]
fn miss_is_answered_with_payload_and_header_zero() {
    let reply = CacheResponse::new(b"WORLD".to_vec(), false).into_response();
    assert_eq!(
        reply,
        Reply {
            status: 200,
            hit_header: Some("0".to_string()),
            body: ReplyBody::Bytes(b"WORLD".to_vec()),
        }
    );
}

#[test]
fn empty_payload_is_still_a_payload() {
    let reply = CacheResponse::new(Vec::new(), true).into_response();
    assert_eq!(reply.status, 200);
    assert_eq!(reply.hit_header, Some("1".to_string()));
    assert_eq!(reply.body, ReplyBody::Bytes(Vec::new()));
}

#[test]
fn system_failure_gives_nothing_away() {
    let reply = CacheResponse::from_err(ErrorEnum::System).into_response();
    assert_eq!(
        reply,
        Reply { status: 500, hit_header: None, body: ReplyBody::Text("System error".to_string()) }
    );
}

#[test]
fn remote_failure_carries_its_text() {
    let reply =
        CacheResponse::from_err(ErrorEnum::Remote("connection refused".to_string())).into_response();
    assert_eq!(
        reply,
        Reply {
            status: 502,
            hit_header: None,
            body: ReplyBody::Text("connection refused".to_string()),
        }
    );
}

#[test]
fn from_err_carries_no_payload() {
    let response = CacheResponse::from_err(ErrorEnum::Remote("timeout".to_string()));
    assert!(!response.is_hit());
    assert_eq!(response.payload(), b"");
}

#[test]
fn from_err_without_error_is_an_empty_miss() {
    let reply = CacheResponse::from_err(ErrorEnum::NoError).into_response();
    assert_eq!(
        reply,
        Reply { status: 200, hit_header: Some("0".to_string()), body: ReplyBody::Bytes(Vec::new()) }
    );
}

#[test]
fn new_keeps_payload_and_flag() {
    let response = CacheResponse::new(vec![1, 2, 3], true);
    assert!(response.is_hit());
    assert_eq!(response.payload(), &[1, 2, 3]);
    let response = CacheResponse::new(vec![4], false);
    assert!(!response.is_hit());
    assert_eq!(response.payload(), &[4]);
}

#[test]
fn expiry_is_the_same_for_every_entry() {
    let expiry = KeyExpiry::new(2);
    assert_eq!(expiry.expire_after_create(&1, &b"a".to_vec()), Some(2));
    assert_eq!(expiry.expire_after_create(&u64::MAX, &Vec::new()), Some(2));
    assert_eq!(expiry.expire_after_create(&0, &vec![0u8; 1000]), Some(2));
}

#[test]
fn expiry_takes_any_lifetime() {
    assert_eq!(KeyExpiry::new(0).expire_after_create(&1, &Vec::new()), Some(0));
    assert_eq!(KeyExpiry::new(u64::MAX).expire_after_create(&1, &Vec::new()), Some(u64::MAX));
    assert_eq!(KeyExpiry::new(7), KeyExpiry::new(7));
}
