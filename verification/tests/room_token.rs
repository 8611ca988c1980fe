use chat_backend::webrtc_room::token::{RoomTokenClaims, RoomTokenService, TokenError};

fn claims_json(c: &RoomTokenClaims) -> String {
    let mut m = serde_json::Map::new();
    m.insert("participant_id".to_string(), serde_json::Value::String(c.participant_id.clone()));
    m.insert("room_id".to_string(), serde_json::Value::String(c.room_id.clone()));
    m.insert("display_name".to_string(), serde_json::Value::String(c.display_name.clone()));
    m.insert("is_creator".to_string(), serde_json::Value::Bool(c.is_creator));
    m.insert(
        "user_id".to_string(),
        match &c.user_id {
            Some(u) => serde_json::Value::String(u.clone()),
            None => serde_json::Value::Null,
        },
    );
    m.insert("exp".to_string(), serde_json::Value::from(c.exp));
    serde_json::Value::Object(m).to_string()
}

#[test]
fn test_token_generate_and_verify() {
    let service = RoomTokenService::new("test-secret".to_string(), 600);

    let claims = service.create_claims(
        "p123".to_string(),
        "ABC123".to_string(),
        "测试用户".to_string(),
        false,
        None,
    );

    let token = service.generate_token(&claims_json(&claims));
    let payload = service.verify_token(&token).unwrap();
    let verified: serde_json::Value = serde_json::from_str(&payload).unwrap();
    let now = chrono::Utc::now().timestamp();
    let claims = RoomTokenService::check_expiry(claims, now).unwrap();

    assert_eq!(verified["participant_id"], "p123");
    assert_eq!(verified["room_id"], "ABC123");
    assert_eq!(verified["display_name"], "测试用户");
    assert_eq!(verified["is_creator"], false);
    assert_eq!(claims.participant_id, "p123");
}

#[test]
fn token_round_trip_gives_payload_back() {
    let service = RoomTokenService::new("s3cr3t".to_string(), 60);
    for payload in ["", "{}", "{\"a\":\"测试\"}", "a.b.c"] {
        let token = service.generate_token(payload);
        assert_eq!(service.verify_token(&token).unwrap(), payload);
        assert_eq!(token.matches('.').count(), 1);
    }
}

#[test]
fn token_layout_is_payload_dot_signature() {
    let service = RoomTokenService::new("key".to_string(), 60);
    let token = service.generate_token("hello");
    assert_eq!(token, format!("aGVsbG8.{}", service.sign("aGVsbG8")));
    let sig = service.sign("aGVsbG8");
    assert_eq!(sig.len(), 43);
    assert!(!sig.contains('='));
}

#[test]
fn tampered_or_malformed_tokens_are_refused() {
    let service = RoomTokenService::new("key".to_string(), 60);
    let other = RoomTokenService::new("other".to_string(), 60);
    let token = service.generate_token("{\"room_id\":\"R\"}");
    assert_eq!(other.verify_token(&token).unwrap_err(), TokenError::InvalidSignature);
    assert_eq!(service.verify_token("no-dot").unwrap_err(), TokenError::InvalidFormat);
    assert_eq!(service.verify_token(&format!("{}.x", token)).unwrap_err(), TokenError::InvalidFormat);
    let (payload, _) = token.split_once('.').unwrap();
    let forged = format!("{}.{}", payload, service.sign("AAAA"));
    assert_eq!(service.verify_token(&forged).unwrap_err(), TokenError::InvalidSignature);
    let bad_b64 = format!("!!!.{}", service.sign("!!!"));
    assert_eq!(service.verify_token(&bad_b64).unwrap_err(), TokenError::InvalidFormat);
    let not_utf8 = format!("_w.{}", service.sign("_w"));
    assert_eq!(service.verify_token(&not_utf8).unwrap_err(), TokenError::InvalidFormat);
}

#[test]
fn expiry_of_claims() {
    let service = RoomTokenService::new("key".to_string(), 600);
    let c = service.create_claims_at("p".to_string(), "R".to_string(), "n".to_string(), true, Some("u".to_string()), 1000);
    assert_eq!(c.exp, 1600);
    assert_eq!(service.expires_at_from(1000), 1600);
    assert_eq!(RoomTokenService::check_expiry(c.clone(), 1601).unwrap_err(), TokenError::Expired);
    assert_eq!(RoomTokenService::check_expiry(c, 1600).unwrap().exp, 1600);
    assert_eq!(service.expires_at_from(8210266876799), 8210266876799);
    assert_eq!(TokenError::Expired.message(), "Token 已过期");
    assert_eq!(TokenError::InvalidFormat.message(), "Token 格式无效");
    assert_eq!(TokenError::InvalidSignature.message(), "Token 签名无效");
}
