use tokio_events::demo::{GetProfileRequest, GetProfileResponse, SendSurveyEmail};
use tokio_events::error::Error;
use tokio_events::event::{Event, Remote};
use tokio_events::remote::is_valid_remote_topic;

#[test]
fn test_profile_request_json() {
    let req = GetProfileRequest { user_id: 42 };
    let bytes = req.serialize_event().unwrap();
    assert_eq!(bytes, b"{\"user_id\":42}".to_vec());
    assert_eq!(GetProfileRequest::deserialize_event(&bytes).unwrap().user_id, 42);
    assert!(matches!(GetProfileRequest::deserialize_event(b"{\"user_id\":-1}"), Err(Error::SerializationError(_))));
    assert!(matches!(GetProfileRequest::deserialize_event(b"{}"), Err(Error::SerializationError(_))));
    assert_eq!(GetProfileRequest::event_type(), "demo_shared::GetProfileRequest");
    assert_eq!(GetProfileRequest::remote_topic(), "v2.users.profile.request");
    assert!(is_valid_remote_topic(GetProfileRequest::remote_topic()));
}

#[test]
fn test_profile_response_json() {
    let resp = GetProfileResponse { name: "User 42".to_string(), is_vip: true, error_msg: None };
    let bytes = resp.serialize_event().unwrap();
    assert_eq!(bytes, b"{\"name\":\"User 42\",\"is_vip\":true,\"error_msg\":null}".to_vec());
    let back = GetProfileResponse::deserialize_event(&bytes).unwrap();
    assert_eq!(back.name, "User 42");
    assert!(back.is_vip);
    assert_eq!(back.error_msg, None);
    let failed = GetProfileResponse { name: String::new(), is_vip: false, error_msg: Some("not found".to_string()) };
    let bytes2 = failed.serialize_event().unwrap();
    assert_eq!(bytes2, b"{\"name\":\"\",\"is_vip\":false,\"error_msg\":\"not found\"}".to_vec());
    assert_eq!(GetProfileResponse::deserialize_event(&bytes2).unwrap().error_msg, Some("not found".to_string()));
    let missing_optional = GetProfileResponse::deserialize_event(b"{\"name\":\"a\",\"is_vip\":false}").unwrap();
    assert_eq!(missing_optional.error_msg, None);
    assert!(GetProfileResponse::deserialize_event(b"{\"name\":\"a\",\"is_vip\":1}").is_err());
    assert_eq!(GetProfileResponse::remote_topic(), "v2.users.profile.response");
}

#[test]
fn test_survey_email_json() {
    let e = SendSurveyEmail { order_id: "ord-7".to_string(), user_id: 7 };
    let bytes = e.serialize_event().unwrap();
    assert_eq!(bytes, b"{\"order_id\":\"ord-7\",\"user_id\":7}".to_vec());
    let back = SendSurveyEmail::deserialize_event(&bytes).unwrap();
    assert_eq!(back.order_id, "ord-7");
    assert_eq!(back.user_id, 7);
    assert!(SendSurveyEmail::deserialize_event(b"not json").is_err());
    assert_eq!(SendSurveyEmail::event_type(), "demo_shared::SendSurveyEmail");
}

#[test]
fn test_demo_events_from_field_arrays() {
    assert_eq!(GetProfileRequest::deserialize_event(b"[42]").unwrap().user_id, 42);
    assert!(matches!(GetProfileRequest::deserialize_event(b"[]"), Err(Error::SerializationError(_))));
    assert!(matches!(GetProfileRequest::deserialize_event(b"[1, 2]"), Err(Error::SerializationError(_))));
    let resp = GetProfileResponse::deserialize_event(b"[\"n\", true, null]").unwrap();
    assert_eq!(resp.name, "n");
    assert!(resp.is_vip);
    assert_eq!(resp.error_msg, None);
    let err = GetProfileResponse::deserialize_event(b"[\"n\", false, \"gone\"]").unwrap();
    assert_eq!(err.error_msg, Some("gone".to_string()));
    assert!(GetProfileResponse::deserialize_event(b"[\"n\", true]").is_err());
    assert!(GetProfileResponse::deserialize_event(b"[\"n\", 1, null]").is_err());
    let survey = SendSurveyEmail::deserialize_event(b"[\"ord-1\", 3]").unwrap();
    assert_eq!(survey.order_id, "ord-1");
    assert_eq!(survey.user_id, 3);
    assert!(SendSurveyEmail::deserialize_event(b"[3, \"ord-1\"]").is_err());
}
