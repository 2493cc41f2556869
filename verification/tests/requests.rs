use led_control::request::{
    body_len, find_query_value, is_active, plan_command, status_alias, BodyError, PwmAction, RestCommand,
    MAX_BODY_LEN,
};

#[test]
fn body_len_accepts_up_to_limit() {
    assert_eq!(body_len(None), Ok(0));
    assert_eq!(body_len(Some(0)), Ok(0));
    assert_eq!(body_len(Some(42)), Ok(42));
    assert_eq!(body_len(Some(MAX_BODY_LEN)), Ok(512));
}

#[test]
fn body_len_rejects_above_limit() {
    assert_eq!(body_len(Some(513)), Err(BodyError::TooLarge));
    assert_eq!(body_len(Some(u64::MAX)), Err(BodyError::TooLarge));
}

#[test]
fn plan_command_maps_endpoints() {
    assert_eq!(plan_command(RestCommand::TurnOn, None), PwmAction::Enable);
    assert_eq!(plan_command(RestCommand::TurnOff, Some(3)), PwmAction::Disable);
    assert_eq!(plan_command(RestCommand::Dim, Some(100)), PwmAction::SetDutyPercent(100));
    assert_eq!(plan_command(RestCommand::Dim, Some(0)), PwmAction::SetDutyPercent(0));
}

#[test]
fn is_active_when_duty_nonzero() {
    assert!(!is_active(0));
    assert!(is_active(1));
    assert!(is_active(u32::MAX));
}

fn pairs(v: &[(&str, &str)]) -> Vec<(String, String)> {
    v.iter().map(|(k, w)| (k.to_string(), w.to_string())).collect()
}

#[test]
fn find_query_value_first_key() {
    let p = pairs(&[("a", "1"), ("alias", "x"), ("alias", "y")]);
    assert_eq!(find_query_value(&p, &"alias".to_string()), Some("x".to_string()));
    assert_eq!(find_query_value(&p, &"a".to_string()), Some("1".to_string()));
    assert_eq!(find_query_value(&p, &"b".to_string()), None);
    assert_eq!(find_query_value(&Vec::new(), &"alias".to_string()), None);
}

#[test]
fn status_alias_after_other_parameter() {
    assert_eq!(status_alias("/status?x=1&alias=light_1"), Some("light_1".to_string()));
}

#[test]
fn status_alias_documented_form() {
    assert_eq!(status_alias("/status?alias=light_1"), Some("light_1".to_string()));
    assert_eq!(status_alias("/status?alias="), Some(String::new()));
    assert_eq!(status_alias("/status?alias=a?b"), Some("a?b".to_string()));
}

#[test]
fn status_alias_missing() {
    assert_eq!(status_alias("/status"), None);
    assert_eq!(status_alias("/status?x=1&alias"), None);
    assert_eq!(status_alias("/status?"), None);
    assert_eq!(status_alias("/statusalias=x"), None);
    assert_eq!(status_alias("/status?x=1&other=2"), None);
}

#[test]
fn status_alias_takes_first_and_second_field() {
    assert_eq!(status_alias("/status?x&alias=a=b&alias=c"), Some("a".to_string()));
}

#[test]
fn status_alias_removes_every_status() {
    assert_eq!(status_alias("/status?y=2&alias=/statuslamp"), Some("lamp".to_string()));
    assert_eq!(status_alias("/status?y=2&alias=/stat"), Some("/stat".to_string()));
}
