use papillon::{parse_key_val, KeyValError};

#[test]
fn splits_at_first_colon() {
    assert_eq!(
        parse_key_val("Content-Type:application/json"),
        Ok(("Content-Type".to_string(), "application/json".to_string()))
    );
    assert_eq!(
        parse_key_val("user:pa:ss"),
        Ok(("user".to_string(), "pa:ss".to_string()))
    );
    assert_eq!(parse_key_val(":"), Ok((String::new(), String::new())));
    assert_eq!(parse_key_val("k:"), Ok(("k".to_string(), String::new())));
}

#[test]
fn missing_colon_is_rejected() {
    assert_eq!(parse_key_val("no-separator"), Err(KeyValError::NoSeparator));
    assert_eq!(parse_key_val(""), Err(KeyValError::NoSeparator));
}
