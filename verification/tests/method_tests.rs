use api_monitor::method::Method;

#[test]
fn method_from_str_accepts_any_case() {
    assert_eq!(Method::from_str("get"), Ok(Method::GET));
    assert_eq!(Method::from_str("Post"), Ok(Method::POST));
    assert_eq!(Method::from_str("PUT"), Ok(Method::PUT));
    assert_eq!(Method::from_str("dElEtE"), Ok(Method::DELETE));
}

#[test]
fn method_from_str_rejects_other_names() {
    assert_eq!(
        Method::from_str("PATCH"),
        Err("'PATCH' is not a valid HTTP method".to_string())
    );
    assert_eq!(Method::from_str(""), Err("'' is not a valid HTTP method".to_string()));
}
