use job_service::params::QueryParams;
use job_service::query_parser::{OrderPlan, QueryValidator, SortOrder, parse_date};

#[test]
fn test_query_validator() {
    let mut params = QueryParams::new();

    params.insert("searchWord".to_string(), "test".to_string());
    let res = QueryValidator::validate_and_parse(&params, &["name"], &["name"]);
    assert!(res.is_err());

    params.insert("searchFields".to_string(), "invalid_field".to_string());
    let res = QueryValidator::validate_and_parse(&params, &["name"], &["name"]);
    assert!(res.is_err());

    params.insert("searchFields".to_string(), "name".to_string());
    let res = QueryValidator::validate_and_parse(&params, &["name"], &["name"]);
    assert!(res.is_ok());

    params.insert("empty_param".to_string(), "".to_string());
    let res = QueryValidator::validate_and_parse(&params, &["name"], &["name"]);
    assert!(res.is_ok());
    params.remove("empty_param");

    params.insert("invalid_filter".to_string(), "value".to_string());
    let res = QueryValidator::validate_and_parse(&params, &["name"], &["name"]);
    assert!(res.is_err());
    params.remove("invalid_filter");

    params.insert("createdAt_start".to_string(), "invalid-date".to_string());
    let res = QueryValidator::validate_and_parse(&params, &["name"], &["name", "createdAt"]);
    assert!(res.is_err());
    params.remove("createdAt_start");

    params.insert("orderBy".to_string(), "invalid_order".to_string());
    let res = QueryValidator::validate_and_parse(&params, &["name"], &["name"]);
    assert!(res.is_err());
    params.remove("orderBy");

    params.insert("size".to_string(), "101".to_string());
    let res = QueryValidator::validate_and_parse(&params, &["name"], &["name"]);
    assert!(res.is_err());
}

#[test]
fn test_parse_date() {
    assert!(parse_date("2026-05-22", false).is_ok());
    assert!(parse_date("invalid-date", false).is_err());
    assert_eq!(parse_date("2026-05-22", false).unwrap(), 1779408000);
    assert_eq!(parse_date("2026-05-22", true).unwrap(), 1779408000 + 86399);
}

#[test]
fn test_parsed_filters_apply_order_fallback() {
    let mut params = QueryParams::new();
    params.insert("orderBy".to_string(), "unmapped_order_field".to_string());
    let parsed =
        QueryValidator::validate_and_parse(&params, &[], &["unmapped_order_field"]).unwrap();
    assert_eq!(parsed.order_plan(&[]), OrderPlan::DefaultColumn(SortOrder::Asc));
}

#[test]
fn params_read_back_last_write() {
    let mut p = QueryParams::new();
    assert_eq!(p.insert("a".to_string(), "1".to_string()), None);
    assert_eq!(p.insert("b".to_string(), "2".to_string()), None);
    assert_eq!(p.insert("a".to_string(), "3".to_string()), Some("1".to_string()));
    assert_eq!(p.get("a"), Some(&"3".to_string()));
    assert_eq!(p.get("b"), Some(&"2".to_string()));
    assert_eq!(p.len(), 2);
    assert_eq!(p.remove("a"), Some("3".to_string()));
    assert_eq!(p.get("a"), None);
    assert!(p.contains_key("b"));
}
