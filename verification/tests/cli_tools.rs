use matapan::cli::rollover::{
    format_month, is_last_month_label, next_month_string, output_file_name, parse_i32, parse_u32, MonthError,
};

#[test]
fn next_month_within_a_year() {
    assert_eq!(next_month_string("2025-01").ok().unwrap(), "2025-02");
    assert_eq!(next_month_string("2025-09").ok().unwrap(), "2025-10");
}

#[test]
fn next_month_wraps_december() {
    assert_eq!(next_month_string("2025-12").ok().unwrap(), "2026-01");
}

#[test]
fn next_month_pads_and_accepts_short_labels() {
    assert_eq!(next_month_string("2025-1").ok().unwrap(), "2025-02");
    assert_eq!(next_month_string("+2025-03").ok().unwrap(), "2025-04");
    assert_eq!(next_month_string("0099-11").ok().unwrap(), "99-12");
}

#[test]
fn next_month_rejects_bad_labels() {
    assert!(matches!(next_month_string("2025"), Err(MonthError::InvalidFormat { .. })));
    assert!(matches!(next_month_string("2025-01-01"), Err(MonthError::InvalidFormat { .. })));
    assert!(matches!(next_month_string("20x5-01"), Err(MonthError::InvalidYear)));
    assert!(matches!(next_month_string("-01"), Err(MonthError::InvalidYear)));
    assert!(matches!(next_month_string("2025-ab"), Err(MonthError::InvalidMonth)));
    assert!(matches!(next_month_string("2025- 1"), Err(MonthError::InvalidMonth)));
    assert!(matches!(next_month_string("2025-13"), Err(MonthError::InvalidDate)));
    assert!(matches!(next_month_string("2025-0"), Err(MonthError::InvalidDate)));
    assert!(matches!(next_month_string("999999-01"), Err(MonthError::InvalidDate)));
}

#[test]
fn month_errors_read_as_messages() {
    match next_month_string("May") {
        Err(e) => assert_eq!(e.message(), "invalid month format: May"),
        Ok(_) => panic!("expected an error"),
    }
    assert_eq!(MonthError::InvalidYear.message(), "invalid year in month");
    assert_eq!(MonthError::InvalidMonth.message(), "invalid month in month");
    assert_eq!(MonthError::InvalidDate.message(), "invalid date");
}

#[test]
fn integers_parse_as_std_does() {
    for s in ["0", "42", "+42", "-42", "2147483647", "-2147483648", "007", "", "+", "-", "1 ", "4294967296", "2147483648", "-0"] {
        assert_eq!(parse_i32(s), s.parse::<i32>().ok(), "{s:?}");
        assert_eq!(parse_u32(s), s.parse::<u32>().ok(), "{s:?}");
    }
    assert_eq!(parse_u32("4294967295"), Some(u32::MAX));
}

#[test]
fn months_format_like_the_original() {
    assert_eq!(format_month(2026, 1), "2026-01");
    assert_eq!(format_month(7, 12), "7-12");
    assert_eq!(format_month(-3, 5), "-3-05");
}

#[test]
fn rolled_over_file_name() {
    assert_eq!(output_file_name("2026-02"), "2026_02.json");
}

use matapan::cli::validate::{validate_month_file, EntryFields, FxEntry, FxRate, MonthFile, ValidationSettings};

fn settings() -> ValidationSettings {
    ValidationSettings {
        base_currency: "EUR".to_string(),
        assets: vec!["cash".to_string(), "investments".to_string()],
        liabilities: vec!["loan".to_string()],
        transaction_user_categories: vec!["salary".to_string(), "rent".to_string()],
    }
}

fn entry(kind: &str, currency: &str, has_number: bool) -> EntryFields {
    EntryFields {
        kind: Some(kind.to_string()),
        currency: Some(currency.to_string()),
        has_balance: has_number,
        has_amount: has_number,
    }
}

fn rates(list: &[(&str, Option<(&str, bool)>)]) -> Vec<FxEntry> {
    list.iter()
        .map(|(c, r)| FxEntry {
            currency: c.to_string(),
            rate: r.map(|(d, far)| FxRate { display: d.to_string(), far_from_one: far }),
        })
        .collect()
}

#[test]
fn a_clean_month_passes() {
    let file = MonthFile {
        month: Some("2025-09".to_string()),
        fx_rates: Some(rates(&[("EUR", Some(("1", false))), ("SEK", Some(("0.09", true)))])),
        net_worth_entries: Some(vec![entry("cash", "EUR", true), entry("loan", "SEK", true)]),
        cash_flow_dash: Some(Some(vec![entry("salary", "EUR", true)])),
        cash_flow_underscore: None,
        hicp_numeric: true,
    };
    let rep = validate_month_file(&file, &settings());
    assert!(rep.errors.is_empty(), "{:?}", rep.errors);
    assert!(rep.warnings.is_empty(), "{:?}", rep.warnings);
    assert!(!rep.has_errors());
}

#[test]
fn every_problem_is_reported_in_order() {
    let file = MonthFile {
        month: Some("2025/09".to_string()),
        fx_rates: Some(rates(&[("EUR", Some(("1.5", true)))])),
        net_worth_entries: Some(vec![entry("boat", "USD", false)]),
        cash_flow_dash: None,
        cash_flow_underscore: Some(Some(vec![entry("gift", "CHF", false)])),
        hicp_numeric: false,
    };
    let rep = validate_month_file(&file, &settings());
    assert_eq!(
        rep.errors,
        vec![
            "invalid month format '2025/09', expected YYYY-MM".to_string(),
            "net_worth_entries[0] missing 'balance'".to_string(),
            "net_worth_entries[0] currency 'USD' not found in fx_rates".to_string(),
            "cash-flow-entries[0] missing 'amount'".to_string(),
            "cash-flow-entries[0] currency 'CHF' not found in fx_rates".to_string(),
        ]
    );
    assert_eq!(
        rep.warnings,
        vec![
            "base currency 'EUR' rate is 1.5, expected 1.0".to_string(),
            "net_worth_entries[0] has unknown type 'boat' (not listed in settings account_categories)".to_string(),
            "cash-flow-entries[0] has user type 'gift' not in settings.transaction_user_categories".to_string(),
            "missing or non-numeric 'hicp'".to_string(),
        ]
    );
    assert!(rep.has_errors());
}

#[test]
fn missing_sections_are_reported() {
    let file = MonthFile {
        month: None,
        fx_rates: None,
        net_worth_entries: None,
        cash_flow_dash: Some(None),
        cash_flow_underscore: Some(Some(vec![entry("gift", "CHF", false)])),
        hicp_numeric: true,
    };
    let rep = validate_month_file(&file, &settings());
    assert_eq!(
        rep.errors,
        vec![
            "invalid month format '', expected YYYY-MM".to_string(),
            "missing 'fx_rates' object".to_string(),
        ]
    );
    assert_eq!(rep.warnings, vec!["missing or non-array 'net_worth_entries'".to_string()]);
}

#[test]
fn base_currency_must_be_listed() {
    let file = MonthFile {
        month: Some("2025-09".to_string()),
        fx_rates: Some(rates(&[("SEK", Some(("0.09", true)))])),
        net_worth_entries: Some(vec![]),
        cash_flow_dash: None,
        cash_flow_underscore: None,
        hicp_numeric: true,
    };
    let rep = validate_month_file(&file, &settings());
    assert_eq!(rep.errors, vec!["fx_rates missing base currency 'EUR'".to_string()]);
}

#[test]
fn the_last_month_of_the_calendar_is_recognised() {
    assert!(is_last_month_label("262142-12"));
    assert!(is_last_month_label("+262142-012"));
    assert!(!is_last_month_label("262142-11"));
    assert!(!is_last_month_label("2025-12"));
    assert!(!is_last_month_label("262142"));
}
