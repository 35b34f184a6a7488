use matapan::ccb::{ccb_amount_text, normalize_ccb_currency, parse_ccb_date};
use matapan::carpay::{parse_date_string as carpay_date, parse_excel_date, trim_midspaces, DateSource};
use matapan::dates::{iso_date, Date};
use matapan::general::normalize::{
    default_from_account, default_to_account, extract_first_json_object, looks_like_iso_date,
    normalize_account_id, normalize_text, uniquify_headers,
};
use matapan::hashing::{digest_hex_prefix, prefixed_digest_id};
use matapan::ibkr::ids::{build_instrument_id, looks_like_isin, primary_symbol, split_symbol_aliases};
use matapan::ibkr::parser::parse_flexible_date;
use matapan::intesa::common::{clean_amount_text, parse_date, parse_date_or_serial};
use matapan::intesa::instruments::{map_instrument_from_row, PortfolioRowData};
use matapan::intesa::{detect_file_type_by_name, FileType};
use matapan::money::Sign;
use matapan::seb::{infer_type, normalize_digits, parse_date_string as seb_date, resolve_account_id};

fn d(year: i32, month: u32, day: u32) -> Date {
    Date { year, month, day }
}

#[test]
fn sha256_prefixes_are_hex() {
    assert_eq!(digest_hex_prefix("abc", 4), "ba7816bf");
    assert_eq!(prefixed_digest_id("X", "abc", 2), "X-ba78");
    assert_eq!(digest_hex_prefix("abc", 0), "");
}

#[test]
fn dates_render_like_chrono() {
    assert_eq!(iso_date(&d(2025, 1, 5)), "2025-01-05");
    assert_eq!(iso_date(&d(12345, 1, 5)), "+12345-01-05");
    assert_eq!(iso_date(&d(-44, 3, 15)), "-0044-03-15");
}

#[test]
fn ccb_fields() {
    assert_eq!(parse_ccb_date(" 20250105 "), Some(d(2025, 1, 5)));
    assert_eq!(parse_ccb_date("2025-01-05"), Some(d(2025, 1, 5)));
    assert_eq!(parse_ccb_date("20250230"), None);
    assert_eq!(parse_ccb_date("2025/01/05"), None);
    assert_eq!(normalize_ccb_currency("人民币元"), "CNY");
    assert_eq!(normalize_ccb_currency("USD"), "CNY");
    assert_eq!(ccb_amount_text(" 1,234.50 "), "1234.50");
}

#[test]
fn carpay_fields() {
    assert_eq!(carpay_date(" 2025-03-04 12:00:00 "), Some(d(2025, 3, 4)));
    assert_eq!(carpay_date("2025-03-04"), Some(d(2025, 3, 4)));
    assert_eq!(carpay_date("04/03/2025"), None);
    assert_eq!(carpay_date("   "), None);
    assert_eq!(trim_midspaces("  a \t b\n c "), "a b c");
    assert_eq!(parse_excel_date(&DateSource::Serial(Some(d(2024, 2, 29)))), Some(d(2024, 2, 29)));
    assert_eq!(parse_excel_date(&DateSource::Text("2024-02-29".to_string())), Some(d(2024, 2, 29)));
    assert_eq!(parse_excel_date(&DateSource::Missing), None);
}

#[test]
fn seb_fields() {
    assert_eq!(normalize_digits("5357-10 123 45"), "53571012345");
    assert_eq!(infer_type(Sign::Negative, "Överföring till sparkonto"), "internal_transfer");
    assert_eq!(infer_type(Sign::Negative, "LÖN JANUARI"), "income");
    assert_eq!(infer_type(Sign::Negative, "ICA Maxi"), "expense");
    assert_eq!(infer_type(Sign::Zero, "ICA Maxi"), "income");
    assert_eq!(seb_date("05.01.2025"), Some(d(2025, 1, 5)));
    assert_eq!(seb_date("2025/01/05"), Some(d(2025, 1, 5)));
    assert_eq!(seb_date("01/13/2025"), Some(d(2025, 1, 13)));
    assert_eq!(seb_date("13/13/2025"), None);
    assert_eq!(resolve_account_id("SEB_C", "SEB_S", "exports/Sparkonto.xlsx"), "SEB_S");
    assert_eq!(resolve_account_id("SEB_C", "SEB_S", "exports/privat.xlsx"), "SEB_C");
}

#[test]
fn intesa_fields() {
    assert_eq!(clean_amount_text(" 1.234,56 € "), Some("1234.56".to_string()));
    assert_eq!(clean_amount_text("-12.50 EUR"), Some("-12.50".to_string()));
    assert_eq!(clean_amount_text("--"), None);
    assert_eq!(parse_date("05/01/2025"), Some(d(2025, 1, 5)));
    assert_eq!(parse_date_or_serial("whatever", Some(45678)), Some(d(2025, 1, 21)));
    assert_eq!(parse_date_or_serial("2025-01-05", None), Some(d(2025, 1, 5)));
    assert!(matches!(detect_file_type_by_name("data/Patrimonio_2025.xlsx"), Some(FileType::Portfolio)));
    assert!(matches!(detect_file_type_by_name("data/Movimenti.xlsx"), Some(FileType::Transactions)));
    assert!(detect_file_type_by_name("data/export.xlsx").is_none());
    let row = PortfolioRowData { isin: " IT0005083057 ".to_string(), description: "  BTP  ".to_string() };
    let i = map_instrument_from_row(&row).unwrap();
    assert_eq!(i.instrument_id, "ISIN_IT0005083057");
    assert_eq!(i.security_id.as_deref(), Some("IT0005083057"));
    assert_eq!(i.description.as_deref(), Some("BTP"));
    assert_eq!(i.source.as_deref(), Some("Intesa Sanpaolo"));
    assert!(map_instrument_from_row(&PortfolioRowData { isin: "  ".to_string(), description: String::new() }).is_none());
}

#[test]
fn ibkr_identifiers() {
    assert!(looks_like_isin("US0378331005"));
    assert!(!looks_like_isin("US03783310-5"));
    assert_eq!(build_instrument_id("265598", " US0378331005 ", "Stocks", "AAPL"), "IBKR_US0378331005");
    assert_eq!(build_instrument_id(" 265598 ", "", "Stocks", "AAPL"), "IBKR_CONID_265598");
    assert_eq!(build_instrument_id("", "", "Equity and Index Options", " SPY 240119C "), "IBKR_Equity_and_Index_Options_SPY_240119C");
    assert_eq!(split_symbol_aliases(" VWCE, VWCE.DE ,, VWCE "), vec!["VWCE".to_string(), "VWCE.DE".to_string()]);
    assert_eq!(primary_symbol(" , "), ",");
    assert_eq!(primary_symbol("A, B"), "A");
    assert_eq!(parse_flexible_date("2025-01-31"), Some(d(2025, 1, 31)));
}

#[test]
fn general_text_helpers() {
    assert_eq!(normalize_text(" a\u{00A0}b\r\nc  "), "a b c");
    assert_eq!(normalize_account_id("  my bank: savings  "), "MY_BANK__SAVINGS");
    assert_eq!(normalize_account_id("__x__"), "X");
    assert!(looks_like_iso_date("2025-01-05"));
    assert!(!looks_like_iso_date("2025/01/05"));
    assert!(!looks_like_iso_date("2025-1-5"));
    assert_eq!(default_from_account("ACC", "income"), "EXTERNAL_PAYER");
    assert_eq!(default_from_account("ACC", "expense"), "ACC");
    assert_eq!(default_to_account("ACC", "income"), "ACC");
    assert_eq!(default_to_account("ACC", "other"), "EXTERNAL_PAYEE");
    let hs = vec!["a".to_string(), "b".to_string(), "a".to_string(), "a".to_string()];
    assert_eq!(uniquify_headers(hs), vec!["a", "b", "a_2", "a_3"]);
    assert_eq!(
        extract_first_json_object("noise {\"a\": \"}\", \"b\": {\"c\": 1}} tail"),
        Some("{\"a\": \"}\", \"b\": {\"c\": 1}}".to_string())
    );
    assert_eq!(extract_first_json_object("{ \"open\": 1"), None);
    assert_eq!(extract_first_json_object("none"), None);
}
