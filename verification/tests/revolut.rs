use matapan::money::{Amount, Sign};
use matapan::revolut::transactions::{parse_transactions, RevolutError, RevolutRow};
use matapan::revolut::RevolutCsvParser;

fn amount(v: f64) -> Amount<f64> {
    let sign = if v.is_nan() {
        Sign::NotANumber
    } else if v < 0.0 {
        Sign::Negative
    } else if v == 0.0 {
        Sign::Zero
    } else {
        Sign::Positive
    };
    Amount {
        value: v,
        magnitude: v.abs(),
        sign,
        fixed8: format!("{:.8}", v),
        magnitude_fixed8: format!("{:.8}", v.abs()),
        magnitude_fixed6: format!("{:.6}", v.abs()),
    }
}

fn opt(s: &str) -> Option<String> {
    if s.is_empty() {
        None
    } else {
        Some(s.to_string())
    }
}

/// Reads a Revolut export the way the importer's reader does.
fn rows(csv_text: &str) -> Vec<Result<RevolutRow<f64>, String>> {
    let mut reader = csv::ReaderBuilder::new()
        .flexible(true)
        .trim(csv::Trim::All)
        .from_reader(csv_text.as_bytes());
    let mut out = Vec::new();
    for rec in reader.records() {
        let rec = rec.unwrap();
        let field = |i: usize| rec.get(i).unwrap_or("").to_string();
        let value: f64 = field(5).parse().unwrap();
        out.push(Ok(RevolutRow {
            revolut_type: opt(&field(0)),
            product: opt(&field(1)),
            started_date: opt(&field(2)),
            completed_date: opt(&field(3)),
            description: opt(&field(4)),
            amount: amount(value),
            fee: opt(&field(6)).map(|f| amount(f.parse().unwrap())),
            currency: field(7),
            state: opt(&field(8)),
            balance: opt(&field(9)).map(|b| b.parse().unwrap()),
        }));
    }
    out
}

#[test]
fn parse_reader_skips_non_completed_by_default() {
    let csv = "Type,Product,Started Date,Completed Date,Description,Amount,Fee,Currency,State,Balance\n\
Card Payment,Current,2026-01-05 10:00:00,2026-01-05 10:00:00,Coffee,-4.5,0,EUR,COMPLETED,100\n\
Card Payment,Current,2026-01-06 10:00:00,2026-01-06 10:00:00,Pending Item,-3.0,0,EUR,PENDING,97\n";

    let parser = RevolutCsvParser::new("REVOLUT");
    let (txns, used_accounts) = parser.parse_rows(&rows(csv)).ok().unwrap();

    assert_eq!(txns.len(), 1);
    assert_eq!(used_accounts.len(), 1);
    assert!(used_accounts.contains(&"REVOLUT_CURRENT".to_string()));
}

#[test]
fn parse_reader_tracks_savings_account_usage() {
    let csv = "Type,Product,Started Date,Completed Date,Description,Amount,Fee,Currency,State,Balance\n\
Transfer,Savings,2026-01-07 10:00:00,2026-01-07 10:00:00,Transfer from pocket,12.0,0,EUR,COMPLETED,250\n";

    let parser = RevolutCsvParser::new("REVOLUT");
    let (_txns, used_accounts) = parser.parse_rows(&rows(csv)).ok().unwrap();

    assert_eq!(used_accounts.len(), 1);
    assert!(used_accounts.contains(&"REVOLUT_SAVINGS".to_string()));
}

#[test]
fn create_used_accounts_returns_only_requested_accounts() {
    let parser = RevolutCsvParser::new("REVOLUT");
    let accounts = parser.create_used_accounts(&["REVOLUT_CURRENT".to_string()]);

    assert_eq!(accounts.len(), 1);
    let account_id = accounts[0].account_id.as_str();
    assert_eq!(account_id, "REVOLUT_CURRENT");
}

#[test]
fn parse_exchange_rows_as_directional_flows() {
    let csv = "Type,Product,Started Date,Completed Date,Description,Amount,Fee,Currency,State,Balance\n\
Exchange,Savings,2026-01-04 14:57:50,2026-01-04 14:57:50,Exchanged to EUR,-2510.31,25.10,SEK,COMPLETED,7414.49\n\
Exchange,Current,2026-01-04 14:57:50,2026-01-04 14:57:50,Exchanged to EUR,231.50,0.00,EUR,COMPLETED,251.81\n";

    let parser = RevolutCsvParser::new("REVOLUT");
    let (txns, _used_accounts) = parse_transactions(&parser, &rows(csv)).ok().unwrap();

    assert_eq!(txns.len(), 3);

    let exchanged_out = &txns[0];
    assert_eq!(exchanged_out.transaction_type.as_str(), "expense");
    assert_eq!(exchanged_out.from_account_id.as_str(), "REVOLUT_SAVINGS");
    assert_eq!(exchanged_out.to_account_id.as_str(), "REVOLUT_SAVINGS");
    assert_eq!(exchanged_out.amount, 2510.31);

    let exchanged_in = &txns[2];
    assert_eq!(exchanged_in.transaction_type.as_str(), "income");
    assert_eq!(exchanged_in.from_account_id.as_str(), "REVOLUT_CURRENT");
    assert_eq!(exchanged_in.to_account_id.as_str(), "REVOLUT_CURRENT");
    assert_eq!(exchanged_in.amount, 231.5);
}

#[test]
fn with_only_completed_false_keeps_pending_rows() {
    let csv = "Type,Product,Started Date,Completed Date,Description,Amount,Fee,Currency,State,Balance\n\
Card Payment,Current,2026-01-05 10:00:00,2026-01-05 10:00:00,Coffee,-4.5,0,EUR,COMPLETED,100\n\
Card Payment,Current,2026-01-06 10:00:00,2026-01-06 10:00:00,Pending Item,-3.0,0,EUR,PENDING,97\n";
    let parser = RevolutCsvParser::new("REVOLUT").with_only_completed(false);
    let (txns, _) = parser.parse_rows(&rows(csv)).ok().unwrap();
    assert_eq!(txns.len(), 2);
    assert_eq!(txns[0].date.as_str(), "2026-01-05");
    assert_eq!(txns[0].from_account_id.as_str(), "REVOLUT_CURRENT");
    assert_eq!(txns[0].to_account_id.as_str(), "EXTERNAL_PAYEE");
    assert!(txns[0].txn_id.starts_with("REVOLUT-"));
    assert_ne!(txns[0].txn_id, txns[1].txn_id);
}

#[test]
fn new_accepts_either_account_name() {
    let a = RevolutCsvParser::new("REVOLUT_CURRENT");
    let b = RevolutCsvParser::new("REVOLUT_SAVINGS");
    let c = RevolutCsvParser::new("REVOLUT");
    for p in [&a, &b, &c] {
        assert_eq!(p.account_id_current.as_str(), "REVOLUT_CURRENT");
        assert_eq!(p.account_id_savings.as_str(), "REVOLUT_SAVINGS");
    }
}

#[test]
fn missing_dates_are_reported_with_their_row() {
    let csv = "Type,Product,Started Date,Completed Date,Description,Amount,Fee,Currency,State,Balance\n\
Card Payment,Current,,,Coffee,-4.5,0,EUR,COMPLETED,100\n";
    let parser = RevolutCsvParser::new("REVOLUT");
    match parser.parse_rows(&rows(csv)) {
        Err(RevolutError::MissingDate { row }) => assert_eq!(row, 1),
        _ => panic!("expected a missing date"),
    }
}

#[test]
fn unreadable_dates_are_reported_with_their_text() {
    let csv = "Type,Product,Started Date,Completed Date,Description,Amount,Fee,Currency,State,Balance\n\
Card Payment,Current,2026-01-05 10:00:00,05/01/2026,Coffee,-4.5,0,EUR,COMPLETED,100\n";
    let parser = RevolutCsvParser::new("REVOLUT");
    match parser.parse_rows(&rows(csv)) {
        Err(RevolutError::UnrecognizedDate { row, raw }) => {
            assert_eq!(row, 1);
            assert_eq!(raw.as_str(), "05/01/2026");
        }
        _ => panic!("expected an unrecognized date"),
    }
}

#[test]
fn rows_the_reader_rejected_fail_the_import() {
    let parser = RevolutCsvParser::new("REVOLUT");
    let input: Vec<Result<RevolutRow<f64>, String>> = vec![Err("bad number".to_string())];
    match parser.parse_rows(&input) {
        Err(RevolutError::Deserialize { row, .. }) => assert_eq!(row, 1),
        _ => panic!("expected a reader error"),
    }
}
