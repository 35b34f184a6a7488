use matapan::general::accounts::GeneralParser;
use matapan::general::issues::{FormatIssue, IssueLevel};
use matapan::general::transactions::{
    ai_payload_to_transactions, collect_parsed_transactions, AiAccountDraft, AiParsePayload,
    AiTransactionDraft,
};
use matapan::general::unfold::{input_kind, unfold_csv_bytes, InputKind, UnfoldError};
use matapan::money::{Amount, Sign};

fn amount(v: f64) -> Amount<f64> {
    let sign = if v.is_nan() {
        Sign::NotANumber
    } else if v < 0.0 {
        Sign::Negative
    } else if v == 0.0 {
        Sign::Zero
    } else {
        Sign::Positive
    };
    Amount {
        value: v,
        magnitude: v.abs(),
        sign,
        fixed8: format!("{:.8}", v),
        magnitude_fixed8: format!("{:.8}", v.abs()),
        magnitude_fixed6: format!("{:.6}", v.abs()),
    }
}

fn draft(date: &str, v: f64) -> AiTransactionDraft<f64> {
    AiTransactionDraft {
        date: date.to_string(),
        amount: amount(v),
        currency: None,
        description: String::new(),
        category: None,
        transaction_type: None,
        from_account_id: None,
        to_account_id: None,
        txn_id: None,
    }
}

#[test]
fn csv_input_picks_the_richest_delimiter() {
    let raw = "Date;Amount;Note\n2025-01-05; 12,50 ;Coffee  shop\n".as_bytes();
    let u = unfold_csv_bytes(raw, "in/stmt.csv").ok().unwrap();
    assert_eq!(u.file_name, "in/stmt.csv");
    assert_eq!(u.file_format, "csv");
    assert_eq!(u.encoding.as_deref(), Some("utf-8"));
    assert_eq!(u.sheets.len(), 1);
    let sheet = &u.sheets[0];
    assert_eq!(sheet.headers, vec!["Date", "Amount", "Note"]);
    assert_eq!(sheet.rows.len(), 1);
    assert_eq!(
        sheet.rows[0],
        vec![
            ("Date".to_string(), "2025-01-05".to_string()),
            ("Amount".to_string(), "12,50".to_string()),
            ("Note".to_string(), "Coffee shop".to_string()),
        ]
    );
    assert!(u.issues.iter().any(|i| i.code == "csv_encoding_detected" && matches!(i.level, IssueLevel::Info)));
}

#[test]
fn undecodable_csv_is_read_lossily() {
    let raw: &[u8] = b"a,b\n\xff,1\n";
    let u = unfold_csv_bytes(raw, "x.csv").ok().unwrap();
    assert_eq!(u.encoding.as_deref(), Some("utf-8-lossy"));
    assert!(u.issues.iter().any(|i| i.code == "csv_lossy_decode"));
    assert_eq!(u.sheets[0].rows[0][0].1, "\u{FFFD}");
}

#[test]
fn gb18030_csv_is_decoded() {
    let (bytes, _, _) = encoding_rs::GB18030.encode("名称,金额\n咖啡,5\n");
    let u = unfold_csv_bytes(&bytes, "x.csv").ok().unwrap();
    assert_eq!(u.encoding.as_deref(), Some("gb18030"));
    assert_eq!(u.sheets[0].headers, vec!["名称", "金额"]);
}

#[test]
fn input_kinds_come_from_the_extension() {
    assert!(matches!(input_kind("a/b.CSV"), Ok(InputKind::Csv)));
    assert!(matches!(input_kind("a/b.xlsx"), Ok(InputKind::Excel)));
    assert!(matches!(input_kind("a/b.Xls"), Ok(InputKind::Excel)));
    match input_kind("a/b.pdf") {
        Err(UnfoldError::UnsupportedFormat { path }) => assert_eq!(path, "a/b.pdf"),
        _ => panic!("expected a refusal"),
    }
    assert!(input_kind("README").is_err());
}

#[test]
fn model_drafts_are_checked_and_completed() {
    let mut coffee = draft("2025-01-05", -12.5);
    coffee.currency = Some(" sek ".to_string());
    coffee.description = " Coffee  shop ".to_string();
    let zero = draft("05/01/2025", 0.0);
    let mut refund = draft("2025-01-07", 3.0);
    refund.transaction_type = Some("refund".to_string());
    refund.from_account_id = Some("my bank".to_string());
    refund.txn_id = Some("  T-1 ".to_string());
    let payload = AiParsePayload { accounts: vec![], transactions: vec![coffee, zero, refund], issues: vec![] };
    let mut issues: Vec<FormatIssue> = Vec::new();
    let mut used: Vec<String> = Vec::new();
    let out = ai_payload_to_transactions(&payload, "ACC", "eur", "in.csv", &mut issues, &mut used);

    assert_eq!(out.len(), 2);
    let t = &out[0];
    assert_eq!(t.transaction_type, "income");
    assert_eq!(t.from_account_id, "EXTERNAL_PAYER");
    assert_eq!(t.to_account_id, "ACC");
    assert_eq!(t.amount, 12.5);
    assert_eq!(t.currency, "SEK");
    assert_eq!(t.category, "uncategorized");
    assert_eq!(t.description, "Coffee shop");
    assert!(t.txn_id.starts_with("GEN-"));
    let r = &out[1];
    assert_eq!(r.transaction_type, "expense");
    assert_eq!(r.from_account_id, "MY_BANK");
    assert_eq!(r.to_account_id, "EXTERNAL_PAYEE");
    assert_eq!(r.currency, "EUR");
    assert_eq!(r.txn_id, "T-1");

    let codes: Vec<(&str, Option<usize>)> = issues.iter().map(|i| (i.code.as_str(), i.row)).collect();
    assert_eq!(
        codes,
        vec![
            ("invalid_date_normalized", Some(2)),
            ("zero_amount_transaction", Some(2)),
            ("invalid_transaction_type", Some(3)),
        ]
    );
    for id in ["EXTERNAL_PAYER", "ACC", "MY_BANK", "EXTERNAL_PAYEE"] {
        assert!(used.contains(&id.to_string()), "{id}");
    }
}

#[test]
fn an_empty_reply_is_an_error() {
    let parser = GeneralParser::new(None, None, None);
    assert_eq!(parser.account_id, "GENERIC_BANK_ACCOUNT");
    assert_eq!(parser.default_currency, "EUR");
    let unfolded = unfold_csv_bytes("a,b\n1,2\n".as_bytes(), "x.csv").ok().unwrap();
    let payload: AiParsePayload<f64> = AiParsePayload {
        accounts: vec![AiAccountDraft { account_id: " other acct ".to_string() }],
        transactions: vec![],
        issues: vec![],
    };
    let out = collect_parsed_transactions(&parser, &unfolded, &payload, "x.csv");
    assert!(out.transactions.is_empty());
    assert!(out.issues.iter().any(|i| i.code == "no_transactions_produced" && matches!(i.level, IssueLevel::Error)));
    assert!(out.used_account_ids.contains(&"GENERIC_BANK_ACCOUNT".to_string()));
    assert!(out.used_account_ids.contains(&"OTHER_ACCT".to_string()));
}
