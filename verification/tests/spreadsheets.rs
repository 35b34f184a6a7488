use matapan::carpay::{parse_sheets, CarPayCell, CarPayError, CarPayXlsxParser, CellRows, DateSource};
use matapan::ccb::{ccb_amount_text, find_header_row_ccb, parse_statement, CcbError, CcbXlsParser};
use matapan::dates::Date;
use matapan::money::{Amount, Sign};

fn amount(v: f64) -> Amount<f64> {
    let sign = if v.is_nan() {
        Sign::NotANumber
    } else if v < 0.0 {
        Sign::Negative
    } else if v == 0.0 {
        Sign::Zero
    } else {
        Sign::Positive
    };
    Amount {
        value: v,
        magnitude: v.abs(),
        sign,
        fixed8: format!("{:.8}", v),
        magnitude_fixed8: format!("{:.8}", v.abs()),
        magnitude_fixed6: format!("{:.6}", v.abs()),
    }
}

fn grid(rows: &[&[&str]]) -> Vec<Vec<String>> {
    rows.iter().map(|r| r.iter().map(|c| c.to_string()).collect()).collect()
}

fn ccb_amounts(cells: &Vec<Vec<String>>) -> Vec<Option<Amount<f64>>> {
    let cols = find_header_row_ccb(cells).ok().unwrap();
    cells
        .iter()
        .map(|row| {
            let t = ccb_amount_text(row.get(cols.amount).map(|s| s.as_str()).unwrap_or(""));
            if t.is_empty() { None } else { t.parse::<f64>().ok().map(amount) }
        })
        .collect()
}

const CCB_HEADER: &[&str] = &["序号", "摘要", "币别", "钞汇", "交易日期", "交易金额", "账户余额", "交易地点/附言", "对方账号与户名"];

#[test]
fn ccb_statement_rows_become_transactions() {
    let cells = grid(&[
        &["中国建设银行个人活期账户交易明细"],
        CCB_HEADER,
        &["1", "消费", "人民币元", "钞", "20250105", "-1,035.50", "1000.00", "***", "6222 张三"],
        &["2", "工资", "人民币元", "钞", "2025-01-06", "8000", "9000.00", "", ""],
        &["", "", "", "", "", "", "", "", ""],
        &["3", "消费", "人民币元", "钞", "20250107", "-1", "8999.00", "", ""],
    ]);
    let parser = CcbXlsParser::new("CCB_CHECKING");
    let txns = parse_statement(&parser, &cells, &ccb_amounts(&cells)).ok().unwrap();
    assert_eq!(txns.len(), 3);
    assert_eq!(txns[0].date, "2025-01-05");
    assert_eq!(txns[0].transaction_type, "expense");
    assert_eq!(txns[0].from_account_id, "CCB_CHECKING");
    assert_eq!(txns[0].to_account_id, "EXTERNAL_PAYEE");
    assert_eq!(txns[0].amount, 1035.5);
    assert_eq!(txns[0].currency, "CNY");
    assert_eq!(txns[0].description, "消费 6222 张三");
    assert_eq!(txns[1].transaction_type, "income");
    assert_eq!(txns[1].from_account_id, "EXTERNAL_PAYER");
    assert_eq!(txns[1].description, "工资");

    let stop_at_blank = CcbXlsParser::new("CCB_CHECKING").with_only_nonempty_rows(false);
    assert_eq!(parse_statement(&stop_at_blank, &cells, &ccb_amounts(&cells)).ok().unwrap().len(), 2);
}

#[test]
fn ccb_errors() {
    let parser = CcbXlsParser::new("CCB_CHECKING");
    let none: Vec<Vec<String>> = grid(&[&["a", "b"]]);
    assert!(matches!(parse_statement::<f64>(&parser, &none, &vec![None]), Err(CcbError::HeaderNotFound)));
    let cells = grid(&[CCB_HEADER, &["1", "消费", "人民币元", "钞", "05/01/2025", "-1", "", "", ""]]);
    match parse_statement(&parser, &cells, &ccb_amounts(&cells)) {
        Err(CcbError::InvalidDate { raw }) => assert_eq!(raw, "05/01/2025"),
        _ => panic!("expected a bad date"),
    }
    let cells = grid(&[CCB_HEADER, &["1", "消费", "人民币元", "钞", "20250105", "abc", "", "", ""]]);
    match parse_statement(&parser, &cells, &ccb_amounts(&cells)) {
        Err(CcbError::InvalidAmount { raw }) => assert_eq!(raw, "abc"),
        _ => panic!("expected a bad amount"),
    }
}

fn text_cell(s: &str) -> CarPayCell<f64> {
    let v = s.trim().replace(',', "");
    let value = if v.is_empty() { None } else { v.parse::<f64>().ok() };
    CarPayCell {
        text: if s.is_empty() { None } else { Some(s.to_string()) },
        date: DateSource::Text(s.to_string()),
        amount: value.map(amount),
        negligible: value.map(|x| x.abs() < 1e-9).unwrap_or(false),
    }
}

fn serial_cell(d: Date, serial: f64) -> CarPayCell<f64> {
    CarPayCell { text: Some(serial.to_string()), date: DateSource::Serial(Some(d)), amount: Some(amount(serial)), negligible: false }
}

fn carpay_rows(rows: Vec<Vec<CarPayCell<f64>>>) -> CellRows<f64> {
    rows
}

#[test]
fn carpay_sheets_become_card_transactions() {
    let header = ["Kontonummer", "Datum", "Belopp", "Försäljningsställe", "Referens"].iter().map(|s| text_cell(s)).collect();
    let rows = carpay_rows(vec![
        vec![text_cell("CarPay export")],
        header,
        vec![text_cell("1"), serial_cell(Date { year: 2025, month: 1, day: 21 }, 45678.0), text_cell("120.5"), text_cell("  Shell   Kista "), text_cell("R1")],
        vec![text_cell("1"), text_cell("2025-01-22"), text_cell("-50"), text_cell(""), text_cell("")],
        vec![text_cell("1"), text_cell("2025-01-23"), text_cell("0"), text_cell("Zero"), text_cell("")],
        vec![text_cell("1"), text_cell(""), text_cell(""), text_cell("blank"), text_cell("")],
    ]);
    let parser = CarPayXlsxParser::new("CARPAY_CARD").with_currency("SEK");
    let sheets = vec![("Januari".to_string(), Some(rows)), ("Broken".to_string(), None)];
    let txns = parse_sheets(&parser, &sheets).ok().unwrap();
    assert_eq!(txns.len(), 2);
    assert_eq!(txns[0].date, "2025-01-21");
    assert_eq!(txns[0].transaction_type, "expense");
    assert_eq!(txns[0].from_account_id, "CARPAY_CARD");
    assert_eq!(txns[0].amount, 120.5);
    assert_eq!(txns[0].currency, "SEK");
    assert_eq!(txns[0].description, "Shell Kista [Januari] ref=R1");
    assert_eq!(txns[1].transaction_type, "income");
    assert_eq!(txns[1].to_account_id, "CARPAY_CARD");
    assert_eq!(txns[1].description, "[Januari]");
}

#[test]
fn carpay_rows_with_bad_values_fail() {
    let header = ["Kontonummer", "Datum", "Belopp"].iter().map(|s| text_cell(s)).collect();
    let rows = vec![header, vec![text_cell("1"), text_cell("yesterday"), text_cell("10")]];
    let parser = CarPayXlsxParser::new("CARPAY_CARD");
    match parse_sheets(&parser, &vec![("S".to_string(), Some(rows))]) {
        Err(CarPayError::InvalidDate { sheet, row }) => {
            assert_eq!(sheet, "S");
            assert_eq!(row, 2);
        }
        _ => panic!("expected a bad date"),
    }
    let header = ["Kontonummer", "Datum", "Belopp"].iter().map(|s| text_cell(s)).collect();
    let rows = vec![header, vec![text_cell("1"), text_cell("2025-01-01"), text_cell("ten")]];
    assert!(matches!(parse_sheets(&parser, &vec![("S".to_string(), Some(rows))]), Err(CarPayError::InvalidAmount { .. })));
}

use matapan::intesa::common::{clean_amount_text, CellNumbers, IntesaSheet};
use matapan::intesa::transactions::IntesaError;
use matapan::intesa::{FileType, IntesaSanpaoloParser};
use matapan::seb::{SebCell, SebError, SebXlsxParser};

fn intesa_sheet(rows: &[&[&str]]) -> IntesaSheet<f64> {
    let cells = grid(rows);
    let nums = cells
        .iter()
        .map(|row| {
            row.iter()
                .map(|t| CellNumbers {
                    amount: clean_amount_text(t).and_then(|c| c.parse::<f64>().ok()).map(amount),
                    serial_floor: t.trim().parse::<f64>().ok().map(|f| f.floor() as i64),
                })
                .collect()
        })
        .collect();
    IntesaSheet { cells, nums }
}

#[test]
fn intesa_movements_become_transactions() {
    let sheet = intesa_sheet(&[
        &["Lista operazione", "", ""],
        &["Data", "Operazione", "Importo"],
        &["05/01/2025", "Pagamento POS", "-12,50"],
        &["06/01/2025", "Stipendio", "1.500,00"],
        &["07/01/2025", "Canone mensile", "5,00"],
        &["", "", ""],
        &["Saldo finale", "", "100"],
    ]);
    let parser = IntesaSanpaoloParser::new();
    let fallback = Date { year: 2025, month: 2, day: 1 };
    let parsed = parser.parse_sheets_with_type(&vec![Some(sheet), None], FileType::Transactions, &fallback).ok().unwrap();
    assert!(parsed.positions.is_empty() && parsed.instruments.is_empty());
    let t = &parsed.transactions;
    assert_eq!(t.len(), 3);
    assert_eq!(t[0].date, "2025-01-05");
    assert_eq!(t[0].transaction_type, "expense");
    assert_eq!(t[0].from_account_id, "INTESA_CHECKING");
    assert_eq!(t[0].to_account_id, "EXTERNAL_PAYEE");
    assert_eq!(t[0].amount, 12.5);
    assert_eq!(t[0].currency, "EUR");
    assert_eq!(t[0].description, "Pagamento POS");
    assert!(t[0].txn_id.starts_with("INTESA-"));
    assert_eq!(t[1].transaction_type, "income");
    assert_eq!(t[1].from_account_id, "EXTERNAL_PAYER");
    assert_eq!(t[1].amount, 1500.0);
    assert_eq!(t[2].transaction_type, "expense");
    assert_eq!(t[2].to_account_id, "EXTERNAL_PAYEE");
}

#[test]
fn intesa_unreadable_amounts_fail() {
    let sheet = intesa_sheet(&[&["Data", "Descrizione", "Importo"], &["05/01/2025", "POS", "abc"]]);
    let parser = IntesaSanpaoloParser::new();
    let fallback = Date { year: 2025, month: 2, day: 1 };
    assert!(matches!(
        parser.parse_sheets_with_type(&vec![Some(sheet)], FileType::Transactions, &fallback),
        Err(IntesaError::Amount { .. })
    ));
}

fn seb_text(s: &str) -> SebCell<f64> {
    SebCell::Text { raw: s.to_string(), amount: None }
}

#[test]
fn seb_rows_become_transactions() {
    let rows: Vec<Vec<SebCell<f64>>> = vec![
        vec![seb_text("Kontoutdrag Privatkonto (5357 10 123 45)")],
        vec![seb_text("Bokföringsdatum"), seb_text("Text"), seb_text("Belopp"), seb_text("Valuta")],
        vec![
            SebCell::DateTime { display: "2025-01-05".to_string(), date: Some(Date { year: 2025, month: 1, day: 5 }) },
            seb_text(" ICA Maxi "),
            SebCell::Number { display: "-250.5".to_string(), date: None, amount: amount(-250.5) },
            seb_text("SEK"),
        ],
        vec![
            seb_text("2025-01-25"),
            seb_text("Överföring 5357 10 99999"),
            SebCell::Number { display: "-1000".to_string(), date: None, amount: amount(-1000.0) },
            SebCell::Empty,
        ],
        vec![SebCell::Empty, SebCell::Empty],
    ];
    let parser = SebXlsxParser::new("SEB_CHECKING", "SEB_SAVINGS").with_account_numbers(None, Some("5357109999".to_string()));
    let txns = parser.parse_rows(&rows, "SEB_CHECKING").ok().unwrap();
    assert_eq!(txns.len(), 2);
    assert_eq!(txns[0].date, "2025-01-05");
    assert_eq!(txns[0].transaction_type, "expense");
    assert_eq!(txns[0].from_account_id, "SEB_CHECKING");
    assert_eq!(txns[0].to_account_id, "EXTERNAL_PAYEE");
    assert_eq!(txns[0].amount, 250.5);
    assert_eq!(txns[0].currency, "SEK");
    assert_eq!(txns[0].description, "ICA Maxi");
    assert_eq!(txns[1].transaction_type, "internal_transfer");
    assert_eq!(txns[1].from_account_id, "SEB_CHECKING");
    assert_eq!(txns[1].to_account_id, "SEB_SAVINGS");
    assert_eq!(txns[1].currency, "SEK");
}

#[test]
fn seb_errors() {
    let parser = SebXlsxParser::new("SEB_CHECKING", "SEB_SAVINGS");
    let rows: Vec<Vec<SebCell<f64>>> = vec![vec![seb_text("nothing")]];
    assert!(matches!(parser.parse_rows(&rows, "SEB_CHECKING"), Err(SebError::NoLayout)));
    let rows: Vec<Vec<SebCell<f64>>> = vec![
        vec![seb_text("Datum"), seb_text("Text"), seb_text("Belopp")],
        vec![seb_text("yesterday"), seb_text("x"), SebCell::Number { display: "1".to_string(), date: None, amount: amount(1.0) }],
    ];
    match parser.parse_rows(&rows, "SEB_CHECKING") {
        Err(SebError::Date { row }) => assert_eq!(row, 2),
        _ => panic!("expected a bad date"),
    }
}

use matapan::carpay::inspect::{find_header_row_loose, norm, preview_row};

fn opt_row(cells: &[Option<&str>]) -> Vec<Option<String>> {
    cells.iter().map(|c| c.map(|s| s.to_string())).collect()
}

#[test]
fn rows_preview_trimmed_without_trailing_blanks() {
    assert_eq!(
        preview_row(&opt_row(&[Some(" a "), None, Some("b"), Some("  "), None])),
        Some(vec!["a".to_string(), "".to_string(), "b".to_string()])
    );
    assert_eq!(preview_row(&opt_row(&[None, Some("   ")])), None);
    let wide: Vec<Option<String>> = (0..14).map(|i| if i == 13 { Some("late".to_string()) } else { None }).collect();
    assert_eq!(preview_row(&wide), None);
}

#[test]
fn the_loose_header_guess_needs_a_date_and_an_amount() {
    assert_eq!(norm("  DATUM\u{00A0}Belopp "), "datum belopp");
    let rows = vec![
        opt_row(&[Some("CarPay"), None]),
        opt_row(&[Some("Datum"), Some("Text")]),
        opt_row(&[None, Some(" Datum "), Some("Summa"), None]),
        opt_row(&[Some("Datum"), Some("Belopp")]),
    ];
    let (row, headers) = find_header_row_loose(&rows).unwrap();
    assert_eq!(row, 2);
    assert_eq!(headers, vec!["Datum".to_string(), "Summa".to_string()]);
    assert!(find_header_row_loose(&vec![opt_row(&[Some("x")])]).is_none());
}
