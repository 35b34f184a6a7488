use matapan::alipay::transactions::{amount_text, parse_table, read_alipay_table, AlipayError};
use matapan::alipay::AlipayCsvParser;
use matapan::dates::Date;
use matapan::ibkr::common::IbkrCsvParser;
use matapan::ibkr::error::IbkrError;
use matapan::money::{Amount, Sign};

fn amount(v: f64) -> Amount<f64> {
    let sign = if v.is_nan() {
        Sign::NotANumber
    } else if v < 0.0 {
        Sign::Negative
    } else if v == 0.0 {
        Sign::Zero
    } else {
        Sign::Positive
    };
    Amount {
        value: v,
        magnitude: v.abs(),
        sign,
        fixed8: format!("{:.8}", v),
        magnitude_fixed8: format!("{:.8}", v.abs()),
        magnitude_fixed6: format!("{:.6}", v.abs()),
    }
}

/// The statement's number reading: trimmed, `--` and blanks rejected,
/// thousands separators dropped.
fn ibkr_number(s: &str) -> Option<Amount<f64>> {
    let t = s.trim();
    if t.is_empty() || t == "--" {
        return None;
    }
    t.replace(',', "").parse::<f64>().ok().map(amount)
}

fn ibkr_parse(text: &str) -> Result<matapan::ibkr::parser::ParsedIbkr<f64>, IbkrError> {
    let parser = IbkrCsvParser::new();
    let records = parser.read_records(text).unwrap();
    let numbers: Vec<Vec<Option<Amount<f64>>>> =
        records.iter().map(|r| r.iter().map(|c| ibkr_number(c)).collect()).collect();
    parser.parse_records_with_fallback_date(&records, &numbers, None)
}

#[test]
fn ibkr_deposits_become_income_of_the_checking_account() {
    let text = "Statement,Header,Field Name,Field Value\n\
Statement,Data,Period,\"January 1, 2025 - January 31, 2025\"\n\
Deposits & Withdrawals,Header,Currency,Settle Date,Description,Amount\n\
Deposits & Withdrawals,Data,EUR,2025-01-15,Transfer in,\"1,000.50\"\n\
Deposits & Withdrawals,Data,Total,,,1000.5\n";
    let parsed = ibkr_parse(text).ok().unwrap();
    assert_eq!(parsed.statement_end, Some(Date { year: 2025, month: 1, day: 31 }));
    assert_eq!(parsed.transactions.len(), 1);
    let t = &parsed.transactions[0];
    assert_eq!(t.date, "2025-01-15");
    assert_eq!(t.transaction_type, "income");
    assert_eq!(t.from_account_id, "EXTERNAL_PAYER");
    assert_eq!(t.to_account_id, "IBKR_CHECKING");
    assert_eq!(t.amount, 1000.5);
    assert_eq!(t.currency, "EUR");
    assert_eq!(t.description, "IBKR D/W: Transfer in");
    assert!(t.txn_id.starts_with("IBKR-DW-"));
    assert_eq!(t.txn_id.len(), "IBKR-DW-".len() + 24);
}

#[test]
fn ibkr_withdrawals_leave_the_checking_account() {
    let text = "Deposits & Withdrawals,Header,Currency,Settle Date,Description,Amount\n\
Deposits & Withdrawals,Data,USD,2025-02-03,Transfer out,-250\n";
    let parsed = ibkr_parse(text).ok().unwrap();
    let t = &parsed.transactions[0];
    assert_eq!(t.transaction_type, "expense");
    assert_eq!(t.from_account_id, "IBKR_CHECKING");
    assert_eq!(t.to_account_id, "EXTERNAL_PAYEE");
    assert_eq!(t.amount, 250.0);
    assert_eq!(parsed.statement_end, None);
}

#[test]
fn ibkr_rows_need_their_header_and_readable_values() {
    match ibkr_parse("Fees,Data,EUR,2025-01-01,Fee,-1\n") {
        Err(IbkrError::MissingHeader { section }) => assert_eq!(section, "Fees"),
        _ => panic!("expected a missing header"),
    }
    let text = "Deposits & Withdrawals,Header,Currency,Settle Date,Description,Amount\n\
Deposits & Withdrawals,Data,USD,2025-02-03,Transfer out,lots\n";
    match ibkr_parse(text) {
        Err(IbkrError::BadAmount { section, value }) => {
            assert_eq!(section, "Deposits & Withdrawals");
            assert_eq!(value, "lots");
        }
        _ => panic!("expected a bad amount"),
    }
    let text = "Deposits & Withdrawals,Header,Currency,Settle Date,Description,Amount\n\
Deposits & Withdrawals,Data,USD,03/02/2025,Transfer out,1\n";
    assert!(matches!(ibkr_parse(text), Err(IbkrError::BadDate { .. })));
}

#[test]
fn ibkr_accounts() {
    let accounts = IbkrCsvParser::new().create_accounts();
    assert_eq!(accounts.len(), 2);
    assert_eq!(accounts[0].account_id, "IBKR_CHECKING");
    assert_eq!(accounts[1].account_id, "IBKR_SAVINGS");
}

fn alipay_bill() -> Vec<u8> {
    "支付宝交易明细\n\
交易时间,交易分类,交易对方,商品说明,收/支,金额,交易状态,交易订单号,备注\n\
2025-01-05 10:00:00,餐饮美食,Cafe,Coffee &amp; cake,支出,\"1,025.50\",交易成功,2025010500001,\n\
2025-01-06 11:00,其他,Shop,Closed order,不计收支,3.00,交易关闭,2025010600002,\n"
        .as_bytes()
        .to_vec()
}

fn alipay_parse(parser: &AlipayCsvParser, bytes: &[u8]) -> Result<Vec<matapan::records::Transaction<f64>>, AlipayError> {
    let table = read_alipay_table(bytes)?;
    let amounts: Vec<Option<Amount<f64>>> = table
        .records
        .iter()
        .map(|r| match r {
            Some(rec) => amount_text(rec, &table.cols).parse::<f64>().ok().map(amount),
            None => None,
        })
        .collect();
    parse_table(parser, &table, &amounts)
}

#[test]
fn alipay_payments_are_expenses_with_decoded_descriptions() {
    let parser = AlipayCsvParser::new("ALIPAY");
    let txns = alipay_parse(&parser, &alipay_bill()).ok().unwrap();
    assert_eq!(txns.len(), 1);
    let t = &txns[0];
    assert_eq!(t.date, "2025-01-05");
    assert_eq!(t.transaction_type, "expense");
    assert_eq!(t.from_account_id, "ALIPAY");
    assert_eq!(t.to_account_id, "EXTERNAL_PAYEE");
    assert_eq!(t.amount, 1025.5);
    assert_eq!(t.currency, "CNY");
    assert!(t.description.starts_with("Coffee & cake [餐饮美食]"), "{}", t.description);
}

#[test]
fn alipay_keeps_every_row_when_asked() {
    let parser = AlipayCsvParser::new("ALIPAY").with_only_successful(false).with_currency("EUR");
    let txns = alipay_parse(&parser, &alipay_bill()).ok().unwrap();
    assert_eq!(txns.len(), 2);
    assert_eq!(txns[1].date, "2025-01-06");
    assert_eq!(txns[1].currency, "EUR");
    assert_ne!(txns[0].txn_id, txns[1].txn_id);
}

#[test]
fn alipay_gbk_bills_are_decoded() {
    let text = "交易时间,交易分类,交易对方,商品说明,收/支,金额,交易状态,交易订单号\n\
2025-01-05 10:00:00,餐饮美食,Cafe,Tea,支出,5.00,交易成功,1\n";
    let (bytes, _, _) = encoding_rs::GB18030.encode(text);
    let parser = AlipayCsvParser::new("ALIPAY");
    let txns = alipay_parse(&parser, &bytes).ok().unwrap();
    assert_eq!(txns.len(), 1);
    assert_eq!(txns[0].amount, 5.0);
}

#[test]
fn alipay_errors() {
    let parser = AlipayCsvParser::new("ALIPAY");
    assert!(matches!(alipay_parse(&parser, "no table here".as_bytes()), Err(AlipayError::MissingHeaderRow)));
    let missing = "交易时间,交易分类\n2025-01-05 10:00:00,x\n";
    match alipay_parse(&parser, missing.as_bytes()) {
        Err(AlipayError::MissingColumn { name }) => assert_eq!(name, "交易对方"),
        _ => panic!("expected a missing column"),
    }
    let bad_date = "交易时间,交易分类,交易对方,商品说明,收/支,金额,交易状态,交易订单号\n\
05/01/2025,餐饮美食,Cafe,Tea,支出,5.00,交易成功,1\n";
    match alipay_parse(&parser, bad_date.as_bytes()) {
        Err(AlipayError::InvalidDatetime { raw, row }) => {
            assert_eq!(raw, "05/01/2025");
            assert_eq!(row, 2);
        }
        _ => panic!("expected a bad date"),
    }
}
