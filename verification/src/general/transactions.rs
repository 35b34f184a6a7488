//! What the AI model proposed, checked and completed into transactions.
use vstd::prelude::*;

use super::accounts::GeneralParser;
use super::issues::{issue_views, FormatIssue, FormatIssueV, IssueLevel};
use super::normalize::{
    default_from_account, default_from_spec, default_to_account, default_to_spec,
    infer_type_from_amount, iso_date_shape, looks_like_iso_date, normalize_account_id,
    normalize_account_id_spec, normalize_text, normalize_text_spec, type_from_sign,
};
use super::unfold::UnfoldedInput;
use crate::hashing::{hex_spec, prefixed_digest_id, sha256, utf8};
use crate::idset::{add_once, push_unique};
use crate::money::{Amount, AmountV, Sign};
use crate::records::{opt_view, seq_views, Transaction, TransactionV};
use crate::text::{concat3, decimal, decimal_string, owned, same, to_uppercase, trim, trim_spec, unicode_upper, views};

verus! {

broadcast use vstd::string::group_string_axioms;

/// An account the model found.
pub struct AiAccountDraft {
    pub account_id: String,
}

/// A transaction as the model proposed it.
pub struct AiTransactionDraft<A> {
    pub date: String,
    pub amount: Amount<A>,
    pub currency: Option<String>,
    pub description: String,
    pub category: Option<String>,
    pub transaction_type: Option<String>,
    pub from_account_id: Option<String>,
    pub to_account_id: Option<String>,
    pub txn_id: Option<String>,
}

pub struct AiTransactionDraftV<A> {
    pub date: Seq<char>,
    pub amount: AmountV<A>,
    pub currency: Option<Seq<char>>,
    pub description: Seq<char>,
    pub category: Option<Seq<char>>,
    pub transaction_type: Option<Seq<char>>,
    pub from_account_id: Option<Seq<char>>,
    pub to_account_id: Option<Seq<char>>,
    pub txn_id: Option<Seq<char>>,
}

impl<A> View for AiTransactionDraft<A> {
    type V = AiTransactionDraftV<A>;

    open spec fn view(&self) -> AiTransactionDraftV<A> {
        AiTransactionDraftV {
            date: self.date@,
            amount: self.amount@,
            currency: opt_view(self.currency),
            description: self.description@,
            category: opt_view(self.category),
            transaction_type: opt_view(self.transaction_type),
            from_account_id: opt_view(self.from_account_id),
            to_account_id: opt_view(self.to_account_id),
            txn_id: opt_view(self.txn_id),
        }
    }
}

/// The model's whole reply.
pub struct AiParsePayload<A> {
    pub accounts: Vec<AiAccountDraft>,
    pub transactions: Vec<AiTransactionDraft<A>>,
    pub issues: Vec<FormatIssue>,
}

pub open spec fn draft_views<A>(v: Seq<AiTransactionDraft<A>>) -> Seq<AiTransactionDraftV<A>> {
    v.map_values(|d: AiTransactionDraft<A>| d@)
}

pub open spec fn account_draft_views(v: Seq<AiAccountDraft>) -> Seq<Seq<char>> {
    v.map_values(|a: AiAccountDraft| a.account_id@)
}

/// `o` when present and non-empty, else `default`.
pub open spec fn non_empty_or(o: Option<Seq<char>>, default: Seq<char>) -> Seq<char> {
    match o {
        Some(s) => if s.len() > 0 {
            s
        } else {
            default
        },
        None => default,
    }
}

pub open spec fn map_opt(o: Option<Seq<char>>, f: spec_fn(Seq<char>) -> Seq<char>) -> Option<Seq<char>> {
    match o {
        Some(s) => Some(f(s)),
        None => None,
    }
}

pub open spec fn known_type(t: Seq<char>) -> bool {
    t == "expense"@ || t == "income"@ || t == "internal_transfer"@
}

/// The text hashed into a generated identifier.
pub open spec fn gen_key(
    date: Seq<char>,
    from: Seq<char>,
    to: Seq<char>,
    amount_text: Seq<char>,
    currency: Seq<char>,
    description: Seq<char>,
    row_index: nat,
) -> Seq<char> {
    date + "|"@ + from + "|"@ + to + "|"@ + amount_text + "|"@ + currency + "|"@ + description + "|"@
        + decimal(row_index)
}

/// `"GEN-<24 hex digits of SHA-256(key)>"`.
pub open spec fn gen_txn_id_spec(
    date: Seq<char>,
    from: Seq<char>,
    to: Seq<char>,
    amount_text: Seq<char>,
    currency: Seq<char>,
    description: Seq<char>,
    row_index: nat,
) -> Seq<char> {
    "GEN"@ + "-"@ + hex_spec(
        sha256(utf8(gen_key(date, from, to, amount_text, currency, description, row_index))).take(12),
    )
}

/// Identifier of a proposed transaction that came without one;
/// `amount_text` is its magnitude with six decimals.
pub fn make_txn_id(
    date: &str,
    from_account_id: &str,
    to_account_id: &str,
    amount_text: &str,
    currency: &str,
    description: &str,
    row_idx: usize,
) -> (out: String)
    ensures
        out@ == gen_txn_id_spec(
            date@,
            from_account_id@,
            to_account_id@,
            amount_text@,
            currency@,
            description@,
            row_idx as nat,
        ),
{
    let mut key = owned(date);
    key.append("|");
    key.append(from_account_id);
    key.append("|");
    key.append(to_account_id);
    key.append("|");
    key.append(amount_text);
    key.append("|");
    key.append(currency);
    key.append("|");
    key.append(description);
    key.append("|");
    key.append(decimal_string(row_idx).as_str());
    prefixed_digest_id("GEN", key.as_str(), 12)
}

pub open spec fn warning_at(code: Seq<char>, message: Seq<char>, path: Seq<char>, row: nat) -> FormatIssueV {
    FormatIssueV {
        level: IssueLevel::Warning,
        code,
        message,
        file: Some(path),
        sheet: None,
        row: Some(row),
    }
}

/// Transactions, issues and used account identifiers.
pub type DraftAcc<A> = (Seq<TransactionV<A>>, Seq<FormatIssueV>, Seq<Seq<char>>);

/// The effect of the draft at index `idx`: its date and type are checked (an
/// issue notes each fix), its accounts default from its type and count as
/// used, a zero amount drops it, and the rest is normalized.
pub open spec fn draft_step<A>(
    parser_account_id: Seq<char>,
    default_currency: Seq<char>,
    path: Seq<char>,
    acc: DraftAcc<A>,
    d: AiTransactionDraftV<A>,
    idx: nat,
) -> DraftAcc<A> {
    let (txns, issues, used) = acc;
    let date = trim_spec(d.date);
    let issues = if !iso_date_shape(date) {
        issues.push(
            warning_at(
                "invalid_date_normalized"@,
                "AI produced non-ISO date '"@ + date + "'"@,
                path,
                idx + 1,
            ),
        )
    } else {
        issues
    };
    let proposed = match d.transaction_type {
        Some(t) => t,
        None => type_from_sign(d.amount.sign),
    };
    let issues = if !known_type(proposed) {
        issues.push(
            warning_at(
                "invalid_transaction_type"@,
                "Unsupported transaction type '"@ + proposed + "', fallback to expense/income"@,
                path,
                idx + 1,
            ),
        )
    } else {
        issues
    };
    let ty = if known_type(proposed) {
        proposed
    } else {
        type_from_sign(d.amount.sign)
    };
    let from = non_empty_or(
        map_opt(d.from_account_id, |s: Seq<char>| normalize_account_id_spec(s)),
        default_from_spec(parser_account_id, ty),
    );
    let to = non_empty_or(
        map_opt(d.to_account_id, |s: Seq<char>| normalize_account_id_spec(s)),
        default_to_spec(parser_account_id, ty),
    );
    let used = add_once(add_once(used, from), to);
    if d.amount.sign == Sign::Zero {
        (
            txns,
            issues.push(
                warning_at(
                    "zero_amount_transaction"@,
                    "Skipping zero amount transaction"@,
                    path,
                    idx + 1,
                ),
            ),
            used,
        )
    } else {
        let description = normalize_text_spec(d.description);
        let category = non_empty_or(
            map_opt(d.category, |s: Seq<char>| normalize_text_spec(s)),
            "uncategorized"@,
        );
        let txn_id = non_empty_or(
            map_opt(d.txn_id, |s: Seq<char>| normalize_text_spec(s)),
            gen_txn_id_spec(
                date,
                from,
                to,
                d.amount.magnitude_fixed6,
                match d.currency {
                    Some(c) => c,
                    None => default_currency,
                },
                description,
                idx,
            ),
        );
        let currency = non_empty_or(
            map_opt(d.currency, |s: Seq<char>| unicode_upper(normalize_text_spec(s))),
            unicode_upper(default_currency),
        );
        let t = TransactionV {
            date,
            from_account_id: from,
            to_account_id: to,
            transaction_type: ty,
            category,
            amount: d.amount.magnitude,
            currency,
            description,
            description_en: None,
            txn_id,
        };
        (txns.push(t), issues, used)
    }
}

pub open spec fn drafts_fold<A>(
    parser_account_id: Seq<char>,
    default_currency: Seq<char>,
    path: Seq<char>,
    start: DraftAcc<A>,
    drafts: Seq<AiTransactionDraftV<A>>,
    n: int,
) -> DraftAcc<A>
    decreases n,
{
    if n <= 0 {
        start
    } else {
        draft_step(
            parser_account_id,
            default_currency,
            path,
            drafts_fold(parser_account_id, default_currency, path, start, drafts, n - 1),
            drafts[n - 1],
            (n - 1) as nat,
        )
    }
}

/// All drafts in order, then an error noted when none became a transaction.
pub open spec fn payload_spec<A>(
    parser_account_id: Seq<char>,
    default_currency: Seq<char>,
    path: Seq<char>,
    issues: Seq<FormatIssueV>,
    used: Seq<Seq<char>>,
    drafts: Seq<AiTransactionDraftV<A>>,
) -> DraftAcc<A> {
    let r = drafts_fold(
        parser_account_id,
        default_currency,
        path,
        (Seq::empty(), issues, used),
        drafts,
        drafts.len() as int,
    );
    if r.0.len() == 0 {
        (
            r.0,
            r.1.push(
                FormatIssueV {
                    level: IssueLevel::Error,
                    code: "no_transactions_produced"@,
                    message: "AI parsing did not produce any transactions"@,
                    file: Some(path),
                    sheet: None,
                    row: None,
                },
            ),
            r.2,
        )
    } else {
        r
    }
}

fn warning_exec(code: &str, message: String, path: &str, row: usize) -> (i: FormatIssue)
    ensures
        i@ == warning_at(code@, message@, path@, row as nat),
{
    FormatIssue {
        level: IssueLevel::Warning,
        code: owned(code),
        message,
        file: Some(owned(path)),
        sheet: None,
        row: Some(row),
    }
}

fn push_issue(issues: &mut Vec<FormatIssue>, i: FormatIssue)
    ensures
        issue_views(final(issues)@) == issue_views(old(issues)@).push(i@),
{
    issues.push(i);
    assert(issue_views(issues@) =~= issue_views(old(issues)@).push(i@));
}

fn normalized_account_or(o: &Option<String>, default: String) -> (out: String)
    ensures
        out@ == non_empty_or(
            map_opt(opt_view(*o), |s: Seq<char>| normalize_account_id_spec(s)),
            default@,
        ),
{
    match o {
        Some(s) => {
            let n = normalize_account_id(s.as_str());
            if n.unicode_len() > 0 {
                n
            } else {
                default
            }
        },
        None => default,
    }
}

fn normalized_text_or(o: &Option<String>, default: String) -> (out: String)
    ensures
        out@ == non_empty_or(map_opt(opt_view(*o), |s: Seq<char>| normalize_text_spec(s)), default@),
{
    match o {
        Some(s) => {
            let n = normalize_text(s.as_str());
            if n.unicode_len() > 0 {
                n
            } else {
                default
            }
        },
        None => default,
    }
}

fn draft_currency(o: &Option<String>, default_currency: &str) -> (out: String)
    ensures
        out@ == non_empty_or(
            map_opt(opt_view(*o), |s: Seq<char>| unicode_upper(normalize_text_spec(s))),
            unicode_upper(default_currency@),
        ),
{
    match o {
        Some(s) => {
            let n = to_uppercase(normalize_text(s.as_str()).as_str());
            if n.unicode_len() > 0 {
                n
            } else {
                to_uppercase(default_currency)
            }
        },
        None => to_uppercase(default_currency),
    }
}

fn process_draft<A: Copy>(
    parser_account_id: &str,
    default_currency: &str,
    file_path: &str,
    draft: &AiTransactionDraft<A>,
    idx: usize,
    out: &mut Vec<Transaction<A>>,
    issues: &mut Vec<FormatIssue>,
    used: &mut Vec<String>,
)
    requires
        idx < usize::MAX,
    ensures
        draft_step(
            parser_account_id@,
            default_currency@,
            file_path@,
            (seq_views(old(out)@), issue_views(old(issues)@), views(old(used)@)),
            draft@,
            idx as nat,
        ) == (seq_views(final(out)@), issue_views(final(issues)@), views(final(used)@)),
{
    let date = trim(draft.date.as_str());
    if !looks_like_iso_date(date.as_str()) {
        let message = concat3("AI produced non-ISO date '", date.as_str(), "'");
        push_issue(issues, warning_exec("invalid_date_normalized", message, file_path, idx + 1));
    }
    let proposed = match &draft.transaction_type {
        Some(t) => t.clone(),
        None => infer_type_from_amount(draft.amount.sign),
    };
    let known = same(proposed.as_str(), "expense") || same(proposed.as_str(), "income") || same(
        proposed.as_str(),
        "internal_transfer",
    );
    let tx_type = if !known {
        let message = concat3(
            "Unsupported transaction type '",
            proposed.as_str(),
            "', fallback to expense/income",
        );
        push_issue(issues, warning_exec("invalid_transaction_type", message, file_path, idx + 1));
        infer_type_from_amount(draft.amount.sign)
    } else {
        proposed
    };
    let from_account_id = normalized_account_or(
        &draft.from_account_id,
        default_from_account(parser_account_id, tx_type.as_str()),
    );
    let to_account_id = normalized_account_or(
        &draft.to_account_id,
        default_to_account(parser_account_id, tx_type.as_str()),
    );
    push_unique(used, &from_account_id);
    push_unique(used, &to_account_id);
    match draft.amount.sign {
        Sign::Zero => {
            push_issue(
                issues,
                warning_exec(
                    "zero_amount_transaction",
                    owned("Skipping zero amount transaction"),
                    file_path,
                    idx + 1,
                ),
            );
            return;
        },
        _ => {},
    }
    let description = normalize_text(draft.description.as_str());
    let category = normalized_text_or(&draft.category, owned("uncategorized"));
    let hash_currency = match &draft.currency {
        Some(c) => c.clone(),
        None => owned(default_currency),
    };
    let generated = make_txn_id(
        date.as_str(),
        from_account_id.as_str(),
        to_account_id.as_str(),
        draft.amount.magnitude_fixed6.as_str(),
        hash_currency.as_str(),
        description.as_str(),
        idx,
    );
    let txn_id = normalized_text_or(&draft.txn_id, generated);
    let currency = draft_currency(&draft.currency, default_currency);
    let t = Transaction {
        date,
        from_account_id,
        to_account_id,
        transaction_type: tx_type,
        category,
        amount: draft.amount.magnitude,
        currency,
        description,
        description_en: None,
        txn_id,
    };
    let ghost before = seq_views(out@);
    out.push(t);
    assert(seq_views(out@) =~= before.push(t@));
}

/// Checks and completes the proposed transactions, appending the issues
/// met to `issues` and the accounts used to `used_account_ids`.
pub fn ai_payload_to_transactions<A: Copy>(
    payload: &AiParsePayload<A>,
    parser_account_id: &str,
    default_currency: &str,
    file_path: &str,
    issues: &mut Vec<FormatIssue>,
    used_account_ids: &mut Vec<String>,
) -> (out: Vec<Transaction<A>>)
    ensures
        payload_spec(
            parser_account_id@,
            default_currency@,
            file_path@,
            issue_views(old(issues)@),
            views(old(used_account_ids)@),
            draft_views(payload.transactions@),
        ) == (seq_views(out@), issue_views(final(issues)@), views(final(used_account_ids)@)),
{
    let ghost drafts = draft_views(payload.transactions@);
    let ghost start = (Seq::<TransactionV<A>>::empty(), issue_views(issues@), views(used_account_ids@));
    let mut out: Vec<Transaction<A>> = Vec::new();
    let mut k: usize = 0;
    assert(seq_views(out@) =~= Seq::<TransactionV<A>>::empty());
    while k < payload.transactions.len()
        invariant
            k <= payload.transactions.len(),
            drafts == draft_views(payload.transactions@),
            drafts_fold(parser_account_id@, default_currency@, file_path@, start, drafts, k as int) == (
                seq_views(out@),
                issue_views(issues@),
                views(used_account_ids@),
            ),
        decreases payload.transactions.len() - k,
    {
        process_draft(
            parser_account_id,
            default_currency,
            file_path,
            &payload.transactions[k],
            k,
            &mut out,
            issues,
            used_account_ids,
        );
        k = k + 1;
    }
    if out.len() == 0 {
        push_issue(
            issues,
            FormatIssue {
                level: IssueLevel::Error,
                code: owned("no_transactions_produced"),
                message: owned("AI parsing did not produce any transactions"),
                file: Some(owned(file_path)),
                sheet: None,
                row: None,
            },
        );
    }
    out
}

/// What an import of one file produced.
pub struct ParseTransactionsOutput<A> {
    pub transactions: Vec<Transaction<A>>,
    pub used_account_ids: Vec<String>,
    pub issues: Vec<FormatIssue>,
}

/// The used accounts before the drafts are read: the parser's own account,
/// then each non-empty normalized account the model found.
pub open spec fn found_accounts(parser_account_id: Seq<char>, found: Seq<Seq<char>>, n: int) -> Seq<Seq<char>>
    decreases n,
{
    if n <= 0 {
        seq![parser_account_id]
    } else {
        let prev = found_accounts(parser_account_id, found, n - 1);
        let id = normalize_account_id_spec(found[n - 1]);
        if id.len() > 0 {
            add_once(prev, id)
        } else {
            prev
        }
    }
}

/// The import of one file: the unfolding's issues and the model's, then the
/// drafts checked against the parser's settings.
pub open spec fn collect_spec<A>(
    parser_account_id: Seq<char>,
    default_currency: Seq<char>,
    path: Seq<char>,
    unfolded_issues: Seq<FormatIssueV>,
    payload_issues: Seq<FormatIssueV>,
    found: Seq<Seq<char>>,
    drafts: Seq<AiTransactionDraftV<A>>,
) -> DraftAcc<A> {
    payload_spec(
        parser_account_id,
        default_currency,
        path,
        unfolded_issues + payload_issues,
        found_accounts(parser_account_id, found, found.len() as int),
        drafts,
    )
}

fn append_issues(dst: &mut Vec<FormatIssue>, src: &Vec<FormatIssue>)
    ensures
        issue_views(final(dst)@) == issue_views(old(dst)@) + issue_views(src@),
{
    let mut k: usize = 0;
    while k < src.len()
        invariant
            k <= src.len(),
            issue_views(dst@) == issue_views(old(dst)@) + issue_views(src@).take(k as int),
        decreases src.len() - k,
    {
        let ghost before = issue_views(dst@);
        dst.push(src[k].duplicate());
        assert(issue_views(dst@) =~= before.push(src@[k as int]@));
        assert(issue_views(src@).take(k + 1) =~= issue_views(src@).take(k as int).push(src@[k as int]@));
        assert(issue_views(dst@) =~= issue_views(old(dst)@) + issue_views(src@).take(k + 1));
        k = k + 1;
    }
    assert(issue_views(src@).take(src.len() as int) =~= issue_views(src@));
}

/// Completes the import of one file from its unfolded form and the model's
/// reply.
pub fn collect_parsed_transactions<A: Copy>(
    parser: &GeneralParser,
    unfolded: &UnfoldedInput,
    payload: &AiParsePayload<A>,
    input_file_path: &str,
) -> (r: ParseTransactionsOutput<A>)
    ensures
        collect_spec(
            parser.account_id@,
            parser.default_currency@,
            input_file_path@,
            issue_views(unfolded.issues@),
            issue_views(payload.issues@),
            account_draft_views(payload.accounts@),
            draft_views(payload.transactions@),
        ) == (seq_views(r.transactions@), issue_views(r.issues@), views(r.used_account_ids@)),
{
    let mut issues: Vec<FormatIssue> = Vec::new();
    assert(issue_views(issues@) =~= Seq::<FormatIssueV>::empty());
    append_issues(&mut issues, &unfolded.issues);
    append_issues(&mut issues, &payload.issues);
    assert(issue_views(issues@) =~= issue_views(unfolded.issues@) + issue_views(payload.issues@));
    let ghost found = account_draft_views(payload.accounts@);
    let mut used: Vec<String> = Vec::new();
    used.push(parser.account_id.clone());
    assert(views(used@) =~= seq![parser.account_id@]);
    let mut k: usize = 0;
    while k < payload.accounts.len()
        invariant
            k <= payload.accounts.len(),
            found == account_draft_views(payload.accounts@),
            views(used@) == found_accounts(parser.account_id@, found, k as int),
        decreases payload.accounts.len() - k,
    {
        let id = normalize_account_id(payload.accounts[k].account_id.as_str());
        if id.unicode_len() > 0 {
            push_unique(&mut used, &id);
        }
        k = k + 1;
    }
    let transactions = ai_payload_to_transactions(
        payload,
        parser.account_id.as_str(),
        parser.default_currency.as_str(),
        input_file_path,
        &mut issues,
        &mut used,
    );
    ParseTransactionsOutput { transactions, used_account_ids: used, issues }
}

} // verus!

verus! {

/// The request put to the model: the parser's defaults, the feedback on
/// format issues, and the unfolded input as JSON.
pub open spec fn user_prompt_spec(
    account_id: Seq<char>,
    institution: Seq<char>,
    currency: Seq<char>,
    feedback: Seq<char>,
    unfolded_json: Seq<char>,
) -> Seq<char> {
    "Normalize this unfolded statement into Matapan transaction elements.\nDefault account_id: "@
        + account_id + "\nDefault institution: "@ + institution + "\nDefault currency: "@ + currency
        + "\nInput format feedback (important):\n"@ + feedback + "\nUnfolded input JSON:\n"@
        + unfolded_json
}

pub fn user_prompt(
    account_id: &str,
    institution: &str,
    currency: &str,
    feedback: &str,
    unfolded_json: &str,
) -> (out: String)
    ensures
        out@ == user_prompt_spec(account_id@, institution@, currency@, feedback@, unfolded_json@),
{
    let mut out = owned(
        "Normalize this unfolded statement into Matapan transaction elements.\nDefault account_id: ",
    );
    out.append(account_id);
    out.append("\nDefault institution: ");
    out.append(institution);
    out.append("\nDefault currency: ");
    out.append(currency);
    out.append("\nInput format feedback (important):\n");
    out.append(feedback);
    out.append("\nUnfolded input JSON:\n");
    out.append(unfolded_json);
    out
}

} // verus!
