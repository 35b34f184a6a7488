//! The normalized records every importer produces (accounts, instruments,
//! positions, transactions), with their mathematical views.
use vstd::prelude::*;

use crate::dates::{iso_date, iso_text, Date};
use crate::text::owned;

verus! {

pub open spec fn opt_view(o: Option<String>) -> Option<Seq<char>> {
    match o {
        Some(s) => Some(s@),
        None => None,
    }
}

/// Clones an optional string.
pub fn clone_opt(o: &Option<String>) -> (r: Option<String>)
    ensures
        opt_view(r) == opt_view(*o),
{
    match o {
        Some(s) => Some(s.clone()),
        None => None,
    }
}

/// A money movement between two accounts.
pub struct Transaction<A> {
    pub date: String,
    pub from_account_id: String,
    pub to_account_id: String,
    pub transaction_type: String,
    pub category: String,
    pub amount: A,
    pub currency: String,
    pub description: String,
    pub description_en: Option<String>,
    pub txn_id: String,
}

pub struct TransactionV<A> {
    pub date: Seq<char>,
    pub from_account_id: Seq<char>,
    pub to_account_id: Seq<char>,
    pub transaction_type: Seq<char>,
    pub category: Seq<char>,
    pub amount: A,
    pub currency: Seq<char>,
    pub description: Seq<char>,
    pub description_en: Option<Seq<char>>,
    pub txn_id: Seq<char>,
}

impl<A> View for Transaction<A> {
    type V = TransactionV<A>;

    open spec fn view(&self) -> TransactionV<A> {
        TransactionV {
            date: self.date@,
            from_account_id: self.from_account_id@,
            to_account_id: self.to_account_id@,
            transaction_type: self.transaction_type@,
            category: self.category@,
            amount: self.amount,
            currency: self.currency@,
            description: self.description@,
            description_en: opt_view(self.description_en),
            txn_id: self.txn_id@,
        }
    }
}

/// The record a statement row becomes.
pub open spec fn txn_v<A>(
    date: Date,
    from: Seq<char>,
    to: Seq<char>,
    ty: Seq<char>,
    amount: A,
    currency: Seq<char>,
    description: Seq<char>,
    txn_id: Seq<char>,
) -> TransactionV<A> {
    TransactionV {
        date: iso_text(date),
        from_account_id: from,
        to_account_id: to,
        transaction_type: ty,
        category: "uncategorized"@,
        amount,
        currency,
        description,
        description_en: None,
        txn_id,
    }
}

pub fn build_transaction_value<A>(
    date: &Date,
    from_account_id: String,
    to_account_id: String,
    transaction_type: String,
    amount: A,
    currency: String,
    description: String,
    txn_id: String,
) -> (t: Transaction<A>)
    ensures
        t@ == txn_v(
            *date,
            from_account_id@,
            to_account_id@,
            transaction_type@,
            amount,
            currency@,
            description@,
            txn_id@,
        ),
{
    Transaction {
        date: iso_date(date),
        from_account_id,
        to_account_id,
        transaction_type,
        category: owned("uncategorized"),
        amount,
        currency,
        description,
        description_en: None,
        txn_id,
    }
}

/// An account of the user or of a counterparty.
pub struct Account {
    pub account_id: String,
    pub institution: String,
    pub country: Option<String>,
    pub iban: Option<String>,
    pub bic: Option<String>,
    pub is_active: bool,
}

pub struct AccountV {
    pub account_id: Seq<char>,
    pub institution: Seq<char>,
    pub country: Option<Seq<char>>,
    pub iban: Option<Seq<char>>,
    pub bic: Option<Seq<char>>,
    pub is_active: bool,
}

impl View for Account {
    type V = AccountV;

    open spec fn view(&self) -> AccountV {
        AccountV {
            account_id: self.account_id@,
            institution: self.institution@,
            country: opt_view(self.country),
            iban: opt_view(self.iban),
            bic: opt_view(self.bic),
            is_active: self.is_active,
        }
    }
}

/// A tradable instrument.
pub struct Instrument {
    pub instrument_id: String,
    pub source: Option<String>,
    pub asset_category: Option<String>,
    pub description: Option<String>,
    pub security_id: Option<String>,
    pub instrument_type: Option<String>,
}

pub struct InstrumentV {
    pub instrument_id: Seq<char>,
    pub source: Option<Seq<char>>,
    pub asset_category: Option<Seq<char>>,
    pub description: Option<Seq<char>>,
    pub security_id: Option<Seq<char>>,
    pub instrument_type: Option<Seq<char>>,
}

impl View for Instrument {
    type V = InstrumentV;

    open spec fn view(&self) -> InstrumentV {
        InstrumentV {
            instrument_id: self.instrument_id@,
            source: opt_view(self.source),
            asset_category: opt_view(self.asset_category),
            description: opt_view(self.description),
            security_id: opt_view(self.security_id),
            instrument_type: opt_view(self.instrument_type),
        }
    }
}

impl Instrument {
    pub fn duplicate(&self) -> (r: Instrument)
        ensures
            r@ == self@,
    {
        Instrument {
            instrument_id: self.instrument_id.clone(),
            source: clone_opt(&self.source),
            asset_category: clone_opt(&self.asset_category),
            description: clone_opt(&self.description),
            security_id: clone_opt(&self.security_id),
            instrument_type: clone_opt(&self.instrument_type),
        }
    }
}

/// A holding of an instrument in an account on a date.
pub struct Position<A> {
    pub position_id: String,
    pub source: String,
    pub as_of_date: String,
    pub account_id: String,
    pub instrument_id: String,
    pub quantity: Option<A>,
    pub currency: Option<String>,
    pub cost_price: Option<A>,
    pub cost_basis: Option<A>,
    pub close_price: Option<A>,
    pub market_value: Option<A>,
    pub unrealized_pnl: Option<A>,
}

pub struct PositionV<A> {
    pub position_id: Seq<char>,
    pub source: Seq<char>,
    pub as_of_date: Seq<char>,
    pub account_id: Seq<char>,
    pub instrument_id: Seq<char>,
    pub quantity: Option<A>,
    pub currency: Option<Seq<char>>,
    pub cost_price: Option<A>,
    pub cost_basis: Option<A>,
    pub close_price: Option<A>,
    pub market_value: Option<A>,
    pub unrealized_pnl: Option<A>,
}

impl<A> View for Position<A> {
    type V = PositionV<A>;

    open spec fn view(&self) -> PositionV<A> {
        PositionV {
            position_id: self.position_id@,
            source: self.source@,
            as_of_date: self.as_of_date@,
            account_id: self.account_id@,
            instrument_id: self.instrument_id@,
            quantity: self.quantity,
            currency: opt_view(self.currency),
            cost_price: self.cost_price,
            cost_basis: self.cost_basis,
            close_price: self.close_price,
            market_value: self.market_value,
            unrealized_pnl: self.unrealized_pnl,
        }
    }
}

pub open spec fn seq_views<T: View>(s: Seq<T>) -> Seq<T::V> {
    s.map_values(|x: T| x@)
}

} // verus!
