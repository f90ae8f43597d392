use vstd::prelude::*;
use crate::xdr;
use crate::crypto::AccountLike;
use crate::crypto::AccountView;
use crate::crypto::MuxedAccount;
use crate::crypto::account_option_view;
use crate::error::Error;
use crate::operations::Operation;
use crate::operations::OperationView;
use crate::xdr::OperationBodyView;

verus! {

/// What an inflation operation holds: only the optional source account.
pub struct InflationView {
    pub source_account: Option<AccountView>,
}

/// An operation that runs the inflation process; it has no payload.
#[derive(Debug, PartialEq, Eq)]
pub struct InflationOperation {
    source_account: Option<MuxedAccount>,
}

impl View for InflationOperation {
    type V = InflationView;

    closed spec fn view(&self) -> InflationView {
        InflationView { source_account: account_option_view(self.source_account) }
    }
}

impl Clone for InflationOperation {
    fn clone(&self) -> (r: InflationOperation)
        ensures
            r@ == self@,
    {
        InflationOperation {
            source_account: crate::crypto::clone_account_option(&self.source_account),
        }
    }
}

/// Accumulates the fields of an inflation operation.
#[derive(Debug)]
pub struct InflationOperationBuilder {
    source_account: Option<MuxedAccount>,
}

impl View for InflationOperationBuilder {
    type V = InflationView;

    closed spec fn view(&self) -> InflationView {
        InflationView { source_account: account_option_view(self.source_account) }
    }
}

impl InflationOperation {
    /// Retrieves the operation source account.
    pub fn source_account(&self) -> (r: &Option<MuxedAccount>)
        ensures
            account_option_view(*r) == self@.source_account,
    {
        &self.source_account
    }

    /// Returns the wire payload: the marker without fields. Never fails.
    pub fn to_xdr_operation_body(&self) -> (r: Result<xdr::OperationBody, Error>)
        ensures
            r is Ok,
            r->Ok_0@ == OperationBodyView::Inflation,
    {
        Ok(xdr::OperationBody::Inflation)
    }

    /// Creates the operation from its wire form, which holds nothing but
    /// the source account. Never fails.
    pub fn from_xdr_operation_body(source_account: Option<MuxedAccount>) -> (r: Result<
        InflationOperation,
        Error,
    >)
        ensures
            r is Ok,
            r->Ok_0@ == (InflationView { source_account: account_option_view(source_account) }),
    {
        Ok(InflationOperation { source_account })
    }
}

impl InflationOperationBuilder {
    /// A builder that has been given nothing.
    pub fn new() -> (r: InflationOperationBuilder)
        ensures
            r@ == (InflationView { source_account: None }),
    {
        InflationOperationBuilder { source_account: None }
    }

    /// Sets the operation source account; the last call wins.
    pub fn with_source_account<S: AccountLike>(self, source: S) -> (r: InflationOperationBuilder)
        ensures
            r@ == (InflationView { source_account: Some(source.address()) }),
    {
        let mut b = self;
        b.source_account = Some(source.into_account());
        b
    }

    /// Yields the operation, whatever was given.
    pub fn build(self) -> (r: Operation)
        ensures
            r@ == OperationView::Inflation(self@),
    {
        Operation::Inflation(InflationOperation { source_account: self.source_account })
    }
}

} // verus!
