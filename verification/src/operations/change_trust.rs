use vstd::prelude::*;
use crate::xdr;
use crate::amount::AmountLike;
use crate::amount::Stroops;
use crate::amount::representable;
use crate::asset::Asset;
use crate::asset::AssetView;
use crate::asset::asset_option_view;
use crate::crypto::AccountLike;
use crate::crypto::AccountView;
use crate::crypto::MuxedAccount;
use crate::crypto::account_option_view;
use crate::error::Error;
use crate::operations::Operation;
use crate::operations::OperationView;
use crate::xdr::ChangeTrustOpView;
use crate::xdr::OperationBodyView;

verus! {

/// What a trust-line change holds.
pub struct ChangeTrustView {
    pub source_account: Option<AccountView>,
    pub asset: AssetView,
    pub limit: Option<Stroops>,
}

/// What a builder of trust-line changes has been given so far.
pub struct ChangeTrustBuilderView {
    pub source_account: Option<AccountView>,
    pub asset: Option<AssetView>,
    pub limit: Option<Stroops>,
}

/// The wire value of a limit: 0 where none is given.
pub open spec fn limit_to_wire(limit: Option<Stroops>) -> i64 {
    match limit {
        None => 0,
        Some(l) => l.0,
    }
}

/// The limit that a wire value stands for: none where it is 0.
pub open spec fn limit_from_wire(value: i64) -> Option<Stroops> {
    if value == 0 {
        None
    } else {
        Some(Stroops(value))
    }
}

/// The wire payload of a trust-line change.
pub open spec fn change_trust_to_wire(op: ChangeTrustView) -> ChangeTrustOpView {
    ChangeTrustOpView { line: op.asset, limit: limit_to_wire(op.limit) }
}

/// The trust-line change that a wire payload and a source account stand
/// for. Nothing is asked of the limit's sign.
pub open spec fn change_trust_from_wire(
    source_account: Option<AccountView>,
    x: ChangeTrustOpView,
) -> ChangeTrustView {
    ChangeTrustView { source_account, asset: x.line, limit: limit_from_wire(x.limit) }
}

/// The amount that a value given to `with_limit` stands for, if it has one.
pub open spec fn converted_limit<A: AmountLike>(limit: Option<A>) -> Result<Option<Stroops>, Error> {
    match limit {
        None => Ok(None),
        Some(a) => if representable(a.units()) {
            Ok(Some(Stroops(a.units() as i64)))
        } else {
            Err(Error::InvalidStroopsAmount)
        },
    }
}

/// Whether a limit is one that builders accept: none, or one that is not
/// below zero.
pub open spec fn limit_acceptable(limit: Option<Stroops>) -> bool {
    match limit {
        Some(l) => l.0 >= 0,
        None => true,
    }
}

/// What `build` makes of what a builder was given: the operation, or the
/// constraint that is violated. A missing asset is reported before a
/// negative limit.
pub open spec fn build_outcome(b: ChangeTrustBuilderView) -> Result<ChangeTrustView, Error> {
    match b.asset {
        None => Err(Error::MissingChangeTrustAsset),
        Some(asset) => if limit_acceptable(b.limit) {
            Ok(ChangeTrustView { source_account: b.source_account, asset, limit: b.limit })
        } else {
            Err(Error::NegativeChangeTrustLimit)
        },
    }
}

/// An operation that creates, changes or removes a trust line.
#[derive(Debug, PartialEq, Eq)]
pub struct ChangeTrustOperation {
    source_account: Option<MuxedAccount>,
    asset: Asset,
    limit: Option<Stroops>,
}

impl View for ChangeTrustOperation {
    type V = ChangeTrustView;

    closed spec fn view(&self) -> ChangeTrustView {
        ChangeTrustView {
            source_account: account_option_view(self.source_account),
            asset: self.asset@,
            limit: self.limit,
        }
    }
}

impl Clone for ChangeTrustOperation {
    fn clone(&self) -> (r: ChangeTrustOperation)
        ensures
            r@ == self@,
    {
        ChangeTrustOperation {
            source_account: crate::crypto::clone_account_option(&self.source_account),
            asset: self.asset.clone(),
            limit: self.limit,
        }
    }
}

/// Accumulates the fields of a trust-line change.
#[derive(Debug)]
pub struct ChangeTrustOperationBuilder {
    source_account: Option<MuxedAccount>,
    asset: Option<Asset>,
    limit: Option<Stroops>,
}

impl View for ChangeTrustOperationBuilder {
    type V = ChangeTrustBuilderView;

    closed spec fn view(&self) -> ChangeTrustBuilderView {
        ChangeTrustBuilderView {
            source_account: account_option_view(self.source_account),
            asset: asset_option_view(self.asset),
            limit: self.limit,
        }
    }
}

impl ChangeTrustOperation {
    /// Retrieves the operation source account.
    pub fn source_account(&self) -> (r: &Option<MuxedAccount>)
        ensures
            account_option_view(*r) == self@.source_account,
    {
        &self.source_account
    }

    /// Retrieves the operation asset.
    pub fn asset(&self) -> (r: &Asset)
        ensures
            r@ == self@.asset,
    {
        &self.asset
    }

    /// Retrieves the operation limit.
    pub fn limit(&self) -> (r: &Option<Stroops>)
        ensures
            *r == self@.limit,
    {
        &self.limit
    }

    /// Returns the wire payload: the asset, and the limit with 0 standing
    /// for none. Never fails.
    pub fn to_xdr_operation_body(&self) -> (r: Result<xdr::OperationBody, Error>)
        ensures
            r is Ok,
            r->Ok_0@ == OperationBodyView::ChangeTrust(change_trust_to_wire(self@)),
    {
        let line = self.asset.clone();
        let limit = match &self.limit {
            None => xdr::Int64::new(0),
            Some(limit) => xdr::Int64::new(limit.to_i64()),
        };
        let inner = xdr::ChangeTrustOp { line, limit };
        Ok(xdr::OperationBody::ChangeTrust(inner))
    }

    /// Creates the operation from its wire payload. A wire limit of 0 gives
    /// no limit; any other value is taken as it is, negative or not. Never
    /// fails.
    pub fn from_xdr_operation_body(source_account: Option<MuxedAccount>, x: &xdr::ChangeTrustOp) -> (r:
        Result<ChangeTrustOperation, Error>)
        ensures
            r is Ok,
            r->Ok_0@ == change_trust_from_wire(account_option_view(source_account), x@),
    {
        let asset = x.line.clone();
        let limit = if x.limit.value == 0 {
            None
        } else {
            Some(Stroops::new(x.limit.value))
        };
        Ok(ChangeTrustOperation { source_account, asset, limit })
    }
}

impl ChangeTrustOperationBuilder {
    /// A builder that has been given nothing.
    pub fn new() -> (r: ChangeTrustOperationBuilder)
        ensures
            r@ == (ChangeTrustBuilderView { source_account: None, asset: None, limit: None }),
    {
        ChangeTrustOperationBuilder { source_account: None, asset: None, limit: None }
    }

    /// Sets the operation source account; the last call wins.
    pub fn with_source_account<S: AccountLike>(self, source: S) -> (r: ChangeTrustOperationBuilder)
        ensures
            r@ == (ChangeTrustBuilderView { source_account: Some(source.address()), ..self@ }),
    {
        let mut b = self;
        b.source_account = Some(source.into_account());
        b
    }

    /// Sets the asset of the trust line.
    pub fn with_asset(self, asset: Asset) -> (r: ChangeTrustOperationBuilder)
        ensures
            r@ == (ChangeTrustBuilderView { asset: Some(asset@), ..self@ }),
    {
        let mut b = self;
        b.asset = Some(asset);
        b
    }

    /// Sets or clears the limit. Fails with `InvalidStroopsAmount` exactly
    /// when a limit is given that no 64-bit amount can hold.
    pub fn with_limit<A: AmountLike>(self, limit: Option<A>) -> (r: Result<
        ChangeTrustOperationBuilder,
        Error,
    >)
        ensures
            match converted_limit(limit) {
                Ok(l) => r is Ok && r->Ok_0@ == (ChangeTrustBuilderView { limit: l, ..self@ }),
                Err(e) => r is Err && r->Err_0 == e,
            },
    {
        let mut b = self;
        match limit {
            None => {
                b.limit = None;
                Ok(b)
            },
            Some(a) => match a.to_stroops() {
                Ok(l) => {
                    b.limit = Some(l);
                    Ok(b)
                },
                Err(_) => Err(Error::InvalidStroopsAmount),
            },
        }
    }

    /// Validates what was given and yields the operation: fails with
    /// `MissingChangeTrustAsset` when no asset was set, otherwise with
    /// `NegativeChangeTrustLimit` when the limit is below zero.
    pub fn build(self) -> (r: Result<Operation, Error>)
        ensures
            match build_outcome(self@) {
                Ok(op) => r is Ok && r->Ok_0@ == OperationView::ChangeTrust(op),
                Err(e) => r is Err && r->Err_0 == e,
            },
    {
        let asset = match self.asset {
            None => {
                return Err(Error::MissingChangeTrustAsset);
            },
            Some(asset) => asset,
        };
        if let Some(limit) = &self.limit {
            if limit.to_i64() < 0 {
                return Err(Error::NegativeChangeTrustLimit);
            }
        }
        Ok(
            Operation::ChangeTrust(
                ChangeTrustOperation { source_account: self.source_account, asset, limit: self.limit },
            ),
        )
    }
}

} // verus!
