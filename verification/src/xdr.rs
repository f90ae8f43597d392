use vstd::prelude::*;
use crate::asset::Asset;
use crate::asset::AssetView;
use crate::asset::asset_wf;
use crate::crypto::AccountView;
use crate::crypto::MuxedAccount;
use crate::crypto::account_option_view;
use crate::crypto::account_option_wf;

verus! {

/// A signed 64-bit integer as it stands on the wire.
#[derive(Debug, Clone, Copy, PartialEq, Eq, Structural)]
pub struct Int64 {
    pub value: i64,
}

impl Int64 {
    /// The wire integer `value`.
    pub fn new(value: i64) -> (r: Int64)
        ensures
            r.value == value,
    {
        Int64 { value }
    }
}

/// The wire structure of a trust-line change: the asset and the limit,
/// where a limit of 0 stands for "no limit given".
#[derive(Debug, PartialEq, Eq)]
pub struct ChangeTrustOp {
    pub line: Asset,
    pub limit: Int64,
}

/// What a `ChangeTrustOp` holds.
pub struct ChangeTrustOpView {
    pub line: AssetView,
    pub limit: i64,
}

impl View for ChangeTrustOp {
    type V = ChangeTrustOpView;

    open spec fn view(&self) -> ChangeTrustOpView {
        ChangeTrustOpView { line: self.line@, limit: self.limit.value }
    }
}

/// The wire structure of an operation's payload, one variant per kind.
#[derive(Debug, PartialEq, Eq)]
pub enum OperationBody {
    ChangeTrust(ChangeTrustOp),
    Inflation,
}

/// What an `OperationBody` holds.
pub enum OperationBodyView {
    ChangeTrust(ChangeTrustOpView),
    Inflation,
}

impl View for OperationBody {
    type V = OperationBodyView;

    open spec fn view(&self) -> OperationBodyView {
        match *self {
            OperationBody::ChangeTrust(x) => OperationBodyView::ChangeTrust(x@),
            OperationBody::Inflation => OperationBodyView::Inflation,
        }
    }
}

/// The wire structure of an operation: the optional source account and the
/// payload.
#[derive(Debug, PartialEq, Eq)]
pub struct Operation {
    pub source_account: Option<MuxedAccount>,
    pub body: OperationBody,
}

/// What a wire `Operation` holds.
pub struct WireOperationView {
    pub source_account: Option<AccountView>,
    pub body: OperationBodyView,
}

impl View for Operation {
    type V = WireOperationView;

    open spec fn view(&self) -> WireOperationView {
        WireOperationView {
            source_account: account_option_view(self.source_account),
            body: self.body@,
        }
    }
}

/// Whether the wire structure of an operation holds addresses and assets
/// that can exist.
pub open spec fn wire_operation_wf(w: WireOperationView) -> bool {
    &&& account_option_wf(w.source_account)
    &&& match w.body {
        OperationBodyView::ChangeTrust(c) => asset_wf(c.line),
        OperationBodyView::Inflation => true,
    }
}

} // verus!
