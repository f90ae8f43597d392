use vstd::prelude::*;
use crate::xdr;
use crate::amount::Stroops;
use crate::crypto::AccountView;
use crate::crypto::MuxedAccount;
use crate::crypto::account_option_view;
use crate::crypto::clone_account_option;
use crate::error::Error;
use crate::operations::change_trust::ChangeTrustBuilderView;
use crate::operations::change_trust::ChangeTrustOperation;
use crate::operations::change_trust::ChangeTrustOperationBuilder;
use crate::operations::change_trust::ChangeTrustView;
use crate::operations::change_trust::build_outcome;
use crate::operations::change_trust::change_trust_from_wire;
use crate::operations::change_trust::change_trust_to_wire;
use crate::operations::change_trust::converted_limit;
use crate::operations::change_trust::limit_acceptable;
use crate::operations::change_trust::limit_from_wire;
use crate::operations::change_trust::limit_to_wire;
use crate::operations::inflation::InflationOperation;
use crate::operations::inflation::InflationOperationBuilder;
use crate::operations::inflation::InflationView;
use crate::xdr::OperationBodyView;
use crate::xdr::WireOperationView;
use crate::xdr::wire_operation_wf;

pub mod change_trust;
pub mod inflation;

verus! {

/// What an operation holds.
pub enum OperationView {
    ChangeTrust(ChangeTrustView),
    Inflation(InflationView),
}

/// A single instruction of a transaction.
#[derive(Debug, PartialEq, Eq)]
pub enum Operation {
    ChangeTrust(ChangeTrustOperation),
    Inflation(InflationOperation),
}

impl View for Operation {
    type V = OperationView;

    open spec fn view(&self) -> OperationView {
        match *self {
            Operation::ChangeTrust(op) => OperationView::ChangeTrust(op@),
            Operation::Inflation(op) => OperationView::Inflation(op@),
        }
    }
}

impl Clone for Operation {
    fn clone(&self) -> (r: Operation)
        ensures
            r@ == self@,
    {
        match self {
            Operation::ChangeTrust(op) => Operation::ChangeTrust(op.clone()),
            Operation::Inflation(op) => Operation::Inflation(op.clone()),
        }
    }
}

/// The source account that an operation overrides the transaction's with,
/// if it does.
pub open spec fn operation_source(op: OperationView) -> Option<AccountView> {
    match op {
        OperationView::ChangeTrust(c) => c.source_account,
        OperationView::Inflation(i) => i.source_account,
    }
}

/// The wire structure of an operation.
pub open spec fn operation_to_wire(op: OperationView) -> WireOperationView {
    match op {
        OperationView::ChangeTrust(c) => WireOperationView {
            source_account: c.source_account,
            body: OperationBodyView::ChangeTrust(change_trust_to_wire(c)),
        },
        OperationView::Inflation(i) => WireOperationView {
            source_account: i.source_account,
            body: OperationBodyView::Inflation,
        },
    }
}

/// The operation that a wire structure stands for.
pub open spec fn operation_from_wire(x: WireOperationView) -> OperationView {
    match x.body {
        OperationBodyView::ChangeTrust(c) => OperationView::ChangeTrust(
            change_trust_from_wire(x.source_account, c),
        ),
        OperationBodyView::Inflation => OperationView::Inflation(
            InflationView { source_account: x.source_account },
        ),
    }
}

/// Whether an operation keeps what the builders enforce: its limit, where
/// it has one, is not below zero.
pub open spec fn operation_valid(op: OperationView) -> bool {
    match op {
        OperationView::ChangeTrust(c) => limit_acceptable(c.limit),
        OperationView::Inflation(_) => true,
    }
}

/// Whether an operation names its limit by the value that the wire keeps
/// for "no limit": an explicit limit of 0.
pub open spec fn has_zero_limit(op: OperationView) -> bool {
    match op {
        OperationView::ChangeTrust(c) => c.limit == Some(Stroops(0)),
        OperationView::Inflation(_) => false,
    }
}

/// Whether none of the operations has an explicit limit of 0.
pub open spec fn no_zero_limits(ops: Seq<OperationView>) -> bool {
    forall|i: int| 0 <= i < ops.len() ==> !has_zero_limit(#[trigger] ops[i])
}

/// Whether the addresses and assets of an operation can exist.
pub open spec fn operation_wf(op: OperationView) -> bool {
    wire_operation_wf(operation_to_wire(op))
}

impl Operation {
    /// A builder of trust-line changes.
    pub fn new_change_trust() -> (r: ChangeTrustOperationBuilder)
        ensures
            r@ == (ChangeTrustBuilderView { source_account: None, asset: None, limit: None }),
    {
        ChangeTrustOperationBuilder::new()
    }

    /// A builder of inflation operations.
    pub fn new_inflation() -> (r: InflationOperationBuilder)
        ensures
            r@ == (InflationView { source_account: None }),
    {
        InflationOperationBuilder::new()
    }

    /// Retrieves the operation source account.
    pub fn source_account(&self) -> (r: &Option<MuxedAccount>)
        ensures
            account_option_view(*r) == operation_source(self@),
    {
        match self {
            Operation::ChangeTrust(op) => op.source_account(),
            Operation::Inflation(op) => op.source_account(),
        }
    }

    /// Returns the wire structure of the operation. Never fails. The
    /// structure stands for this operation again, unless it has an explicit
    /// limit of 0.
    pub fn to_xdr(&self) -> (r: Result<xdr::Operation, Error>)
        ensures
            r is Ok,
            r->Ok_0@ == operation_to_wire(self@),
            !has_zero_limit(self@) ==> operation_from_wire(r->Ok_0@) == self@,
    {
        let source_account = clone_account_option(self.source_account());
        let body = match self {
            Operation::ChangeTrust(op) => op.to_xdr_operation_body(),
            Operation::Inflation(op) => op.to_xdr_operation_body(),
        };
        match body {
            Ok(body) => Ok(xdr::Operation { source_account, body }),
            Err(e) => Err(e),
        }
    }

    /// Creates the operation from its wire structure, without validating
    /// it again. Never fails.
    pub fn from_xdr(x: &xdr::Operation) -> (r: Result<Operation, Error>)
        ensures
            r is Ok,
            r->Ok_0@ == operation_from_wire(x@),
    {
        let source_account = clone_account_option(&x.source_account);
        match &x.body {
            xdr::OperationBody::ChangeTrust(c) => {
                match ChangeTrustOperation::from_xdr_operation_body(source_account, c) {
                    Ok(op) => Ok(Operation::ChangeTrust(op)),
                    Err(e) => Err(e),
                }
            },
            xdr::OperationBody::Inflation => {
                match InflationOperation::from_xdr_operation_body(source_account) {
                    Ok(op) => Ok(Operation::Inflation(op)),
                    Err(e) => Err(e),
                }
            },
        }
    }
}

/// Decoding what was encoded gives the operation back, for every operation
/// but one with an explicit limit of 0, which comes back without a limit.
pub proof fn lemma_operation_round_trip(op: OperationView)
    requires
        !has_zero_limit(op),
    ensures
        operation_from_wire(operation_to_wire(op)) == op,
{
}

/// An operation with an explicit limit of 0 comes back from the wire as the
/// same operation without a limit.
pub proof fn lemma_zero_limit_decodes_to_none(c: ChangeTrustView)
    requires
        c.limit == Some(Stroops(0)),
    ensures
        operation_from_wire(operation_to_wire(OperationView::ChangeTrust(c)))
            == OperationView::ChangeTrust(ChangeTrustView { limit: None, ..c }),
{
}

/// No limit and a limit of 0 have the same wire payload, with the wire
/// value 0, and the wire value 0 always decodes to no limit.
pub proof fn lemma_sentinel_equivalence(
    c: ChangeTrustView,
    source_account: Option<AccountView>,
    x: xdr::ChangeTrustOpView,
)
    ensures
        change_trust_to_wire(ChangeTrustView { limit: None, ..c }).limit == 0,
        change_trust_to_wire(ChangeTrustView { limit: Some(Stroops(0)), ..c })
            == change_trust_to_wire(ChangeTrustView { limit: None, ..c }),
        limit_to_wire(None) == 0 && limit_to_wire(Some(Stroops(0))) == 0,
        limit_from_wire(0) == None::<Stroops>,
        x.limit == 0 ==> change_trust_from_wire(source_account, x).limit is None,
        x.limit != 0 ==> change_trust_from_wire(source_account, x).limit == Some(Stroops(x.limit)),
{
}

/// Once the asset is set, giving the limit `n` and building succeeds if
/// and only if `n` is not below zero, and a negative `n` fails as a
/// negative limit.
pub proof fn lemma_limit_validation(b: ChangeTrustBuilderView, n: i64)
    requires
        b.asset is Some,
    ensures
        converted_limit(Some(Stroops(n))) == Ok::<Option<Stroops>, Error>(Some(Stroops(n))),
        converted_limit(Some(n)) == Ok::<Option<Stroops>, Error>(Some(Stroops(n))),
        build_outcome(ChangeTrustBuilderView { limit: Some(Stroops(n)), ..b }) is Ok <==> n >= 0,
        n < 0 ==> build_outcome(ChangeTrustBuilderView { limit: Some(Stroops(n)), ..b }) == Err::<
            ChangeTrustView,
            Error,
        >(Error::NegativeChangeTrustLimit),
{
}

/// Without an asset building fails as a missing asset, whatever else was
/// given; and whatever is built has an asset and no limit below zero.
pub proof fn lemma_required_asset(b: ChangeTrustBuilderView)
    ensures
        b.asset is None ==> build_outcome(b) == Err::<ChangeTrustView, Error>(
            Error::MissingChangeTrustAsset,
        ),
        build_outcome(b) matches Ok(c) ==> b.asset == Some(c.asset) && operation_valid(
            OperationView::ChangeTrust(c),
        ),
{
}

} // verus!
