use vstd::prelude::*;
use crate::crypto::AccountLike;
use crate::crypto::AccountView;
use crate::crypto::MuxedAccount;
use crate::crypto::account_wf;
use crate::error::Error;
use crate::operations::Operation;
use crate::operations::OperationView;
use crate::operations::operation_wf;

verus! {

/// The smallest fee per operation that the network accepts.
pub const MIN_BASE_FEE: u32 = 100;

/// The number of bytes of a signature.
pub const SIGNATURE_LEN: usize = 64;

/// The number of bytes of a signer's hint.
pub const HINT_LEN: usize = 4;

/// What a sequence of operations holds.
pub open spec fn operations_view(ops: Seq<Operation>) -> Seq<OperationView> {
    ops.map_values(|op: Operation| op@)
}

/// What a finalized transaction holds.
pub struct TransactionView {
    pub source_account: AccountView,
    pub sequence: i64,
    pub fee: u32,
    pub operations: Seq<OperationView>,
}

/// What a builder of transactions has been given so far.
pub struct TransactionBuilderView {
    pub source_account: AccountView,
    pub sequence: i64,
    pub base_fee: u32,
    pub fee: Option<u32>,
    pub operations: Seq<OperationView>,
}

/// The transaction that a builder yields: with the explicit fee where one
/// was set, else with the base fee for each operation. There is none
/// without an operation, nor where the fee is beyond 32 bits.
pub open spec fn assembled(b: TransactionBuilderView) -> Result<TransactionView, Error> {
    if b.operations.len() == 0 {
        Err(Error::EmptyTransaction)
    } else {
        match b.fee {
            Some(fee) => Ok(
                TransactionView {
                    source_account: b.source_account,
                    sequence: b.sequence,
                    fee,
                    operations: b.operations,
                },
            ),
            None => if b.base_fee * b.operations.len() > u32::MAX {
                Err(Error::FeeOverflow)
            } else {
                Ok(
                    TransactionView {
                        source_account: b.source_account,
                        sequence: b.sequence,
                        fee: (b.base_fee * b.operations.len()) as u32,
                        operations: b.operations,
                    },
                )
            },
        }
    }
}

/// An ordered sequence of operations with the account that submits them,
/// its sequence number and the fee.
#[derive(Debug, PartialEq, Eq)]
pub struct Transaction {
    source_account: MuxedAccount,
    sequence: i64,
    fee: u32,
    operations: Vec<Operation>,
}

impl View for Transaction {
    type V = TransactionView;

    closed spec fn view(&self) -> TransactionView {
        TransactionView {
            source_account: self.source_account@,
            sequence: self.sequence,
            fee: self.fee,
            operations: operations_view(self.operations@),
        }
    }
}

/// Accumulates the operations of a transaction.
#[derive(Debug)]
pub struct TransactionBuilder {
    source_account: MuxedAccount,
    sequence: i64,
    base_fee: u32,
    fee: Option<u32>,
    operations: Vec<Operation>,
}

impl View for TransactionBuilder {
    type V = TransactionBuilderView;

    closed spec fn view(&self) -> TransactionBuilderView {
        TransactionBuilderView {
            source_account: self.source_account@,
            sequence: self.sequence,
            base_fee: self.base_fee,
            fee: self.fee,
            operations: operations_view(self.operations@),
        }
    }
}

/// A copy of a sequence of operations.
pub fn clone_operations(ops: &Vec<Operation>) -> (r: Vec<Operation>)
    ensures
        operations_view(r@) == operations_view(ops@),
{
    let mut out: Vec<Operation> = Vec::new();
    let mut i: usize = 0;
    while i < ops.len()
        invariant
            i <= ops.len(),
            out@.len() == i,
            forall|j: int| 0 <= j < i ==> out@[j]@ == ops@[j]@,
        decreases ops.len() - i,
    {
        out.push(ops[i].clone());
        i += 1;
    }
    assert(operations_view(out@) =~= operations_view(ops@));
    out
}

impl Transaction {
    /// A builder for a transaction of `source`, with its sequence number
    /// and the fee per operation.
    pub fn builder<S: AccountLike>(source: S, sequence: i64, base_fee: u32) -> (r:
        TransactionBuilder)
        ensures
            r@ == (TransactionBuilderView {
                source_account: source.address(),
                sequence,
                base_fee,
                fee: None,
                operations: Seq::empty(),
            }),
    {
        let r = TransactionBuilder {
            source_account: source.into_account(),
            sequence,
            base_fee,
            fee: None,
            operations: Vec::new(),
        };
        assert(operations_view(r.operations@) =~= Seq::empty());
        r
    }

    /// The transaction made of its parts, as they are.
    pub fn from_parts(
        source_account: MuxedAccount,
        sequence: i64,
        fee: u32,
        operations: Vec<Operation>,
    ) -> (r: Transaction)
        ensures
            r@ == (TransactionView {
                source_account: source_account@,
                sequence,
                fee,
                operations: operations_view(operations@),
            }),
    {
        Transaction { source_account, sequence, fee, operations }
    }

    /// The account that submits the transaction.
    pub fn source_account(&self) -> (r: &MuxedAccount)
        ensures
            r@ == self@.source_account,
    {
        &self.source_account
    }

    /// The sequence number.
    pub fn sequence(&self) -> (r: i64)
        ensures
            r == self@.sequence,
    {
        self.sequence
    }

    /// The fee of the whole transaction.
    pub fn fee(&self) -> (r: u32)
        ensures
            r == self@.fee,
    {
        self.fee
    }

    /// The operations, in the order in which they apply.
    pub fn operations(&self) -> (r: &Vec<Operation>)
        ensures
            operations_view(r@) == self@.operations,
    {
        &self.operations
    }

    /// The envelope of this transaction without any signature.
    pub fn to_envelope(&self) -> (r: TransactionEnvelope)
        ensures
            r@ == (EnvelopeView { tx: self@, signatures: Seq::empty() }),
    {
        let tx = Transaction {
            source_account: self.source_account.clone(),
            sequence: self.sequence,
            fee: self.fee,
            operations: clone_operations(&self.operations),
        };
        let r = TransactionEnvelope { tx, signatures: Vec::new() };
        assert(signatures_view(r.signatures@) =~= Seq::empty());
        r
    }
}

impl TransactionBuilder {
    /// Appends an operation.
    pub fn add_operation(self, op: Operation) -> (r: TransactionBuilder)
        ensures
            r@ == (TransactionBuilderView { operations: self@.operations.push(op@), ..self@ }),
    {
        let mut b = self;
        b.operations.push(op);
        assert(operations_view(b.operations@) =~= operations_view(self.operations@).push(op@));
        b
    }

    /// Sets the fee of the whole transaction, in place of the base fee for
    /// each operation.
    pub fn with_fee(self, fee: u32) -> (r: TransactionBuilder)
        ensures
            r@ == (TransactionBuilderView { fee: Some(fee), ..self@ }),
    {
        let mut b = self;
        b.fee = Some(fee);
        b
    }

    /// Finalizes the transaction: fails with `EmptyTransaction` when no
    /// operation was added, and with `FeeOverflow` when no fee was set and
    /// the base fee for each operation is beyond 32 bits.
    pub fn into_transaction(self) -> (r: Result<Transaction, Error>)
        ensures
            match assembled(self@) {
                Ok(tx) => r is Ok && r->Ok_0@ == tx,
                Err(e) => r is Err && r->Err_0 == e,
            },
    {
        let n = self.operations.len();
        if n == 0 {
            return Err(Error::EmptyTransaction);
        }
        let fee: u32 = match self.fee {
            Some(fee) => fee,
            None => {
                if self.base_fee == 0 {
                    assert(self.base_fee * n == 0) by (nonlinear_arith)
                        requires
                            self.base_fee == 0,
                    ;
                    0
                } else if n > 0xffff_ffff {
                    assert(self.base_fee * n > u32::MAX) by (nonlinear_arith)
                        requires
                            self.base_fee >= 1,
                            n > 0xffff_ffff,
                    ;
                    return Err(Error::FeeOverflow);
                } else {
                    assert(self.base_fee * n <= 0xffff_ffff * 0xffff_ffff) by (nonlinear_arith)
                        requires
                            self.base_fee <= 0xffff_ffff,
                            n <= 0xffff_ffff,
                    ;
                    let total: u64 = (self.base_fee as u64) * (n as u64);
                    if total > 0xffff_ffff {
                        return Err(Error::FeeOverflow);
                    }
                    total as u32
                }
            },
        };
        Ok(
            Transaction {
                source_account: self.source_account,
                sequence: self.sequence,
                fee,
                operations: self.operations,
            },
        )
    }
}

/// What a signature with its hint holds.
pub struct SignatureView {
    pub hint: Seq<u8>,
    pub signature: Seq<u8>,
}

/// A signature of 64 bytes with the 4 bytes that hint at the signer's key.
#[derive(Debug, PartialEq, Eq)]
pub struct DecoratedSignature {
    hint: Vec<u8>,
    signature: Vec<u8>,
}

impl View for DecoratedSignature {
    type V = SignatureView;

    closed spec fn view(&self) -> SignatureView {
        SignatureView { hint: self.hint@, signature: self.signature@ }
    }
}

impl DecoratedSignature {
    #[verifier::type_invariant]
    spec fn well_formed(self) -> bool {
        self.hint@.len() == HINT_LEN && self.signature@.len() == SIGNATURE_LEN
    }

    /// The signature with its hint, or `InvalidSignature` unless the hint
    /// has 4 bytes and the signature 64.
    pub fn new(hint: Vec<u8>, signature: Vec<u8>) -> (r: Result<DecoratedSignature, Error>)
        ensures
            hint@.len() == HINT_LEN && signature@.len() == SIGNATURE_LEN ==> r is Ok && r->Ok_0@ == (
            SignatureView { hint: hint@, signature: signature@ }),
            !(hint@.len() == HINT_LEN && signature@.len() == SIGNATURE_LEN) ==> r == Err::<
                DecoratedSignature,
                Error,
            >(Error::InvalidSignature),
    {
        if hint.len() == HINT_LEN && signature.len() == SIGNATURE_LEN {
            Ok(DecoratedSignature { hint, signature })
        } else {
            Err(Error::InvalidSignature)
        }
    }

    /// The 4 bytes of the hint.
    pub fn hint(&self) -> (r: &Vec<u8>)
        ensures
            r@ == self@.hint,
            r@.len() == HINT_LEN,
    {
        proof {
            use_type_invariant(self);
        }
        &self.hint
    }

    /// The 64 bytes of the signature.
    pub fn signature(&self) -> (r: &Vec<u8>)
        ensures
            r@ == self@.signature,
            r@.len() == SIGNATURE_LEN,
    {
        proof {
            use_type_invariant(self);
        }
        &self.signature
    }
}

/// What a sequence of signatures holds.
pub open spec fn signatures_view(sigs: Seq<DecoratedSignature>) -> Seq<SignatureView> {
    sigs.map_values(|s: DecoratedSignature| s@)
}

/// What an envelope holds.
pub struct EnvelopeView {
    pub tx: TransactionView,
    pub signatures: Seq<SignatureView>,
}

/// A finalized transaction with the signatures attached to it so far.
#[derive(Debug, PartialEq, Eq)]
pub struct TransactionEnvelope {
    tx: Transaction,
    signatures: Vec<DecoratedSignature>,
}

impl View for TransactionEnvelope {
    type V = EnvelopeView;

    closed spec fn view(&self) -> EnvelopeView {
        EnvelopeView { tx: self.tx@, signatures: signatures_view(self.signatures@) }
    }
}

impl TransactionEnvelope {
    /// The envelope made of a transaction and signatures, as they are.
    pub fn from_parts(tx: Transaction, signatures: Vec<DecoratedSignature>) -> (r:
        TransactionEnvelope)
        ensures
            r@ == (EnvelopeView { tx: tx@, signatures: signatures_view(signatures@) }),
    {
        TransactionEnvelope { tx, signatures }
    }

    /// The transaction.
    pub fn transaction(&self) -> (r: &Transaction)
        ensures
            r@ == self@.tx,
    {
        &self.tx
    }

    /// The signatures, in the order in which they were attached.
    pub fn signatures(&self) -> (r: &Vec<DecoratedSignature>)
        ensures
            signatures_view(r@) == self@.signatures,
    {
        &self.signatures
    }

    /// Attaches a signature behind those that are there; none is replaced
    /// and the transaction stays as it is.
    pub fn add_signature(&mut self, signature: DecoratedSignature)
        ensures
            final(self)@ == (EnvelopeView {
                tx: old(self)@.tx,
                signatures: old(self)@.signatures.push(signature@),
            }),
    {
        self.signatures.push(signature);
        assert(signatures_view(self.signatures@) =~= signatures_view(old(self).signatures@).push(
            signature@,
        ));
    }
}

/// Whether a signature has 64 bytes and its hint 4.
pub open spec fn signature_wf(sig: SignatureView) -> bool {
    sig.hint.len() == 4 && sig.signature.len() == 64
}


/// Whether the addresses and assets of a transaction can exist.
pub open spec fn transaction_wf(tx: TransactionView) -> bool {
    &&& account_wf(tx.source_account)
    &&& forall|i: int| 0 <= i < tx.operations.len() ==> operation_wf(#[trigger] tx.operations[i])
}

/// Whether the addresses and assets of an envelope can exist, and each of
/// its signatures has 64 bytes and a hint of 4.
pub open spec fn envelope_wf(e: EnvelopeView) -> bool {
    &&& transaction_wf(e.tx)
    &&& forall|i: int| 0 <= i < e.signatures.len() ==> signature_wf(#[trigger] e.signatures[i])
}

} // verus!
