use vstd::prelude::*;
use crate::error::Error;

verus! {

/// The number of bytes of a public key.
pub const KEY_LEN: usize = 32;

/// The public key of an account: exactly 32 bytes.
#[derive(Debug, PartialEq, Eq)]
pub struct PublicKey {
    bytes: Vec<u8>,
}

impl View for PublicKey {
    type V = Seq<u8>;

    closed spec fn view(&self) -> Seq<u8> {
        self.bytes@
    }
}

impl Clone for PublicKey {
    fn clone(&self) -> (r: PublicKey)
        ensures
            r@ == self@,
    {
        proof {
            use_type_invariant(self);
        }
        let bytes = self.bytes.clone();
        assert(bytes@ =~= self.bytes@);
        PublicKey { bytes }
    }
}

impl PublicKey {
    #[verifier::type_invariant]
    spec fn well_formed(self) -> bool {
        self.bytes@.len() == KEY_LEN
    }

    /// The key made of `bytes`, or `InvalidKeyLength` unless there are 32.
    pub fn from_bytes(bytes: Vec<u8>) -> (r: Result<PublicKey, Error>)
        ensures
            bytes@.len() == KEY_LEN ==> r is Ok && r->Ok_0@ == bytes@,
            bytes@.len() != KEY_LEN ==> r == Err::<PublicKey, Error>(Error::InvalidKeyLength),
    {
        if bytes.len() == KEY_LEN {
            Ok(PublicKey { bytes })
        } else {
            Err(Error::InvalidKeyLength)
        }
    }

    /// The 32 bytes of the key.
    pub fn as_bytes(&self) -> (r: &Vec<u8>)
        ensures
            r@ == self@,
            r@.len() == KEY_LEN,
    {
        proof {
            use_type_invariant(self);
        }
        &self.bytes
    }
}

/// What an account address is: a key, or a key with a 64-bit sub-account
/// number.
pub enum AccountView {
    Ed25519(Seq<u8>),
    Muxed(u64, Seq<u8>),
}

/// The address of an account.
#[derive(Debug, PartialEq, Eq)]
pub enum MuxedAccount {
    Ed25519(PublicKey),
    Muxed { id: u64, key: PublicKey },
}

impl View for MuxedAccount {
    type V = AccountView;

    open spec fn view(&self) -> AccountView {
        match *self {
            MuxedAccount::Ed25519(key) => AccountView::Ed25519(key@),
            MuxedAccount::Muxed { id, key } => AccountView::Muxed(id, key@),
        }
    }
}

impl Clone for MuxedAccount {
    fn clone(&self) -> (r: MuxedAccount)
        ensures
            r@ == self@,
    {
        match self {
            MuxedAccount::Ed25519(key) => MuxedAccount::Ed25519(key.clone()),
            MuxedAccount::Muxed { id, key } => MuxedAccount::Muxed { id: *id, key: key.clone() },
        }
    }
}

/// The view of an address that may be absent.
pub open spec fn account_option_view(account: Option<MuxedAccount>) -> Option<AccountView> {
    match account {
        Some(a) => Some(a@),
        None => None,
    }
}

/// A copy of an address that may be absent.
pub fn clone_account_option(account: &Option<MuxedAccount>) -> (r: Option<MuxedAccount>)
    ensures
        account_option_view(r) == account_option_view(*account),
{
    match account {
        Some(a) => Some(a.clone()),
        None => None,
    }
}

/// A value that names an account.
pub trait AccountLike: Sized {
    /// The address that the value names.
    spec fn address(self) -> AccountView;

    /// The value as an address.
    fn into_account(self) -> (r: MuxedAccount)
        ensures
            r@ == self.address(),
    ;
}

impl AccountLike for MuxedAccount {
    open spec fn address(self) -> AccountView {
        self@
    }

    fn into_account(self) -> (r: MuxedAccount) {
        self
    }
}

impl AccountLike for PublicKey {
    open spec fn address(self) -> AccountView {
        AccountView::Ed25519(self@)
    }

    fn into_account(self) -> (r: MuxedAccount) {
        MuxedAccount::Ed25519(self)
    }
}

/// Whether an address is made of a key of 32 bytes.
pub open spec fn account_wf(a: AccountView) -> bool {
    match a {
        AccountView::Ed25519(key) => key.len() == KEY_LEN,
        AccountView::Muxed(_, key) => key.len() == KEY_LEN,
    }
}

/// Whether an address that may be absent is well formed where it is there.
pub open spec fn account_option_wf(a: Option<AccountView>) -> bool {
    match a {
        Some(a) => account_wf(a),
        None => true,
    }
}

} // verus!
