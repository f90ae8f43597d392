use vstd::prelude::*;
use vstd::string::StringSliceAdditionalSpecFns;
use crate::crypto::KEY_LEN;
use crate::crypto::PublicKey;
use crate::error::Error;

verus! {

/// The longest asset code, in bytes.
pub const MAX_CODE_LEN: usize = 12;

/// Whether `b` is an ASCII letter or digit.
pub open spec fn is_alphanumeric(b: u8) -> bool {
    (0x30 <= b <= 0x39) || (0x41 <= b <= 0x5a) || (0x61 <= b <= 0x7a)
}

/// Whether `code` can name an issued asset: 1 to 12 ASCII letters or digits.
pub open spec fn valid_code(code: Seq<u8>) -> bool {
    &&& 1 <= code.len() <= MAX_CODE_LEN
    &&& forall|i: int| 0 <= i < code.len() ==> is_alphanumeric(#[trigger] code[i])
}

/// Tells whether `b` is an ASCII letter or digit.
pub fn alphanumeric(b: u8) -> (r: bool)
    ensures
        r == is_alphanumeric(b),
{
    (0x30 <= b && b <= 0x39) || (0x41 <= b && b <= 0x5a) || (0x61 <= b && b <= 0x7a)
}

/// Tells whether `code` can name an issued asset.
pub fn check_code(code: &[u8]) -> (r: bool)
    ensures
        r == valid_code(code@),
{
    if code.len() < 1 || code.len() > MAX_CODE_LEN {
        return false;
    }
    let mut i: usize = 0;
    while i < code.len()
        invariant
            i <= code.len(),
            forall|j: int| 0 <= j < i ==> is_alphanumeric(#[trigger] code@[j]),
        decreases code.len() - i,
    {
        if !alphanumeric(code[i]) {
            return false;
        }
        i += 1;
    }
    true
}

/// What an asset is: the native one, or a code under an issuer's key.
pub enum AssetView {
    Native,
    Credit { code: Seq<u8>, issuer: Seq<u8> },
}

/// Whether a view is that of an asset that can exist.
pub open spec fn asset_wf(asset: AssetView) -> bool {
    match asset {
        AssetView::Native => true,
        AssetView::Credit { code, issuer } => valid_code(code) && issuer.len() == KEY_LEN,
    }
}

/// An asset issued by an account under a code.
#[derive(Debug, PartialEq, Eq)]
pub struct CreditAsset {
    code: Vec<u8>,
    issuer: PublicKey,
}

impl CreditAsset {
    #[verifier::type_invariant]
    spec fn well_formed(self) -> bool {
        valid_code(self.code@)
    }

    /// The bytes of the code.
    pub closed spec fn code_view(self) -> Seq<u8> {
        self.code@
    }

    /// The key of the issuer.
    pub closed spec fn issuer_view(self) -> Seq<u8> {
        self.issuer@
    }

    /// The asset `code` of `issuer`, or `InvalidAssetCode` unless the code
    /// is made of 1 to 12 ASCII letters or digits.
    pub fn new(code: &[u8], issuer: PublicKey) -> (r: Result<CreditAsset, Error>)
        ensures
            valid_code(code@) ==> r is Ok && r->Ok_0.code_view() == code@ && r->Ok_0.issuer_view()
                == issuer@,
            !valid_code(code@) ==> r == Err::<CreditAsset, Error>(Error::InvalidAssetCode),
    {
        if !check_code(code) {
            return Err(Error::InvalidAssetCode);
        }
        let mut owned: Vec<u8> = Vec::new();
        let mut i: usize = 0;
        while i < code.len()
            invariant
                i <= code.len(),
                owned@ == code@.subrange(0, i as int),
            decreases code.len() - i,
        {
            owned.push(code[i]);
            assert(owned@ =~= code@.subrange(0, i + 1));
            i += 1;
        }
        assert(owned@ =~= code@);
        Ok(CreditAsset { code: owned, issuer })
    }

    /// The bytes of the code: 1 to 12 ASCII letters or digits.
    pub fn code(&self) -> (r: &Vec<u8>)
        ensures
            r@ == self.code_view(),
            valid_code(r@),
    {
        proof {
            use_type_invariant(self);
        }
        &self.code
    }

    /// The key of the issuer.
    pub fn issuer(&self) -> (r: &PublicKey)
        ensures
            r@ == self.issuer_view(),
    {
        &self.issuer
    }
}

impl Clone for CreditAsset {
    fn clone(&self) -> (r: CreditAsset)
        ensures
            r.code_view() == self.code_view(),
            r.issuer_view() == self.issuer_view(),
    {
        proof {
            use_type_invariant(self);
        }
        let code = self.code.clone();
        assert(code@ =~= self.code@);
        CreditAsset { code, issuer: self.issuer.clone() }
    }
}

/// An asset of the ledger.
#[derive(Debug, PartialEq, Eq)]
pub enum Asset {
    Native,
    Credit(CreditAsset),
}

impl View for Asset {
    type V = AssetView;

    open spec fn view(&self) -> AssetView {
        match *self {
            Asset::Native => AssetView::Native,
            Asset::Credit(c) => AssetView::Credit { code: c.code_view(), issuer: c.issuer_view() },
        }
    }
}

impl Clone for Asset {
    fn clone(&self) -> (r: Asset)
        ensures
            r@ == self@,
    {
        match self {
            Asset::Native => Asset::Native,
            Asset::Credit(c) => Asset::Credit(c.clone()),
        }
    }
}

impl Asset {
    /// The native asset.
    pub fn new_native() -> (r: Asset)
        ensures
            r@ == AssetView::Native,
    {
        Asset::Native
    }

    /// The asset `code` of `issuer`, or `InvalidAssetCode` unless the code
    /// is made of 1 to 12 ASCII letters or digits.
    pub fn new_credit(code: &str, issuer: PublicKey) -> (r: Result<Asset, Error>)
        ensures
            valid_code(code.spec_bytes()) ==> r is Ok && r->Ok_0@ == (AssetView::Credit {
                code: code.spec_bytes(),
                issuer: issuer@,
            }),
            !valid_code(code.spec_bytes()) ==> r == Err::<Asset, Error>(Error::InvalidAssetCode),
    {
        match CreditAsset::new(code.as_bytes(), issuer) {
            Ok(c) => Ok(Asset::Credit(c)),
            Err(e) => Err(e),
        }
    }
}

/// The view of an asset that may be absent.
pub open spec fn asset_option_view(asset: Option<Asset>) -> Option<AssetView> {
    match asset {
        Some(a) => Some(a@),
        None => None,
    }
}

} // verus!
