//! Chain-agnostic asset representation.
use crate::bignum::{decimal, BigNumber};
use crate::be::{be_value, lemma_min_be_bytes};
use crate::error::{AssetError, EscrowError, IdentityError};
use crate::outside::{big_div_rem, big_pow, big_to_decimal};
use vstd::arithmetic::power::pow;
use vstd::prelude::*;
use vstd::string::{StrSliceExecFns, StringExecFns};

verus! {

/// Fungible asset kinds the escrow can settle on-chain.
#[derive(Debug, Clone, Copy, PartialEq, Eq, Structural)]
pub enum AssetKind {
    /// Native chain coin (e.g., ETH, SOL).
    Native,
    /// Fungible token (e.g., ERC-20, SPL).
    Token,
}

/// An on-chain asset: the native coin or a fungible token.
#[derive(Debug, Clone, PartialEq, Eq)]
pub struct Asset {
    /// Kind of asset.
    pub kind: AssetKind,
    /// Raw identity bytes of the token contract (ERC-20) or mint (SPL) for a
    /// token; `None` for the native coin.
    pub agent_id: Option<Vec<u8>>,
    /// Amount in the smallest unit (e.g., wei, lamports).
    pub amount: BigNumber,
    /// Number of decimals the asset uses, for display formatting.
    pub decimals: Option<u8>,
}

/// What validation of an asset gives.
pub open spec fn asset_validation(
    kind: AssetKind,
    agent_id: Option<Seq<u8>>,
    amount: nat,
) -> Result<(), EscrowError> {
    if amount == 0 {
        Err(EscrowError::Asset(AssetError::ZeroAmount))
    } else {
        match kind {
            AssetKind::Native => Ok(()),
            AssetKind::Token => match agent_id {
                None => Err(EscrowError::Asset(AssetError::MissingId)),
                Some(id) => if id.len() == 0 {
                    Err(EscrowError::Identity(IdentityError::EmptyIdentity))
                } else {
                    Ok(())
                },
            },
        }
    }
}

/// `s` left-padded with `'0'` to at least `width` characters.
pub open spec fn zero_padded(s: Seq<char>, width: nat) -> Seq<char> {
    if s.len() >= width {
        s
    } else {
        Seq::new((width - s.len()) as nat, |i: int| '0') + s
    }
}

/// `amount` as a fixed-point decimal with `decimals` fractional digits.
pub open spec fn fixed_point(amount: nat, decimals: nat) -> Seq<char> {
    let factor = pow(10, decimals) as nat;
    if decimals == 0 {
        decimal(amount)
    } else {
        decimal(amount / factor) + seq!['.'] + zero_padded(decimal(amount % factor), decimals)
    }
}

impl Asset {
    /// The identity bytes, by view.
    pub open spec fn agent_id_view(&self) -> Option<Seq<u8>> {
        match self.agent_id {
            Some(id) => Some(id@),
            None => None,
        }
    }

    /// A native asset.
    pub fn native(amount: BigNumber) -> (a: Asset)
        ensures
            a.kind == AssetKind::Native,
            a.agent_id is None,
            a.amount@ == amount@,
            a.decimals is None,
    {
        Asset { kind: AssetKind::Native, agent_id: None, amount, decimals: None }
    }

    /// A fungible token held at `contract` (ERC-20) or mint (SPL).
    pub fn token(contract: Vec<u8>, amount: BigNumber, decimals: u8) -> (a: Asset)
        ensures
            a.kind == AssetKind::Token,
            a.agent_id_view() == Some(contract@),
            a.amount@ == amount@,
            a.decimals == Some(decimals),
    {
        Asset { kind: AssetKind::Token, agent_id: Some(contract), amount, decimals: Some(decimals) }
    }

    /// Ensures asset parameters are semantically valid: the amount is non-zero,
    /// and a token names a non-empty contract or mint.
    pub fn validate(&self) -> (r: Result<(), EscrowError>)
        ensures
            r == asset_validation(self.kind, self.agent_id_view(), self.amount@),
    {
        self.validate_non_zero_amount()?;
        self.validate_by_kind()
    }

    /// Validates that the amount is non-zero.
    fn validate_non_zero_amount(&self) -> (r: Result<(), EscrowError>)
        ensures
            r is Ok <==> self.amount@ != 0,
            r is Err ==> r == Err::<(), EscrowError>(EscrowError::Asset(AssetError::ZeroAmount)),
    {
        if self.amount.is_zero() {
            Err(EscrowError::Asset(AssetError::ZeroAmount))
        } else {
            Ok(())
        }
    }

    /// Validates asset-specific requirements based on kind.
    fn validate_by_kind(&self) -> (r: Result<(), EscrowError>)
        ensures
            r == asset_validation(self.kind, self.agent_id_view(), 1),
    {
        match self.kind {
            AssetKind::Native => Ok(()),
            AssetKind::Token => self.validate_agent_id(),
        }
    }

    /// Validates that the agent id is present and non-empty.
    fn validate_agent_id(&self) -> (r: Result<(), EscrowError>)
        ensures
            r == asset_validation(AssetKind::Token, self.agent_id_view(), 1),
    {
        match &self.agent_id {
            None => Err(EscrowError::Asset(AssetError::MissingId)),
            Some(id) => if id.len() == 0 {
                Err(EscrowError::Identity(IdentityError::EmptyIdentity))
            } else {
                Ok(())
            },
        }
    }

    /// Formats the raw amount as a fixed-point decimal string using the
    /// asset's `decimals` (zero when unset).
    pub fn format_amount(&self) -> (s: String)
        ensures
            s@ == fixed_point(
                self.amount@,
                match self.decimals {
                    Some(d) => d as nat,
                    None => 0,
                },
            ),
    {
        let decimals: u8 = match self.decimals {
            Some(d) => d,
            None => 0,
        };
        let ten: [u8; 1] = [10];
        proof {
            assert(ten@ =~= seq![10u8]);
            assert(seq![10u8].drop_last() =~= Seq::<u8>::empty());
            assert(be_value(Seq::<u8>::empty()) == 0);
            assert(seq![10u8].last() == 10);
            assert(be_value(seq![10u8]) == 10);
            assert(be_value(ten@) == 10);
            reveal_strlit(".");
            reveal_strlit("0");
        }
        let factor = big_pow(&ten, decimals as u32);
        let amount = self.amount.to_bytes_be();
        proof {
            lemma_min_be_bytes(pow(10, decimals as nat) as nat);
            vstd::arithmetic::power::lemma_pow_positive(10, decimals as nat);
            lemma_min_be_bytes(self.amount@);
        }
        let (whole, rem) = big_div_rem(amount.as_slice(), factor.as_slice());
        let mut out = big_to_decimal(whole.as_slice());
        if decimals == 0 {
            proof {
                vstd::arithmetic::power::lemma_pow0(10);
                assert(self.amount@ / 1 == self.amount@);
                lemma_min_be_bytes(self.amount@);
            }
            return out;
        }
        out.append(".");
        assert(Seq::new(0, |i: int| '0') =~= Seq::<char>::empty());
        assert(out@ =~= decimal(be_value(whole@)) + seq!['.'] + Seq::new(0, |i: int| '0'));
        let digits = big_to_decimal(rem.as_slice());
        let n = digits.as_str().unicode_len();
        let mut pad = n;
        while pad < decimals as usize
            invariant
                n <= pad <= (if n <= decimals as usize { decimals as usize } else { n }),
                out@ == decimal(be_value(whole@)) + seq!['.'] + Seq::new((pad - n) as nat, |i: int| '0'),
            decreases decimals as usize - pad,
        {
            let ghost before = out@;
            proof {
                reveal_strlit("0");
            }
            out.append("0");
            pad = pad + 1;
            proof {
                assert(out@ =~= decimal(be_value(whole@)) + seq!['.'] + Seq::new((pad - n) as nat, |i: int| '0'));
            }
        }
        out.append(digits.as_str());
        proof {
            lemma_min_be_bytes(self.amount@ / pow(10, decimals as nat) as nat);
            lemma_min_be_bytes(self.amount@ % pow(10, decimals as nat) as nat);
            let w = decimal(be_value(whole@));
            let d = decimal(be_value(rem@));
            if n >= decimals as usize {
                assert(Seq::new(0, |i: int| '0') =~= Seq::<char>::empty());
                assert(out@ =~= w + seq!['.'] + d);
            } else {
                assert(out@ =~= w + seq!['.'] + (Seq::new((decimals - n) as nat, |i: int| '0') + d));
            }
        }
        out
    }

    /// The underlying raw quantity of the asset.
    pub fn amount(&self) -> (a: &BigNumber)
        ensures
            a == &self.amount,
    {
        &self.amount
    }
}

} // verus!
