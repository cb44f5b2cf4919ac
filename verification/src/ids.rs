//! Strongly-typed domain identifiers and bounded quantities.
//!
//! Each type carries its bound as a type invariant, so every value that exists
//! at run time satisfies it; the `is_valid` predicates restate the same bounds
//! over the mathematical view for use in contracts.

use vstd::prelude::*;
use vstd::utf8::{decode_utf8, encode_utf8};
use vstd::string::StringSliceAdditionalSpecFns;

use crate::invalid::InvalidInput;
use crate::money::{MAX_PRICE, MAX_SIZE, SCALE};

verus! {

/// Maximum length of a market symbol.
pub const MAX_SYMBOL_LEN: usize = 24;

/// Maximum length of an account id.
pub const MAX_ACCOUNT_LEN: usize = 48;

/// Maximum permitted leverage.
pub const MAX_LEVERAGE: u32 = 100;

/// Length in bytes of the UTF-8 encoding of a string.
pub open spec fn utf8_len(s: Seq<char>) -> nat {
    encode_utf8(s).len()
}

/// A string is empty exactly when its UTF-8 encoding is.
pub proof fn lemma_utf8_len_pos(s: Seq<char>)
    ensures
        (s.len() == 0) == (utf8_len(s) == 0),
{
    if s.len() > 0 {
        assert(encode_utf8(s) == vstd::utf8::encode_scalar(s[0] as u32) + encode_utf8(s.drop_first()));
        assert(vstd::utf8::encode_scalar(s[0] as u32).len() >= 1);
    }
}

/// An ASCII string takes one byte per character.
pub proof fn lemma_ascii_utf8_len(s: Seq<char>)
    requires
        forall|i: int| 0 <= i < s.len() ==> (#[trigger] s[i] as u32) < 128,
    ensures
        utf8_len(s) == s.len(),
    decreases s.len(),
{
    if s.len() > 0 {
        let rest = s.drop_first();
        assert forall|i: int| 0 <= i < rest.len() implies (#[trigger] rest[i] as u32) < 128 by {
            assert(rest[i] == s[i + 1]);
        }
        lemma_ascii_utf8_len(rest);
        assert(encode_utf8(s) == vstd::utf8::encode_scalar(s[0] as u32) + encode_utf8(rest));
        assert(vstd::utf8::encode_scalar(s[0] as u32).len() == 1);
    }
}

/// Whether two string slices hold the same text.
pub fn str_eq(a: &str, b: &str) -> (r: bool)
    ensures
        r == (a@ == b@),
{
    let ab = a.as_bytes();
    let bb = b.as_bytes();
    proof {
        vstd::utf8::encode_utf8_decode_utf8(a@);
        vstd::utf8::encode_utf8_decode_utf8(b@);
    }
    if ab.len() != bb.len() {
        return false;
    }
    let n = ab.len();
    let mut i: usize = 0;
    while i < n
        invariant
            n == ab@.len(),
            n == bb@.len(),
            ab@ == encode_utf8(a@),
            bb@ == encode_utf8(b@),
            decode_utf8(encode_utf8(a@)) == a@,
            decode_utf8(encode_utf8(b@)) == b@,
            i <= n,
            forall|j: int| 0 <= j < i ==> ab@[j] == bb@[j],
        decreases n - i,
    {
        if ab[i] != bb[i] {
            assert(ab@ != bb@);
            return false;
        }
        i = i + 1;
    }
    assert(ab@ =~= bb@);
    true
}

/// Whether a raw micro-USD value is a valid price.
pub open spec fn price_in_range(m: int) -> bool {
    0 < m <= MAX_PRICE
}

/// Whether a raw micro-contract value is a valid size.
pub open spec fn size_in_range(m: int) -> bool {
    0 < m <= MAX_SIZE
}

/// The outcome of validating a raw micro-USD price.
pub open spec fn price_check(micros: int) -> Result<int, InvalidInput> {
    if micros <= 0 {
        Err(InvalidInput::NonPositivePrice)
    } else if micros > MAX_PRICE {
        Err(InvalidInput::PriceTooLarge)
    } else {
        Ok(micros)
    }
}

/// The outcome of validating a raw micro-contract size.
pub open spec fn size_check(micros: int) -> Result<int, InvalidInput> {
    if micros <= 0 {
        Err(InvalidInput::NonPositiveSize)
    } else if micros > MAX_SIZE {
        Err(InvalidInput::SizeTooLarge)
    } else {
        Ok(micros)
    }
}

/// A positive, bounded per-contract price in micro-USD (6 dp).
#[derive(Debug, Clone, Copy, PartialEq, Eq, Structural, PartialOrd, Ord, Hash)]
pub struct Price(i128);

impl View for Price {
    type V = int;

    closed spec fn view(&self) -> int {
        self.0 as int
    }
}

impl Price {
    #[verifier::type_invariant]
    spec fn inv(self) -> bool {
        0 < self.0 <= MAX_PRICE
    }

    /// Construct from raw micro-USD, enforcing positivity and bounds.
    pub fn from_micros(micros: i128) -> (r: Result<Price, InvalidInput>)
        ensures
            match price_check(micros as int) {
                Ok(m) => r matches Ok(p) && p@ == m,
                Err(e) => r == Err::<Price, InvalidInput>(e),
            },
    {
        if micros <= 0 {
            return Err(InvalidInput::NonPositivePrice);
        }
        if micros > MAX_PRICE {
            return Err(InvalidInput::PriceTooLarge);
        }
        Ok(Price(micros))
    }

    /// Construct from a whole-dollar price.
    pub fn from_whole(dollars: i64) -> (r: Result<Price, InvalidInput>)
        ensures
            match price_check(dollars * SCALE) {
                Ok(m) => r matches Ok(p) && p@ == m,
                Err(e) => r == Err::<Price, InvalidInput>(e),
            },
    {
        assert(dollars * 1_000_000 <= i128::MAX && dollars * 1_000_000 >= i128::MIN)
            by (nonlinear_arith)
            requires
                dollars <= i64::MAX,
                dollars >= i64::MIN,
        ;
        Price::from_micros(dollars as i128 * SCALE)
    }

    /// Raw micro-USD value.
    pub fn micros(self) -> (r: i128)
        ensures
            r == self@,
            price_in_range(r as int),
    {
        proof {
            use_type_invariant(&self);
        }
        self.0
    }
}

/// A positive, bounded position size in micro-contracts (6 dp).
#[derive(Debug, Clone, Copy, PartialEq, Eq, Structural, PartialOrd, Ord, Hash)]
pub struct Size(i128);

impl View for Size {
    type V = int;

    closed spec fn view(&self) -> int {
        self.0 as int
    }
}

impl Size {
    #[verifier::type_invariant]
    spec fn inv(self) -> bool {
        0 < self.0 <= MAX_SIZE
    }

    /// Construct from raw micro-contracts, enforcing positivity and bounds.
    pub fn from_micros(micros: i128) -> (r: Result<Size, InvalidInput>)
        ensures
            match size_check(micros as int) {
                Ok(m) => r matches Ok(s) && s@ == m,
                Err(e) => r == Err::<Size, InvalidInput>(e),
            },
    {
        if micros <= 0 {
            return Err(InvalidInput::NonPositiveSize);
        }
        if micros > MAX_SIZE {
            return Err(InvalidInput::SizeTooLarge);
        }
        Ok(Size(micros))
    }

    /// Construct from a whole-contract count.
    pub fn from_whole(contracts: i64) -> (r: Result<Size, InvalidInput>)
        ensures
            match size_check(contracts * SCALE) {
                Ok(m) => r matches Ok(s) && s@ == m,
                Err(e) => r == Err::<Size, InvalidInput>(e),
            },
    {
        assert(contracts * 1_000_000 <= i128::MAX && contracts * 1_000_000 >= i128::MIN)
            by (nonlinear_arith)
            requires
                contracts <= i64::MAX,
                contracts >= i64::MIN,
        ;
        Size::from_micros(contracts as i128 * SCALE)
    }

    /// Raw micro-contract value.
    pub fn micros(self) -> (r: i128)
        ensures
            r == self@,
            size_in_range(r as int),
    {
        proof {
            use_type_invariant(&self);
        }
        self.0
    }
}

/// Leverage multiplier in the inclusive range `1..=MAX_LEVERAGE`.
#[derive(Debug, Clone, Copy, PartialEq, Eq, Structural, PartialOrd, Ord, Hash)]
pub struct Leverage(u32);

impl View for Leverage {
    type V = int;

    closed spec fn view(&self) -> int {
        self.0 as int
    }
}

impl Leverage {
    #[verifier::type_invariant]
    spec fn inv(self) -> bool {
        1 <= self.0 <= MAX_LEVERAGE
    }

    /// Construct a leverage multiplier.
    pub fn new(x: u32) -> (r: Result<Leverage, InvalidInput>)
        ensures
            (x == 0 || x > MAX_LEVERAGE) ==> r == Err::<Leverage, InvalidInput>(
                InvalidInput::LeverageOutOfRange { max: MAX_LEVERAGE },
            ),
            (1 <= x <= MAX_LEVERAGE) ==> (r matches Ok(l) && l@ == x),
    {
        if x == 0 || x > MAX_LEVERAGE {
            return Err(InvalidInput::LeverageOutOfRange { max: MAX_LEVERAGE });
        }
        Ok(Leverage(x))
    }

    /// The leverage multiplier.
    pub fn get(self) -> (r: u32)
        ensures
            r == self@,
            1 <= r <= MAX_LEVERAGE,
    {
        proof {
            use_type_invariant(&self);
        }
        self.0
    }
}

/// A bounded market symbol such as `SOL-PERP`.
#[derive(Debug, PartialEq, Eq, PartialOrd, Ord, Hash)]
pub struct Symbol(String);

impl View for Symbol {
    type V = Seq<char>;

    closed spec fn view(&self) -> Seq<char> {
        self.0@
    }
}

impl Clone for Symbol {
    fn clone(&self) -> (r: Self)
        ensures
            r == *self,
    {
        proof {
            use_type_invariant(self);
        }
        Symbol(self.0.clone())
    }
}

impl Symbol {
    #[verifier::type_invariant]
    spec fn inv(self) -> bool {
        1 <= utf8_len(self.0@) <= MAX_SYMBOL_LEN
    }

    /// Construct a symbol, enforcing a `1..=MAX_SYMBOL_LEN` byte length.
    pub fn new(s: &str) -> (r: Result<Symbol, InvalidInput>)
        ensures
            (1 <= utf8_len(s@) <= MAX_SYMBOL_LEN) ==> (r matches Ok(sym) && sym@ == s@),
            !(1 <= utf8_len(s@) <= MAX_SYMBOL_LEN) ==> r == Err::<Symbol, InvalidInput>(
                InvalidInput::InvalidSymbol { max: MAX_SYMBOL_LEN },
            ),
    {
        proof {
            lemma_utf8_len_pos(s@);
        }
        if s.is_empty() || s.as_bytes().len() > MAX_SYMBOL_LEN {
            return Err(InvalidInput::InvalidSymbol { max: MAX_SYMBOL_LEN });
        }
        Ok(Symbol(s.to_owned()))
    }

    /// The symbol as a string slice.
    pub fn as_str(&self) -> (r: &str)
        ensures
            r@ == self@,
    {
        self.0.as_str()
    }

    /// Whether two symbols hold the same text.
    pub fn same(&self, other: &Symbol) -> (r: bool)
        ensures
            r == (self@ == other@),
    {
        self.0 == other.0
    }
}

/// A bounded account identifier.
#[derive(Debug, PartialEq, Eq, PartialOrd, Ord, Hash)]
pub struct AccountId(String);

impl View for AccountId {
    type V = Seq<char>;

    closed spec fn view(&self) -> Seq<char> {
        self.0@
    }
}

impl Clone for AccountId {
    fn clone(&self) -> (r: Self)
        ensures
            r == *self,
    {
        proof {
            use_type_invariant(self);
        }
        AccountId(self.0.clone())
    }
}

impl AccountId {
    #[verifier::type_invariant]
    spec fn inv(self) -> bool {
        1 <= utf8_len(self.0@) <= MAX_ACCOUNT_LEN
    }

    /// Construct an account id, enforcing a `1..=MAX_ACCOUNT_LEN` byte length.
    pub fn new(s: &str) -> (r: Result<AccountId, InvalidInput>)
        ensures
            (1 <= utf8_len(s@) <= MAX_ACCOUNT_LEN) ==> (r matches Ok(a) && a@ == s@),
            !(1 <= utf8_len(s@) <= MAX_ACCOUNT_LEN) ==> r == Err::<AccountId, InvalidInput>(
                InvalidInput::InvalidAccount { max: MAX_ACCOUNT_LEN },
            ),
    {
        proof {
            lemma_utf8_len_pos(s@);
        }
        if s.is_empty() || s.as_bytes().len() > MAX_ACCOUNT_LEN {
            return Err(InvalidInput::InvalidAccount { max: MAX_ACCOUNT_LEN });
        }
        Ok(AccountId(s.to_owned()))
    }

    /// The account id as a string slice.
    pub fn as_str(&self) -> (r: &str)
        ensures
            r@ == self@,
    {
        self.0.as_str()
    }

    /// Whether two account ids hold the same text.
    pub fn same(&self, other: &AccountId) -> (r: bool)
        ensures
            r == (self@ == other@),
    {
        self.0 == other.0
    }
}

} // verus!
