//! What a password must contain: how many characters of each category.

use vstd::prelude::*;
use vstd::string::StringExecFns;

verus! {

/// The mathematical content of a [`PasswordRequirements`] record: the number
/// of characters asked for in each category.
pub struct CategoryCounts {
    pub lowercase: nat,
    pub capitals: nat,
    pub digits: nat,
    pub symbols: nat,
}

impl CategoryCounts {
    /// The length of a password that meets these counts.
    pub open spec fn total(self) -> nat {
        self.lowercase + self.capitals + self.digits + self.symbols
    }
}

/// Why a request cannot be turned into requirements.
#[derive(Clone, Copy, Debug, PartialEq, Eq)]
pub enum RequirementError {
    /// Capitals, digits and symbols together exceed the requested length.
    Overflow,
}

impl RequirementError {
    /// The error in words, for a caller to print.
    pub fn message(&self) -> (text: String)
        ensures
            text@ == "the sum of capitals, digits, and symbols exceeds the total length"@,
    {
        match self {
            RequirementError::Overflow => String::from_str(
                "the sum of capitals, digits, and symbols exceeds the total length",
            ),
        }
    }
}

/// The validated number of characters of each category in a password.
///
/// The four counts always add up to a length that fits in a `u32`: a record
/// only comes from [`get_password_requirements`], from
/// [`get_requirements_or_defaults`] or from [`get_auto_requirements`].
#[derive(Clone, Copy, Debug, PartialEq, Eq)]
pub struct PasswordRequirements {
    lowercase: u32,
    capitals: u32,
    digits: u32,
    symbols: u32,
}

impl View for PasswordRequirements {
    type V = CategoryCounts;

    closed spec fn view(&self) -> CategoryCounts {
        CategoryCounts {
            lowercase: self.lowercase as nat,
            capitals: self.capitals as nat,
            digits: self.digits as nat,
            symbols: self.symbols as nat,
        }
    }
}

impl PasswordRequirements {
    #[verifier::type_invariant]
    spec fn counts_fit(&self) -> bool {
        self.lowercase + self.capitals + self.digits + self.symbols <= u32::MAX
    }

    /// The number of lowercase letters.
    pub fn lowercase(&self) -> (count: u32)
        ensures
            count == self@.lowercase,
    {
        self.lowercase
    }

    /// The number of capital letters.
    pub fn capitals(&self) -> (count: u32)
        ensures
            count == self@.capitals,
    {
        self.capitals
    }

    /// The number of digits.
    pub fn digits(&self) -> (count: u32)
        ensures
            count == self@.digits,
    {
        self.digits
    }

    /// The number of symbols.
    pub fn symbols(&self) -> (count: u32)
        ensures
            count == self@.symbols,
    {
        self.symbols
    }

    /// The length of the password that the record asks for.
    pub fn total(&self) -> (length: u32)
        ensures
            length == self@.total(),
    {
        proof {
            use_type_invariant(self);
        }
        self.lowercase + self.capitals + self.digits + self.symbols
    }
}

/// What a request resolves to: the counts with the remainder of the length as
/// lowercase letters, or `Overflow` where the three given counts exceed the
/// length.
pub open spec fn resolve(length: nat, capitals: nat, digits: nat, symbols: nat) -> Result<
    CategoryCounts,
    RequirementError,
> {
    if capitals + digits + symbols > length {
        Err(RequirementError::Overflow)
    } else {
        Ok(
            CategoryCounts {
                lowercase: (length - capitals - digits - symbols) as nat,
                capitals,
                digits,
                symbols,
            },
        )
    }
}

/// A count that was left out of a request stands for zero.
pub open spec fn count_or_zero(count: Option<u32>) -> nat {
    match count {
        Some(n) => n as nat,
        None => 0,
    }
}

/// Validates a request for a password of `length` characters, of which
/// `capitals` are capital letters, `digits` digits and `symbols` symbols; the
/// rest are lowercase letters.
pub fn get_password_requirements(length: u32, capitals: u32, digits: u32, symbols: u32) -> (result:
    Result<PasswordRequirements, RequirementError>)
    ensures
        capitals + digits + symbols <= length ==> result is Ok && result->Ok_0@.total() == length,
        capitals + digits + symbols > length ==> result == Err::<PasswordRequirements, _>(
            RequirementError::Overflow,
        ),
        (match result {
            Ok(requirements) => resolve(length as nat, capitals as nat, digits as nat, symbols as nat)
                == Ok::<_, RequirementError>(requirements@),
            Err(error) => resolve(length as nat, capitals as nat, digits as nat, symbols as nat)
                == Err::<CategoryCounts, _>(error),
        }),
{
    let sum: u64 = capitals as u64 + digits as u64 + symbols as u64;
    if sum > length as u64 {
        Err(RequirementError::Overflow)
    } else {
        Ok(PasswordRequirements { lowercase: length - sum as u32, capitals, digits, symbols })
    }
}

/// Validates a request in which any of the three counts may be left out: a
/// count that is left out is zero.
pub fn get_requirements_or_defaults(
    length: u32,
    capitals: Option<u32>,
    digits: Option<u32>,
    symbols: Option<u32>,
) -> (result: Result<PasswordRequirements, RequirementError>)
    ensures
        (match result {
            Ok(requirements) => resolve(
                length as nat,
                count_or_zero(capitals),
                count_or_zero(digits),
                count_or_zero(symbols),
            ) == Ok::<_, RequirementError>(requirements@),
            Err(error) => resolve(
                length as nat,
                count_or_zero(capitals),
                count_or_zero(digits),
                count_or_zero(symbols),
            ) == Err::<CategoryCounts, _>(error),
        }),
{
    get_password_requirements(
        length,
        capitals.unwrap_or(0),
        digits.unwrap_or(0),
        symbols.unwrap_or(0),
    )
}

/// The requirements used when the caller asks for none: eight characters of
/// each category.
pub fn get_auto_requirements() -> (requirements: PasswordRequirements)
    ensures
        requirements@ == (CategoryCounts { lowercase: 8, capitals: 8, digits: 8, symbols: 8 }),
{
    PasswordRequirements { lowercase: 8, capitals: 8, digits: 8, symbols: 8 }
}

/// The password length that is offered when the caller is asked for one.
pub const DEFAULT_LENGTH: u32 = 12;

/// The number of capitals, of digits and of symbols that is offered by default
/// for a password of `length` characters: a quarter of the length, rounded
/// down.
pub fn default_partition(length: u32) -> (partition: u32)
    ensures
        partition == length / 4,
{
    length / 4
}

} // verus!
