//! The failures that the operations of this library can report, each with the
//! numeric code under which a caller sees it.

use vstd::prelude::*;
use vstd::std_specs::convert::FromSpecImpl;

verus! {

/// Failures of the rational arithmetic and of the weight table.
#[derive(Debug, Clone, Copy, PartialEq, Eq, Structural)]
pub enum WeightTableError {
    /// Every slot of a table is taken and the identifier is not among them.
    NoMoreTableSlots,
    /// A fraction with denominator zero was asked for, or a division by zero.
    DenominatorIsZero,
    /// An intermediate or final value left the 64-bit range.
    ArithmeticOverflow,
    /// Reserved for a degenerate remainder computation.
    ModuloOverflow,
    /// The signer of a privileged operation is not the table's administrator.
    IncorrectWeightTableAdmin,
}

impl WeightTableError {
    /// The numeric code of each failure.
    pub open spec fn spec_code(self) -> u32 {
        match self {
            WeightTableError::NoMoreTableSlots => 0x2000,
            WeightTableError::DenominatorIsZero => 0x2100,
            WeightTableError::ArithmeticOverflow => 0x2101,
            WeightTableError::ModuloOverflow => 0x2102,
            WeightTableError::IncorrectWeightTableAdmin => 0x2200,
        }
    }

    /// The numeric code of this failure.
    #[verifier::when_used_as_spec(spec_code)]
    pub fn code(self) -> (code: u32)
        ensures
            code == self.spec_code(),
    {
        match self {
            WeightTableError::NoMoreTableSlots => 0x2000,
            WeightTableError::DenominatorIsZero => 0x2100,
            WeightTableError::ArithmeticOverflow => 0x2101,
            WeightTableError::ModuloOverflow => 0x2102,
            WeightTableError::IncorrectWeightTableAdmin => 0x2200,
        }
    }

    /// The namespace under which these failures are decoded.
    pub fn type_of() -> (name: &'static str)
        ensures
            name@ == "jito::weight_table"@,
    {
        "jito::weight_table"
    }

    /// The text shown for this failure.
    pub fn message(self) -> (text: &'static str)
        ensures
            text@ == match self {
                WeightTableError::NoMoreTableSlots => "No more table slots available"@,
                WeightTableError::DenominatorIsZero => "Zero in the denominator"@,
                WeightTableError::ArithmeticOverflow => "Overflow"@,
                WeightTableError::ModuloOverflow => "Modulo Overflow"@,
                WeightTableError::IncorrectWeightTableAdmin => "Incorrect weight table admin"@,
            },
    {
        match self {
            WeightTableError::NoMoreTableSlots => "No more table slots available",
            WeightTableError::DenominatorIsZero => "Zero in the denominator",
            WeightTableError::ArithmeticOverflow => "Overflow",
            WeightTableError::ModuloOverflow => "Modulo Overflow",
            WeightTableError::IncorrectWeightTableAdmin => "Incorrect weight table admin",
        }
    }
}

impl From<WeightTableError> for u32 {
    fn from(e: WeightTableError) -> (code: u32) {
        e.code()
    }
}

impl FromSpecImpl<WeightTableError> for u32 {
    open spec fn obeys_from_spec() -> bool {
        true
    }

    open spec fn from_spec(e: WeightTableError) -> u32 {
        e.spec_code()
    }
}

impl From<WeightTableError> for u64 {
    fn from(e: WeightTableError) -> (code: u64) {
        e.code() as u64
    }
}

impl FromSpecImpl<WeightTableError> for u64 {
    open spec fn obeys_from_spec() -> bool {
        true
    }

    open spec fn from_spec(e: WeightTableError) -> u64 {
        e.spec_code() as u64
    }
}

/// Failures of the reward tables and of the aggregation of votes.
#[derive(Debug, Clone, Copy, PartialEq, Eq, Structural)]
pub enum RewardCoreError {
    /// Every slot of a table is taken and the identifier is not among them.
    NoMoreTableSlots,
    /// An amount, or a sum of amounts, is outside the range of values that a
    /// table can hold.
    ArithmeticOverflow,
}

impl RewardCoreError {
    /// The numeric code of each failure.
    pub open spec fn spec_code(self) -> u32 {
        match self {
            RewardCoreError::NoMoreTableSlots => 0x2000,
            RewardCoreError::ArithmeticOverflow => 0x2101,
        }
    }

    /// The numeric code of this failure.
    #[verifier::when_used_as_spec(spec_code)]
    pub fn code(self) -> (code: u32)
        ensures
            code == self.spec_code(),
    {
        match self {
            RewardCoreError::NoMoreTableSlots => 0x2000,
            RewardCoreError::ArithmeticOverflow => 0x2101,
        }
    }

    /// The namespace under which these failures are decoded.
    pub fn type_of() -> (name: &'static str)
        ensures
            name@ == "jito::vault"@,
    {
        "jito::vault"
    }

    /// The text shown for this failure.
    pub fn message(self) -> (text: &'static str)
        ensures
            text@ == match self {
                RewardCoreError::NoMoreTableSlots => "No more table slots available"@,
                RewardCoreError::ArithmeticOverflow => "Overflow"@,
            },
    {
        match self {
            RewardCoreError::NoMoreTableSlots => "No more table slots available",
            RewardCoreError::ArithmeticOverflow => "Overflow",
        }
    }
}

impl From<RewardCoreError> for u32 {
    fn from(e: RewardCoreError) -> (code: u32) {
        e.code()
    }
}

impl FromSpecImpl<RewardCoreError> for u32 {
    open spec fn obeys_from_spec() -> bool {
        true
    }

    open spec fn from_spec(e: RewardCoreError) -> u32 {
        e.spec_code()
    }
}

impl From<RewardCoreError> for u64 {
    fn from(e: RewardCoreError) -> (code: u64) {
        e.code() as u64
    }
}

impl FromSpecImpl<RewardCoreError> for u64 {
    open spec fn obeys_from_spec() -> bool {
        true
    }

    open spec fn from_spec(e: RewardCoreError) -> u64 {
        e.spec_code() as u64
    }
}

/// Failures that the reward program reports to its callers.
#[derive(Debug, Clone, Copy, PartialEq, Eq, Structural)]
pub enum RewardError {
    /// A slashing deduction would drive a balance below zero.
    VaultSlashUnderflow,
}

impl RewardError {
    /// The numeric code of each failure.
    pub open spec fn spec_code(self) -> u32 {
        match self {
            RewardError::VaultSlashUnderflow => 1000,
        }
    }

    /// The numeric code of this failure.
    #[verifier::when_used_as_spec(spec_code)]
    pub fn code(self) -> (code: u32)
        ensures
            code == self.spec_code(),
    {
        match self {
            RewardError::VaultSlashUnderflow => 1000,
        }
    }

    /// The namespace under which these failures are decoded.
    pub fn type_of() -> (name: &'static str)
        ensures
            name@ == "jito::reward"@,
    {
        "jito::reward"
    }

    /// The text shown for this failure.
    pub fn message(self) -> (text: &'static str)
        ensures
            text@ == match self {
                RewardError::VaultSlashUnderflow => "VaultSlashUnderflow"@,
            },
    {
        match self {
            RewardError::VaultSlashUnderflow => "VaultSlashUnderflow",
        }
    }
}

impl From<RewardError> for u32 {
    fn from(e: RewardError) -> (code: u32) {
        e.code()
    }
}

impl FromSpecImpl<RewardError> for u32 {
    open spec fn obeys_from_spec() -> bool {
        true
    }

    open spec fn from_spec(e: RewardError) -> u32 {
        e.spec_code()
    }
}

impl From<RewardError> for u64 {
    fn from(e: RewardError) -> (code: u64) {
        e.code() as u64
    }
}

impl FromSpecImpl<RewardError> for u64 {
    open spec fn obeys_from_spec() -> bool {
        true
    }

    open spec fn from_spec(e: RewardError) -> u64 {
        e.spec_code() as u64
    }
}

} // verus!
