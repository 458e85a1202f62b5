//! Deterministic, protocol-wide error codes.
//!
//! Every contract returns variants of this single enum, so that off-chain
//! consumers can map a stable `u32` code ([`Error::code`]) to a meaningful
//! message. The codes are grouped by domain and are part of the public ABI:
//! they are never reordered or reused.
use vstd::prelude::*;

verus! {

#[derive(Copy, Clone, Debug, PartialEq, Eq, Structural)]
pub enum Error {
    // --- Generic / lifecycle ---
    NotFound,
    AlreadyExists,
    Unauthorized,
    InvalidInput,
    NotInitialized,
    AlreadyInitialized,
    // --- Value / arithmetic ---
    InsufficientFunds,
    Overflow,
    InvalidAmount,
    Underflow,
    /// Overflow reported by the `Safe*` arithmetic traits.
    MathOverflow,
    /// Division by zero reported by `SafeDiv`.
    DivisionByZero,
    // --- Policy ---
    PolicyDenied,
    EmergencyLock,
    /// The recipient is on a policy's blocklist.
    PolicyRecipientRestricted,
    /// The merchant is on a policy's merchant blacklist.
    PolicyMerchantBlocked,
    /// The spending category is on a policy's category blacklist.
    PolicyCategoryRestricted,
    AssetNotWhitelisted,
    PolicyPaused,
    // --- Registry ---
    RegistryFrozen,
    ModuleDeprecated,
    // --- Budget ---
    BudgetExceeded,
    BudgetArchived,
    AssetNotAuthorized,
    BudgetExpired,
    // --- Wallet ---
    WalletFrozen,
    WalletArchived,
    WalletPaused,
    InvalidState,
    UnauthorizedDispatch,
    ReserveViolation,
    // --- Multisig / approvals ---
    ThresholdNotMet,
    AlreadySigned,
    NotASigner,
    InvalidThreshold,
    /// A time lock has not been reached yet.
    TimeLocked,
    TooManySigners,
    /// A sub-call within a batch failed; the entire batch is undone.
    BatchCallFailed,
    /// A nonce is not strictly greater than the last used nonce (replay).
    InvalidNonce,
    /// A signer with zero (or otherwise invalid) voting weight was supplied.
    InvalidSignerWeight,
    /// Accumulated approval weight is below the configured threshold.
    InsufficientWeight,
    /// A timelocked change was executed before its delay elapsed.
    TimelockNotExpired,
    /// A caller without governance rights attempted to modify signers,
    /// weights or the threshold.
    UnauthorizedModification,
    // --- Proposal ---
    ProposalExpired,
    InvalidProposalState,
    ProposalNotApproved,
    /// The caller is not one of the proposal's eligible approvers.
    NotAnApprover,
    /// The grace period in which the proposer may cancel has passed.
    CancellationWindowClosed,
    /// A prerequisite proposal has not executed, so the dependent proposal may
    /// not execute yet.
    PrerequisiteNotMet,
    /// A declared dependency would close a cycle in the dependency graph.
    CircularDependencyDetected,
    // --- Escrow ---
    ConditionNotMet,
    EscrowNotFunded,
    EscrowExpired,
    InvalidCondition,
    TimeLockActive,
    GraceActive,
    // --- Treasury allowances ---
    AllowanceExceeded,
    AllowanceExpired,
}

/// The stable numeric code of each error.
pub open spec fn error_code(e: Error) -> u32 {
    match e {
        Error::NotFound => 1,
        Error::AlreadyExists => 2,
        Error::Unauthorized => 3,
        Error::InvalidInput => 4,
        Error::NotInitialized => 5,
        Error::AlreadyInitialized => 6,
        Error::InsufficientFunds => 10,
        Error::Overflow => 11,
        Error::InvalidAmount => 12,
        Error::Underflow => 13,
        Error::MathOverflow => 14,
        Error::DivisionByZero => 15,
        Error::PolicyDenied => 20,
        Error::EmergencyLock => 21,
        Error::PolicyRecipientRestricted => 22,
        Error::PolicyMerchantBlocked => 23,
        Error::PolicyCategoryRestricted => 24,
        Error::AssetNotWhitelisted => 25,
        Error::PolicyPaused => 26,
        Error::RegistryFrozen => 30,
        Error::ModuleDeprecated => 31,
        Error::BudgetExceeded => 40,
        Error::BudgetArchived => 42,
        Error::AssetNotAuthorized => 43,
        Error::BudgetExpired => 44,
        Error::WalletFrozen => 50,
        Error::WalletArchived => 51,
        Error::WalletPaused => 52,
        Error::InvalidState => 53,
        Error::UnauthorizedDispatch => 54,
        Error::ReserveViolation => 55,
        Error::ThresholdNotMet => 61,
        Error::AlreadySigned => 62,
        Error::NotASigner => 63,
        Error::InvalidThreshold => 64,
        Error::TimeLocked => 65,
        Error::TooManySigners => 66,
        Error::BatchCallFailed => 67,
        Error::InvalidNonce => 68,
        Error::InvalidSignerWeight => 69,
        Error::InsufficientWeight => 90,
        Error::TimelockNotExpired => 91,
        Error::UnauthorizedModification => 92,
        Error::ProposalExpired => 71,
        Error::InvalidProposalState => 72,
        Error::ProposalNotApproved => 73,
        Error::NotAnApprover => 74,
        Error::CancellationWindowClosed => 75,
        Error::PrerequisiteNotMet => 78,
        Error::CircularDependencyDetected => 79,
        Error::ConditionNotMet => 80,
        Error::EscrowNotFunded => 81,
        Error::EscrowExpired => 82,
        Error::InvalidCondition => 83,
        Error::TimeLockActive => 84,
        Error::GraceActive => 87,
        Error::AllowanceExceeded => 88,
        Error::AllowanceExpired => 89,
    }
}

impl Error {
    /// The stable numeric code of this error.
    pub fn code(self) -> (r: u32)
        ensures
            r == error_code(self),
    {
        match self {
            Error::NotFound => 1,
            Error::AlreadyExists => 2,
            Error::Unauthorized => 3,
            Error::InvalidInput => 4,
            Error::NotInitialized => 5,
            Error::AlreadyInitialized => 6,
            Error::InsufficientFunds => 10,
            Error::Overflow => 11,
            Error::InvalidAmount => 12,
            Error::Underflow => 13,
            Error::MathOverflow => 14,
            Error::DivisionByZero => 15,
            Error::PolicyDenied => 20,
            Error::EmergencyLock => 21,
            Error::PolicyRecipientRestricted => 22,
            Error::PolicyMerchantBlocked => 23,
            Error::PolicyCategoryRestricted => 24,
            Error::AssetNotWhitelisted => 25,
            Error::PolicyPaused => 26,
            Error::RegistryFrozen => 30,
            Error::ModuleDeprecated => 31,
            Error::BudgetExceeded => 40,
            Error::BudgetArchived => 42,
            Error::AssetNotAuthorized => 43,
            Error::BudgetExpired => 44,
            Error::WalletFrozen => 50,
            Error::WalletArchived => 51,
            Error::WalletPaused => 52,
            Error::InvalidState => 53,
            Error::UnauthorizedDispatch => 54,
            Error::ReserveViolation => 55,
            Error::ThresholdNotMet => 61,
            Error::AlreadySigned => 62,
            Error::NotASigner => 63,
            Error::InvalidThreshold => 64,
            Error::TimeLocked => 65,
            Error::TooManySigners => 66,
            Error::BatchCallFailed => 67,
            Error::InvalidNonce => 68,
            Error::InvalidSignerWeight => 69,
            Error::InsufficientWeight => 90,
            Error::TimelockNotExpired => 91,
            Error::UnauthorizedModification => 92,
            Error::ProposalExpired => 71,
            Error::InvalidProposalState => 72,
            Error::ProposalNotApproved => 73,
            Error::NotAnApprover => 74,
            Error::CancellationWindowClosed => 75,
            Error::PrerequisiteNotMet => 78,
            Error::CircularDependencyDetected => 79,
            Error::ConditionNotMet => 80,
            Error::EscrowNotFunded => 81,
            Error::EscrowExpired => 82,
            Error::InvalidCondition => 83,
            Error::TimeLockActive => 84,
            Error::GraceActive => 87,
            Error::AllowanceExceeded => 88,
            Error::AllowanceExpired => 89,
        }
    }

    /// The error with a numeric code, if there is one.
    pub fn from_code(code: u32) -> (r: Option<Error>)
        ensures
            forall|e: Error| #[trigger] error_code(e) == code <==> r == Some(e),
    {
        match code {
            1 => Some(Error::NotFound),
            2 => Some(Error::AlreadyExists),
            3 => Some(Error::Unauthorized),
            4 => Some(Error::InvalidInput),
            5 => Some(Error::NotInitialized),
            6 => Some(Error::AlreadyInitialized),
            10 => Some(Error::InsufficientFunds),
            11 => Some(Error::Overflow),
            12 => Some(Error::InvalidAmount),
            13 => Some(Error::Underflow),
            14 => Some(Error::MathOverflow),
            15 => Some(Error::DivisionByZero),
            20 => Some(Error::PolicyDenied),
            21 => Some(Error::EmergencyLock),
            22 => Some(Error::PolicyRecipientRestricted),
            23 => Some(Error::PolicyMerchantBlocked),
            24 => Some(Error::PolicyCategoryRestricted),
            25 => Some(Error::AssetNotWhitelisted),
            26 => Some(Error::PolicyPaused),
            30 => Some(Error::RegistryFrozen),
            31 => Some(Error::ModuleDeprecated),
            40 => Some(Error::BudgetExceeded),
            42 => Some(Error::BudgetArchived),
            43 => Some(Error::AssetNotAuthorized),
            44 => Some(Error::BudgetExpired),
            50 => Some(Error::WalletFrozen),
            51 => Some(Error::WalletArchived),
            52 => Some(Error::WalletPaused),
            53 => Some(Error::InvalidState),
            54 => Some(Error::UnauthorizedDispatch),
            55 => Some(Error::ReserveViolation),
            61 => Some(Error::ThresholdNotMet),
            62 => Some(Error::AlreadySigned),
            63 => Some(Error::NotASigner),
            64 => Some(Error::InvalidThreshold),
            65 => Some(Error::TimeLocked),
            66 => Some(Error::TooManySigners),
            67 => Some(Error::BatchCallFailed),
            68 => Some(Error::InvalidNonce),
            69 => Some(Error::InvalidSignerWeight),
            71 => Some(Error::ProposalExpired),
            72 => Some(Error::InvalidProposalState),
            73 => Some(Error::ProposalNotApproved),
            74 => Some(Error::NotAnApprover),
            75 => Some(Error::CancellationWindowClosed),
            78 => Some(Error::PrerequisiteNotMet),
            79 => Some(Error::CircularDependencyDetected),
            80 => Some(Error::ConditionNotMet),
            81 => Some(Error::EscrowNotFunded),
            82 => Some(Error::EscrowExpired),
            83 => Some(Error::InvalidCondition),
            84 => Some(Error::TimeLockActive),
            87 => Some(Error::GraceActive),
            88 => Some(Error::AllowanceExceeded),
            89 => Some(Error::AllowanceExpired),
            90 => Some(Error::InsufficientWeight),
            91 => Some(Error::TimelockNotExpired),
            92 => Some(Error::UnauthorizedModification),
            _ => None,
        }
    }
}

/// No code is shared by two errors.
pub proof fn error_codes_are_distinct(a: Error, b: Error)
    requires
        error_code(a) == error_code(b),
    ensures
        a == b,
{
}

/// The codes are stable: each error keeps the number that callers know it by.
pub proof fn error_codes_are_stable()
    ensures
        error_code(Error::NotFound) == 1,
        error_code(Error::AlreadyExists) == 2,
        error_code(Error::Unauthorized) == 3,
        error_code(Error::InvalidInput) == 4,
        error_code(Error::NotInitialized) == 5,
        error_code(Error::AlreadyInitialized) == 6,
        error_code(Error::InsufficientFunds) == 10,
        error_code(Error::Overflow) == 11,
        error_code(Error::InvalidAmount) == 12,
        error_code(Error::Underflow) == 13,
        error_code(Error::MathOverflow) == 14,
        error_code(Error::DivisionByZero) == 15,
        error_code(Error::PolicyDenied) == 20,
        error_code(Error::EmergencyLock) == 21,
        error_code(Error::PolicyRecipientRestricted) == 22,
        error_code(Error::PolicyMerchantBlocked) == 23,
        error_code(Error::PolicyCategoryRestricted) == 24,
        error_code(Error::AssetNotWhitelisted) == 25,
        error_code(Error::PolicyPaused) == 26,
        error_code(Error::RegistryFrozen) == 30,
        error_code(Error::ModuleDeprecated) == 31,
        error_code(Error::BudgetExceeded) == 40,
        error_code(Error::BudgetArchived) == 42,
        error_code(Error::AssetNotAuthorized) == 43,
        error_code(Error::BudgetExpired) == 44,
        error_code(Error::WalletFrozen) == 50,
        error_code(Error::WalletArchived) == 51,
        error_code(Error::WalletPaused) == 52,
        error_code(Error::InvalidState) == 53,
        error_code(Error::UnauthorizedDispatch) == 54,
        error_code(Error::ReserveViolation) == 55,
        error_code(Error::ThresholdNotMet) == 61,
        error_code(Error::AlreadySigned) == 62,
        error_code(Error::NotASigner) == 63,
        error_code(Error::InvalidThreshold) == 64,
        error_code(Error::TimeLocked) == 65,
        error_code(Error::TooManySigners) == 66,
        error_code(Error::BatchCallFailed) == 67,
        error_code(Error::InvalidNonce) == 68,
        error_code(Error::InvalidSignerWeight) == 69,
        error_code(Error::InsufficientWeight) == 90,
        error_code(Error::TimelockNotExpired) == 91,
        error_code(Error::UnauthorizedModification) == 92,
        error_code(Error::ProposalExpired) == 71,
        error_code(Error::InvalidProposalState) == 72,
        error_code(Error::ProposalNotApproved) == 73,
        error_code(Error::NotAnApprover) == 74,
        error_code(Error::CancellationWindowClosed) == 75,
        error_code(Error::PrerequisiteNotMet) == 78,
        error_code(Error::CircularDependencyDetected) == 79,
        error_code(Error::ConditionNotMet) == 80,
        error_code(Error::EscrowNotFunded) == 81,
        error_code(Error::EscrowExpired) == 82,
        error_code(Error::InvalidCondition) == 83,
        error_code(Error::TimeLockActive) == 84,
        error_code(Error::GraceActive) == 87,
        error_code(Error::AllowanceExceeded) == 88,
        error_code(Error::AllowanceExpired) == 89,
{
}

} // verus!
