//! What clients and the server say to each other, and how either can refuse.

use crate::text::{decimal, decimal_text};
use anonymous_credit_tokens::{
    IssuanceRequest, IssuanceResponse, PublicKey, Refund, SpendProof,
};
use vstd::prelude::*;

verus! {

/// What a client can ask of the server.
pub enum Request {
    /// Spend credits from a token.
    Spend(SpendProof),
    /// Issue a new token for a proof of work.
    Issue(IssuanceRequest, [u8; 32]),
    /// Hand out the server's public key.
    GetPublicKey,
    /// Turn several spends into one new token.
    Combine(Vec<SpendProof>, IssuanceRequest),
    /// Turn one spend into several new tokens with the given amounts.
    Split(SpendProof, Vec<IssuanceRequest>, Vec<u128>),
    /// Say whether a nullifier has been spent.
    CheckNullifier([u8; 32]),
}

/// What the server answers.
pub enum Response {
    /// The refund of a spend.
    Refund(Refund),
    /// The issuance of one token.
    Issue(IssuanceResponse),
    /// The server's public key.
    PublicKey(PublicKey),
    /// The issuances of the tokens of a split.
    Issuances(Vec<IssuanceResponse>),
    /// Whether a nullifier has been spent.
    NullifierStatus(bool),
}

/// Why the server refuses a request.
#[derive(Clone, Copy, Debug, PartialEq, Eq, Structural)]
pub enum Rejection {
    /// The bytes are no request.
    InvalidFormat,
    /// The proof of a spend does not hold.
    BadSpendProof,
    /// The nullifier was there already.
    NullifierSeen,
    /// The database could not be written.
    Internal,
    /// The hash of the proof of work was used before.
    PowHashUsed,
    /// The nonce of the proof of work was used before.
    PowNonceUsed,
    /// The database of nonces could not be read or written.
    InternalDatabase,
    /// The proof in an issuance request does not hold.
    InvalidIssuanceProof,
    /// A key appeared in the database between the check and the insertion.
    Inconsistent,
    /// A split has more requests than amounts, or fewer.
    MismatchedAmounts,
    /// A split asks for no token.
    NoIssuanceRequests,
    /// The proof of a spend that pays for new tokens does not hold.
    InvalidSpendProof,
    /// The charge of a spend is no amount.
    InvalidCharge,
    /// The amounts of a split do not add up to the charge.
    ChargeMismatch,
    /// The proof in the split's request at this index does not hold.
    InvalidRequestAt(usize),
    /// A combination spends nothing.
    NoSpendProofs,
    /// The spends of a combination add up to more than a token can hold.
    TooManyCredits,
    /// The proof in the request of a combination does not hold.
    InvalidIssuanceRequest,
    /// The answer could not be encoded.
    EncodingFailed,
}

impl Rejection {
    /// Whether the server, not the request, is at fault.
    pub open spec fn is_internal(self) -> bool {
        self is Internal || self is InternalDatabase || self is Inconsistent
            || self is EncodingFailed
    }

    /// The HTTP status of a refusal: 500 where the server is at fault, else 400.
    pub fn status(&self) -> (status: u16)
        ensures
            status == if self.is_internal() { 500u16 } else { 400u16 },
    {
        match self {
            Rejection::Internal
            | Rejection::InternalDatabase
            | Rejection::Inconsistent
            | Rejection::EncodingFailed => 500,
            _ => 400,
        }
    }

    /// The text of a refusal.
    pub open spec fn text(self) -> Seq<char> {
        match self {
            Rejection::InvalidFormat => "Invalid request format"@,
            Rejection::BadSpendProof => "bad spend proof"@,
            Rejection::NullifierSeen => "already seen nullifier"@,
            Rejection::Internal => "internal error"@,
            Rejection::PowHashUsed => "proof of work hash already used"@,
            Rejection::PowNonceUsed => "proof of work nonce already used"@,
            Rejection::InternalDatabase => "internal database error"@,
            Rejection::InvalidIssuanceProof => "invalid issuance proof"@,
            Rejection::Inconsistent => "database consistency error"@,
            Rejection::MismatchedAmounts => "mismatched issuance requests and amounts"@,
            Rejection::NoIssuanceRequests => "no issuance requests provided"@,
            Rejection::InvalidSpendProof => "invalid spend proof"@,
            Rejection::InvalidCharge => "invalid spend proof charge"@,
            Rejection::ChargeMismatch => "total split amount does not match spend proof charge"@,
            Rejection::InvalidRequestAt(index) => "invalid issuance request at index "@ + decimal(
                index as nat,
            ),
            Rejection::NoSpendProofs => "no spend proofs provided"@,
            Rejection::TooManyCredits => "too many credits"@,
            Rejection::InvalidIssuanceRequest => "invalid issuance request"@,
            Rejection::EncodingFailed => "Failed to encode response"@,
        }
    }

    /// The text of a refusal.
    pub fn message(&self) -> (message: String)
        ensures
            message@ == self.text(),
    {
        let text: &str = match self {
            Rejection::InvalidFormat => "Invalid request format",
            Rejection::BadSpendProof => "bad spend proof",
            Rejection::NullifierSeen => "already seen nullifier",
            Rejection::Internal => "internal error",
            Rejection::PowHashUsed => "proof of work hash already used",
            Rejection::PowNonceUsed => "proof of work nonce already used",
            Rejection::InternalDatabase => "internal database error",
            Rejection::InvalidIssuanceProof => "invalid issuance proof",
            Rejection::Inconsistent => "database consistency error",
            Rejection::MismatchedAmounts => "mismatched issuance requests and amounts",
            Rejection::NoIssuanceRequests => "no issuance requests provided",
            Rejection::InvalidSpendProof => "invalid spend proof",
            Rejection::InvalidCharge => "invalid spend proof charge",
            Rejection::ChargeMismatch => "total split amount does not match spend proof charge",
            Rejection::InvalidRequestAt(index) => {
                let mut message = String::from_str("invalid issuance request at index ");
                message.append(decimal_text(*index as u128).as_str());
                return message;
            },
            Rejection::NoSpendProofs => "no spend proofs provided",
            Rejection::TooManyCredits => "too many credits",
            Rejection::InvalidIssuanceRequest => "invalid issuance request",
            Rejection::EncodingFailed => "Failed to encode response",
        };
        String::from_str(text)
    }
}

/// Why an operation of the client fails.
#[derive(Debug)]
pub enum ClientError {
    /// A file could not be read or written.
    Io(String),
    /// The server could not be reached, or refused.
    Network(String),
    /// A value could not be turned into bytes.
    Serialization(String),
    /// Bytes could not be turned into a value.
    Deserialization(String),
    /// The database of tokens could not be used.
    Database(String),
    /// The user asked for something that cannot be done.
    Interaction(String),
    /// The server sent a response of another kind than the request asks for.
    InvalidResponse,
    /// The server's response does not make a valid token.
    InvalidToken,
    /// The server's public key is not known.
    NoPublicKey,
    /// No proof of work was found.
    PowFailed,
}

impl ClientError {
    /// The text of an error.
    pub open spec fn text(self) -> Seq<char> {
        match self {
            ClientError::Io(detail) => "IO error: "@ + detail@,
            ClientError::Network(detail) => "Network error: "@ + detail@,
            ClientError::Serialization(detail) => "Serialization error: "@ + detail@,
            ClientError::Deserialization(detail) => "Deserialization error: "@ + detail@,
            ClientError::Database(detail) => "Database error: "@ + detail@,
            ClientError::Interaction(detail) => "UI interaction error: "@ + detail@,
            ClientError::InvalidResponse => "Invalid response from server"@,
            ClientError::InvalidToken => "Invalid token"@,
            ClientError::NoPublicKey => "No public key available"@,
            ClientError::PowFailed => "Proof-of-work generation failed"@,
        }
    }

    /// The text of an error.
    pub fn message(&self) -> (message: String)
        ensures
            message@ == self.text(),
    {
        match self {
            ClientError::Io(detail) => String::from_str("IO error: ").concat(detail.as_str()),
            ClientError::Network(detail) => String::from_str("Network error: ").concat(
                detail.as_str(),
            ),
            ClientError::Serialization(detail) => String::from_str("Serialization error: ").concat(
                detail.as_str(),
            ),
            ClientError::Deserialization(detail) => String::from_str(
                "Deserialization error: ",
            ).concat(detail.as_str()),
            ClientError::Database(detail) => String::from_str("Database error: ").concat(
                detail.as_str(),
            ),
            ClientError::Interaction(detail) => String::from_str("UI interaction error: ").concat(
                detail.as_str(),
            ),
            ClientError::InvalidResponse => String::from_str("Invalid response from server"),
            ClientError::InvalidToken => String::from_str("Invalid token"),
            ClientError::NoPublicKey => String::from_str("No public key available"),
            ClientError::PowFailed => String::from_str("Proof-of-work generation failed"),
        }
    }
}

} // verus!
