//! The token scheme: the types and operations of `anonymous_credit_tokens`, and of the scalar
//! field of `curve25519_dalek` underneath it, that the rest of the library builds on.
//!
//! The types are opaque here. What is inside a value is spoken of through the spec functions
//! below (`scalar_value`, `proof_charge`, `token_credits`, ...), and each operation is a small
//! wrapper whose contract says what the operation does to them.
//!
//! The scheme hashes the length of what it hashes as a word of the machine. So what it accepts is
//! one thing for all machines of the same word size: client and server must agree in that.

use anonymous_credit_tokens::{
    CreditToken, IssuanceRequest, IssuanceResponse, Params, PreIssuance, PreRefund, PrivateKey,
    PublicKey, Refund, SpendProof,
};
use curve25519_dalek::Scalar;
use rand_core::OsRng;
use vstd::prelude::*;

verus! {

/// `curve25519_dalek::Scalar`: an integer modulo the order of the field.
#[verifier::external_type_specification]
#[verifier::external_body]
pub struct ExScalar(Scalar);

/// `anonymous_credit_tokens::Params`: the parameters of a system.
#[verifier::external_type_specification]
#[verifier::external_body]
pub struct ExParams(Params);

/// `anonymous_credit_tokens::PrivateKey`: the issuer's key.
#[verifier::external_type_specification]
#[verifier::external_body]
pub struct ExPrivateKey(PrivateKey);

/// `anonymous_credit_tokens::PublicKey`: the public half of the issuer's key.
#[verifier::external_type_specification]
#[verifier::external_body]
pub struct ExPublicKey(PublicKey);

/// `anonymous_credit_tokens::PreIssuance`: a client's secrets for one issuance.
#[verifier::external_type_specification]
#[verifier::external_body]
pub struct ExPreIssuance(PreIssuance);

/// `anonymous_credit_tokens::IssuanceRequest`: what a client sends to have a token issued.
#[verifier::external_type_specification]
#[verifier::external_body]
pub struct ExIssuanceRequest(IssuanceRequest);

/// `anonymous_credit_tokens::IssuanceResponse`: what the issuer answers to a request.
#[verifier::external_type_specification]
#[verifier::external_body]
pub struct ExIssuanceResponse(IssuanceResponse);

/// `anonymous_credit_tokens::CreditToken`: a token.
#[verifier::external_type_specification]
#[verifier::external_body]
pub struct ExCreditToken(CreditToken);

/// `anonymous_credit_tokens::SpendProof`: what a client sends to spend from a token.
#[verifier::external_type_specification]
#[verifier::external_body]
pub struct ExSpendProof(SpendProof);

/// `anonymous_credit_tokens::PreRefund`: a client's secrets for the rest of a spend.
#[verifier::external_type_specification]
#[verifier::external_body]
pub struct ExPreRefund(PreRefund);

/// `anonymous_credit_tokens::Refund`: what the issuer answers to a spend.
#[verifier::external_type_specification]
#[verifier::external_body]
pub struct ExRefund(Refund);

/// The order of the scalar field: scalars are integers modulo this prime.
pub open spec fn field_order() -> nat {
    0x1000000000000000000000000000000014def9dea2f79cd65812631a5cf5d3ednat
}

/// The integer that a scalar stands for, below `field_order()`.
pub uninterp spec fn scalar_value(s: Scalar) -> nat;

/// `Scalar::from(u128)`: the scalar stands for the integer itself.
#[verifier::external_body]
pub(crate) fn scalar_from(x: u128) -> (r: Scalar)
    ensures
        scalar_value(r) == x,
{
    Scalar::from(x)
}

/// `Scalar + Scalar`: addition in the field, that is, of the integers modulo its order.
#[verifier::external_body]
pub(crate) fn scalar_sum(a: &Scalar, b: &Scalar) -> (r: Scalar)
    ensures
        scalar_value(r) == (scalar_value(*a) + scalar_value(*b)) % field_order(),
{
    a + b
}

/// `scalar_to_u128`: the integer that the scalar stands for, where 128 bits hold it.
#[verifier::external_body]
pub(crate) fn scalar_amount(s: &Scalar) -> (r: Option<u128>)
    ensures
        r matches Some(x) ==> scalar_value(*s) == x,
        r is None ==> scalar_value(*s) > u128::MAX,
{
    anonymous_credit_tokens::scalar_to_u128(s)
}

/// What `Params::nothing_up_my_sleeve` derives from a seed.
pub uninterp spec fn derived_params(seed: Seq<u8>) -> Params;

/// `Params::nothing_up_my_sleeve`: the parameters are a function of the seed.
#[verifier::external_body]
pub(crate) fn derive_params(seed: &[u8]) -> (r: Params)
    ensures
        r == derived_params(seed@),
{
    Params::nothing_up_my_sleeve(seed)
}

/// `PrivateKey::random`: a fresh key. Nothing is known of which one.
#[verifier::external_body]
pub(crate) fn random_key() -> (r: PrivateKey) {
    PrivateKey::random(OsRng)
}

/// The public half of a key, which `PrivateKey::public` gives.
pub uninterp spec fn public_half(key: PrivateKey) -> PublicKey;

/// `PrivateKey::public`, cloned: the public half of the key.
#[verifier::external_body]
pub(crate) fn public_key(key: &PrivateKey) -> (r: PublicKey)
    ensures
        r == public_half(*key),
{
    key.public().clone()
}

/// The bytes of the nullifier that a spend proof reveals (`SpendProof::nullifier`).
pub uninterp spec fn proof_nullifier(proof: SpendProof) -> Seq<u8>;

/// `SpendProof::nullifier`, as the bytes of the scalar.
#[verifier::external_body]
pub(crate) fn nullifier_of_proof(proof: &SpendProof) -> (r: [u8; 32])
    ensures
        r@ == proof_nullifier(*proof),
{
    *proof.nullifier().as_bytes()
}

/// The amount that a spend proof spends (`SpendProof::charge`).
pub uninterp spec fn proof_charge(proof: SpendProof) -> nat;

/// `SpendProof::charge`: the scalar that stands for the amount, below the field's order.
#[verifier::external_body]
pub(crate) fn charge_of_proof(proof: &SpendProof) -> (r: Scalar)
    ensures
        scalar_value(r) == proof_charge(*proof),
        scalar_value(r) < field_order(),
{
    proof.charge()
}

/// The bytes of the nullifier inside a token (`CreditToken::nullifier`).
pub uninterp spec fn token_nullifier(token: CreditToken) -> Seq<u8>;

/// `CreditToken::nullifier`, as the bytes of the scalar.
#[verifier::external_body]
pub(crate) fn nullifier_of_token(token: &CreditToken) -> (r: [u8; 32])
    ensures
        r@ == token_nullifier(*token),
{
    *token.nullifier().as_bytes()
}

/// The credits inside a token (`CreditToken::credits`).
pub uninterp spec fn token_credits(token: CreditToken) -> nat;

/// `CreditToken::credits`: the scalar that stands for the credits, below the field's order.
#[verifier::external_body]
pub(crate) fn credits_of_token(token: &CreditToken) -> (r: Scalar)
    ensures
        scalar_value(r) == token_credits(*token),
        scalar_value(r) < field_order(),
{
    token.credits()
}

/// Whether `PrivateKey::refund` accepts a spend proof: whether its zero-knowledge proof holds
/// for this key and these parameters.
pub uninterp spec fn spend_accepted(key: PrivateKey, params: Params, proof: SpendProof) -> bool;

/// Whether a refund is one that `PrivateKey::refund` can give for this proof, for some choice of
/// its random numbers.
pub uninterp spec fn is_refund(
    key: PrivateKey,
    params: Params,
    proof: SpendProof,
    refund: Refund,
) -> bool;

/// `PrivateKey::refund`: gives a refund exactly where the spend proof holds. The check of the
/// proof uses no random number; the refund itself does.
#[verifier::external_body]
pub(crate) fn refund(key: &PrivateKey, params: &Params, proof: &SpendProof) -> (r: Option<Refund>)
    ensures
        r is Some <==> spend_accepted(*key, *params, *proof),
        r matches Some(refund) ==> is_refund(*key, *params, *proof, refund),
{
    key.refund(params, proof, OsRng)
}

/// Whether `PrivateKey::issue` accepts an issuance request: whether its proof of knowledge holds
/// for these parameters.
pub uninterp spec fn request_accepted(params: Params, request: IssuanceRequest) -> bool;

/// Whether a response is one that `PrivateKey::issue` can give for this request and amount, for
/// some choice of its random numbers.
pub uninterp spec fn is_issuance(
    key: PrivateKey,
    params: Params,
    request: IssuanceRequest,
    credits: nat,
    response: IssuanceResponse,
) -> bool;

/// The credits that a response of `PrivateKey::issue` grants.
pub uninterp spec fn response_credits(response: IssuanceResponse) -> nat;

/// `PrivateKey::issue`: gives a response exactly where the request's proof holds, and the
/// response carries the amount that was asked for. The check of the request uses no random
/// number; the signature in the response does.
#[verifier::external_body]
pub(crate) fn issue(
    key: &PrivateKey,
    params: &Params,
    request: &IssuanceRequest,
    credits: Scalar,
) -> (r: Option<IssuanceResponse>)
    ensures
        r is Some <==> request_accepted(*params, *request),
        r matches Some(response) ==> response_credits(response) == scalar_value(credits),
        r matches Some(response) ==> is_issuance(
            *key,
            *params,
            *request,
            scalar_value(credits),
            response,
        ),
{
    key.issue(params, request, credits, OsRng)
}

/// `PreIssuance::random`: fresh secrets for one issuance. Nothing is known of which ones.
#[verifier::external_body]
pub(crate) fn random_pre_issuance() -> (r: PreIssuance) {
    PreIssuance::random(OsRng)
}

/// Whether a request is one that `PreIssuance::request` can give for these secrets, for some
/// choice of its random numbers.
pub uninterp spec fn is_request(
    pre_issuance: PreIssuance,
    params: Params,
    request: IssuanceRequest,
) -> bool;

/// `PreIssuance::request`: a request made from these secrets. Its proof holds for the parameters
/// that it was made with, whatever the random numbers.
#[verifier::external_body]
pub(crate) fn issuance_request(pre_issuance: &PreIssuance, params: &Params) -> (r: IssuanceRequest)
    ensures
        is_request(*pre_issuance, *params, r),
        request_accepted(*params, r),
{
    pre_issuance.request(params, OsRng)
}

/// What `PreIssuance::to_credit_token` makes of a response.
pub uninterp spec fn issued_token(
    pre_issuance: PreIssuance,
    params: Params,
    public_key: PublicKey,
    request: IssuanceRequest,
    response: IssuanceResponse,
) -> Option<CreditToken>;

/// `PreIssuance::to_credit_token`: checks the signature in the response and, where it holds,
/// gives the token, which carries the credits of the response. That every response of the issuer
/// passes the check is left unsaid: it does not for every choice of the random numbers.
#[verifier::external_body]
pub(crate) fn token_from_issuance(
    pre_issuance: &PreIssuance,
    params: &Params,
    public_key: &PublicKey,
    request: &IssuanceRequest,
    response: &IssuanceResponse,
) -> (r: Option<CreditToken>)
    ensures
        r == issued_token(*pre_issuance, *params, *public_key, *request, *response),
        r matches Some(token) ==> token_credits(token) == response_credits(*response),
{
    pre_issuance.to_credit_token(params, public_key, request, response)
}

/// The credits that a client keeps once a spend has been refunded.
pub uninterp spec fn credits_left(pre_refund: PreRefund) -> nat;

/// Whether a proof and its secrets are a pair that `CreditToken::prove_spend` can give, for some
/// choice of its random numbers.
pub uninterp spec fn is_spend(
    token: CreditToken,
    params: Params,
    amount: nat,
    proof: SpendProof,
    pre_refund: PreRefund,
) -> bool;

/// `CreditToken::prove_spend`: the proof reveals the token's nullifier and the amount; the
/// secrets keep what the token holds beyond the amount, counted in the field. That the issuer
/// accepts the proof is left unsaid: it does not for every choice of the random numbers.
#[verifier::external_body]
pub(crate) fn prove_spend(token: &CreditToken, params: &Params, amount: Scalar) -> (r: (
    SpendProof,
    PreRefund,
))
    ensures
        proof_nullifier(r.0) == token_nullifier(*token),
        proof_charge(r.0) == scalar_value(amount),
        credits_left(r.1) as int == (token_credits(*token) - scalar_value(amount))
            % field_order() as int,
        is_spend(*token, *params, scalar_value(amount), r.0, r.1),
{
    token.prove_spend(params, amount, OsRng)
}

/// What `PreRefund::to_credit_token` makes of a refund.
pub uninterp spec fn refunded_token(
    pre_refund: PreRefund,
    params: Params,
    proof: SpendProof,
    refund: Refund,
    public_key: PublicKey,
) -> Option<CreditToken>;

/// `PreRefund::to_credit_token`: checks the signature in the refund and, where it holds, gives
/// the token, which carries the credits that were left. That every refund of the issuer passes
/// the check is left unsaid: it does not for every choice of the random numbers.
#[verifier::external_body]
pub(crate) fn token_from_refund(
    pre_refund: &PreRefund,
    params: &Params,
    proof: &SpendProof,
    refund: &Refund,
    public_key: &PublicKey,
) -> (r: Option<CreditToken>)
    ensures
        r == refunded_token(*pre_refund, *params, *proof, *refund, *public_key),
        r matches Some(token) ==> token_credits(token) == credits_left(*pre_refund),
{
    pre_refund.to_credit_token(params, proof, refund, public_key)
}

/// `PublicKey::clone`: the same key.
pub assume_specification[ <anonymous_credit_tokens::PublicKey as Clone>::clone ](
    key: &anonymous_credit_tokens::PublicKey,
) -> (r: anonymous_credit_tokens::PublicKey)
    ensures
        r == *key,
;

/// `IssuanceRequest::clone`: the same request.
pub assume_specification[ <IssuanceRequest as Clone>::clone ](request: &IssuanceRequest) -> (r:
    IssuanceRequest)
    ensures
        r == *request,
;

/// `SpendProof::clone`: the same proof.
pub assume_specification[ <SpendProof as Clone>::clone ](proof: &SpendProof) -> (r: SpendProof)
    ensures
        r == *proof,
;

/// `CreditToken::clone`: the same token.
pub assume_specification[ <CreditToken as Clone>::clone ](token: &CreditToken) -> (r: CreditToken)
    ensures
        r == *token,
;

} // verus!
