//! The CBOR boundary of the example instance: decoding the tokens it is
//! called with and encoding those it replies with, both with `serde_cbor`.

use ic_web3_rs::ethabi::Token;
use vstd::prelude::*;

use super::AbiToken;
use crate::utils::natural::U256;

verus! {

/// An ABI token of the `ethabi` crate.
#[verifier::external_type_specification]
#[verifier::external_body]
pub struct ExToken(Token);

/// A token other than an unsigned integer, as decoded from CBOR: the token
/// and its own CBOR encoding. Its fields are private, so that only
/// [`decode_tokens`] makes one: the token is never an unsigned integer, the
/// encoding is that of the token, and the token passed the decoder's
/// recursion limit once already.
pub struct OtherToken {
    token: Token,
    encoding: Vec<u8>,
}

impl View for OtherToken {
    type V = Seq<u8>;

    /// The token's CBOR encoding.
    closed spec fn view(&self) -> Seq<u8> {
        self.encoding@
    }
}

/// A token as the example reads it: an unsigned integer by its four limbs,
/// least significant first; any other token by its CBOR encoding.
pub ghost enum TokenView {
    Uint(Seq<u64>),
    Other(Seq<u8>),
}

/// The view of a token.
pub open spec fn token_view(t: AbiToken) -> TokenView {
    match t {
        AbiToken::Uint(u) => TokenView::Uint(u.0@),
        AbiToken::Other(o) => TokenView::Other(o@),
    }
}

/// The views of tokens, position by position.
pub open spec fn token_views(ts: Seq<AbiToken>) -> Seq<TokenView> {
    ts.map_values(|t: AbiToken| token_view(t))
}

/// What CBOR bytes decode to with `serde_cbor::de::from_slice` as a list of
/// ABI tokens, each unsigned integer by its limbs and every other token by its
/// encoding with `serde_cbor::ser::to_vec`; or the error, as `Debug` shows it.
pub uninterp spec fn cbor_tokens(args: Seq<u8>) -> Result<Seq<TokenView>, Seq<char>>;

/// Decodes CBOR into ABI tokens with `serde_cbor::de::from_slice`, telling
/// the unsigned integers from the other tokens, which keep their encoding by
/// `serde_cbor::ser::to_vec`.
/// Trusted: the outcome is a function of the bytes alone, named `cbor_tokens`
/// through the view of each token.
#[verifier::external_body]
pub(crate) fn decode_tokens(args: &[u8]) -> (res: Result<Vec<AbiToken>, String>)
    ensures
        match res {
            Ok(ts) => cbor_tokens(args@) == Ok::<Seq<TokenView>, Seq<char>>(token_views(ts@)),
            Err(m) => cbor_tokens(args@) == Err::<Seq<TokenView>, Seq<char>>(m@),
        },
{
    let tokens = serde_cbor::de::from_slice::<Vec<Token>>(args).map_err(|e| format!("{e:?}"))?;
    tokens.into_iter().map(|t| match t {
        Token::Uint(u) => Ok(AbiToken::Uint(U256(u.0))),
        other => serde_cbor::ser::to_vec(&other).map(
            |encoding| AbiToken::Other(OtherToken { token: other, encoding }),
        ),
    }).collect::<Result<Vec<AbiToken>, serde_cbor::Error>>().map_err(|e| format!("{e:?}"))
}

/// Encodes ABI tokens in CBOR with `serde_cbor::ser::to_vec`.
/// Trusted: the encoding succeeds, and decoding it gives back the same tokens,
/// position by position. The serializer writes into a vector, which never
/// fails, and its only other errors are for 128-bit integers, which no token
/// holds (numbers and addresses are written as hex strings); `Token`'s derived
/// serde impls read back what they write. Every token other than an unsigned
/// integer comes from [`decode_tokens`], so it nests no deeper than the
/// decoder's recursion limit allows, and re-encoding it gives its encoding
/// again.
#[verifier::external_body]
pub(crate) fn encode_tokens(tokens: Vec<AbiToken>) -> (res: Result<Vec<u8>, String>)
    ensures
        res is Ok,
        match res {
            Ok(b) => cbor_tokens(b@) == Ok::<Seq<TokenView>, Seq<char>>(token_views(tokens@)),
            Err(_) => true,
        },
{
    let tokens: Vec<Token> = tokens.into_iter().map(|t| match t {
        AbiToken::Uint(u) => Token::Uint(ic_web3_rs::types::U256(u.0)),
        AbiToken::Other(other) => other.token,
    }).collect();
    serde_cbor::ser::to_vec(&tokens).map_err(|e| format!("{e:?}"))
}

} // verus!
