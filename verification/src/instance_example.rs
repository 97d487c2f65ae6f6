//! The example middleware instance: it receives ABI tokens (workflow id,
//! symbol, rate, decimals, timestamp) encoded in CBOR and sends them back with
//! the rate doubled.

pub mod cbor;

use vstd::prelude::*;
use vstd::string::StringExecFns;

use self::cbor::{cbor_tokens, decode_tokens, encode_tokens, token_view, token_views, OtherToken, TokenView};
use crate::utils::natural::U256;

verus! {

/// An ABI token as the example reads it: an unsigned integer by its value;
/// any other token is carried through as it was decoded.
pub enum AbiToken {
    Uint(U256),
    Other(OtherToken),
}

/// The position of the rate among the tokens.
pub const RATE_INDEX: usize = 2;

/// Whether the tokens can be handled without a trap: there is a rate, and if
/// it is an unsigned integer, its double fits in 64 bits.
pub open spec fn rate_is_doublable(tokens: Seq<AbiToken>) -> bool {
    &&& tokens.len() > RATE_INDEX
    &&& tokens[RATE_INDEX as int] matches AbiToken::Uint(u) ==> {
        &&& u.0[1] == 0 && u.0[2] == 0 && u.0[3] == 0
        &&& 2 * u.0[0] <= u64::MAX
    }
}

/// The tokens with the rate doubled, or the error for a rate that is not an
/// unsigned integer.
pub open spec fn doubled_rate(tokens: Seq<AbiToken>) -> Result<Seq<AbiToken>, Seq<char>> {
    match tokens[RATE_INDEX as int] {
        AbiToken::Uint(u) => Ok(
            tokens.update(RATE_INDEX as int, AbiToken::Uint(U256([(2 * u.0[0]) as u64, 0, 0, 0]))),
        ),
        AbiToken::Other(_) => Err("rate is not a Uint"@),
    }
}

/// Doubles the rate, the third token. A rate that is no unsigned integer is
/// refused.
pub fn double_rate(tokens: Vec<AbiToken>) -> (res: Result<Vec<AbiToken>, String>)
    requires
        rate_is_doublable(tokens@),
    ensures
        match doubled_rate(tokens@) {
            Ok(t) => res matches Ok(r) && r@ == t,
            Err(m) => res matches Err(e) && e@ == m,
        },
{
    let mut tokens = tokens;
    let rate: u64 = match &tokens[RATE_INDEX] {
        AbiToken::Uint(u) => u.0[0],
        AbiToken::Other(_) => {
            return Err("rate is not a Uint".to_owned());
        },
    };
    let rate = rate * 2;
    tokens.set(RATE_INDEX, AbiToken::Uint(U256([rate, 0, 0, 0])));
    Ok(tokens)
}

/// Whether the double of a rate, given by its limbs, fits in 64 bits.
pub open spec fn limbs_doublable(l: Seq<u64>) -> bool {
    l[1] == 0 && l[2] == 0 && l[3] == 0 && 2 * l[0] <= u64::MAX
}

/// The reply of the example instance to a call with CBOR-encoded tokens: the
/// tokens with the rate doubled, encoded again; every other token comes back
/// unchanged and in its place. `None` where the instance traps: fewer than
/// three tokens, or a rate whose double does not fit in 64 bits. Errors: the
/// arguments do not decode, or the rate is no unsigned integer.
pub fn call(args: &[u8]) -> (res: Option<Result<Vec<u8>, String>>)
    ensures
        match cbor_tokens(args@) {
            Err(m) => res matches Some(Err(e)) && e@ == "failed to deserialize the arguments: "@
                + m,
            Ok(views) => if views.len() <= RATE_INDEX {
                res is None
            } else {
                match views[RATE_INDEX as int] {
                    TokenView::Other(_) => res matches Some(Err(e)) && e@ == "rate is not a Uint"@,
                    TokenView::Uint(l) => if limbs_doublable(l) {
                        res matches Some(Ok(b)) && cbor_tokens(b@) == Ok::<Seq<TokenView>, Seq<char>>(
                            views.update(RATE_INDEX as int, TokenView::Uint(seq![(2 * l[0]) as u64, 0u64, 0u64, 0u64])),
                        )
                    } else {
                        res is None
                    },
                }
            },
        },
{
    let tokens = match decode_tokens(args) {
        Ok(t) => t,
        Err(e) => {
            let prefix: String = "failed to deserialize the arguments: ".to_owned();
            return Some(Err(prefix.concat(e.as_str())));
        },
    };
    proof {
        assert(token_views(tokens@).len() == tokens@.len());
    }
    if tokens.len() <= RATE_INDEX {
        return None;
    }
    proof {
        assert(token_views(tokens@)[RATE_INDEX as int] == token_view(tokens@[RATE_INDEX as int]));
    }
    match &tokens[RATE_INDEX] {
        AbiToken::Uint(u) => {
            if u.0[1] != 0 || u.0[2] != 0 || u.0[3] != 0 || u.0[0] > u64::MAX / 2 {
                return None;
            }
        },
        AbiToken::Other(_) => {},
    }
    let ghost before = tokens@;
    let tokens = match double_rate(tokens) {
        Ok(t) => t,
        Err(e) => {
            return Some(Err(e));
        },
    };
    proof {
        if let AbiToken::Uint(u) = before[RATE_INDEX as int] {
            assert(U256([(2 * u.0[0]) as u64, 0, 0, 0]).0@ =~= seq![(2 * u.0[0]) as u64, 0u64, 0u64, 0u64]);
            assert(token_views(tokens@) =~= token_views(before).update(
                RATE_INDEX as int,
                TokenView::Uint(seq![(2 * u.0[0]) as u64, 0u64, 0u64, 0u64]),
            ));
        }
    }
    match encode_tokens(tokens) {
        Ok(bytes) => Some(Ok(bytes)),
        Err(e) => {
            let prefix: String = "failed to serialize the arguments: ".to_owned();
            Some(Err(prefix.concat(e.as_str())))
        },
    }
}

} // verus!
