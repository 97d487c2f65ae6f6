use ic_web3_rs::ethabi::Token;
use ic_web3_rs::types::U256;
use middleware::instance_example::call;

fn encode(tokens: &Vec<Token>) -> Vec<u8> {
    serde_cbor::ser::to_vec(tokens).unwrap()
}

fn decode(bytes: &[u8]) -> Vec<Token> {
    serde_cbor::de::from_slice(bytes).unwrap()
}

fn args(rate: Token) -> Vec<Token> {
    vec![
        Token::Uint(U256::from(1u64)),
        Token::String("ETH".to_string()),
        rate,
        Token::Uint(U256::from(8u64)),
        Token::Uint(U256::from(1_700_000_000u64)),
    ]
}

#[test]
fn rate_is_doubled() {
    let input = args(Token::Uint(U256::from(21u64)));
    let reply = call(&encode(&input)).unwrap().unwrap();
    let mut expected = input.clone();
    expected[2] = Token::Uint(U256::from(42u64));
    assert_eq!(decode(&reply), expected);
}

#[test]
fn rate_must_be_uint() {
    let input = args(Token::String("21".to_string()));
    assert_eq!(call(&encode(&input)), Some(Err("rate is not a Uint".to_string())));
}

#[test]
fn too_few_tokens_trap() {
    let input = vec![Token::Uint(U256::from(1u64))];
    assert_eq!(call(&encode(&input)), None);
}

#[test]
fn rate_overflow_traps() {
    let input = args(Token::Uint(U256::from(u64::MAX)));
    assert_eq!(call(&encode(&input)), None);
}

#[test]
fn undecodable_arguments_are_reported() {
    let res = call(&[0xff, 0x00]).unwrap();
    let msg = res.unwrap_err();
    assert!(msg.starts_with("failed to deserialize the arguments: "));
}

#[test]
fn other_tokens_come_back_unchanged_and_in_place() {
    let input = vec![
        Token::Array(vec![Token::Bool(true), Token::Tuple(vec![Token::Int(U256::from(5u64))])]),
        Token::Bytes(vec![1, 2, 3]),
        Token::Uint(U256::from(100u64)),
        Token::Address(ic_web3_rs::types::H160::from_low_u64_be(0xabcdef)),
        Token::FixedBytes(vec![0xff; 4]),
        Token::Uint(U256::from(7u64)),
    ];
    let reply = call(&encode(&input)).unwrap().unwrap();
    let mut expected = input.clone();
    expected[2] = Token::Uint(U256::from(200u64));
    assert_eq!(decode(&reply), expected);
}

#[test]
fn zero_rate_stays_zero() {
    let input = args(Token::Uint(U256::from(0u64)));
    let reply = call(&encode(&input)).unwrap().unwrap();
    assert_eq!(decode(&reply), input);
}
