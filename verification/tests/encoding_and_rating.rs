use num::BigRational;
use primitive_types::{H160, U256};

use settlement_core::fee::{fee_info_response, fee_status_code, FeeInfoResponse};
use settlement_core::objective::RatedSettlement;
use settlement_core::orders::{OrderUid, Settlement};
use settlement_core::solution::{
    buy_token_balance_tag, encode_amount_decimal, encode_order_uid, hex_encode, kind_tag,
    parse_address_hex, parse_buy_token_balance, parse_sell_token_balance, parse_signing_scheme,
    sell_token_balance_tag, signing_scheme_tag, BuyTokenBalance, Kind, SellTokenBalance,
    SigningScheme, Solution, SolutionError,
};

#[test]
fn trivial_solution_is_empty() {
    let s = Solution::trivial();
    assert!(s.prices.is_empty());
    assert!(s.trades.is_empty());
    assert!(s.interactions.is_empty());
}

#[test]
fn amounts_encode_as_exact_decimal_strings() {
    assert_eq!(encode_amount_decimal(&U256::from(0u64)), "0");
    assert_eq!(
        encode_amount_decimal(&U256::from(1_003_000_000_000_000_000u64)),
        "1003000000000000000"
    );
    let huge = U256::from(u64::MAX);
    assert_eq!(encode_amount_decimal(&huge), "18446744073709551615");
}

#[test]
fn order_uids_encode_as_prefixed_lowercase_hex() {
    let uid = OrderUid([0xabu8; 56]);
    let expected = {
        let mut s = String::from("0x");
        for _ in 0..56 {
            s.push_str("ab");
        }
        s
    };
    assert_eq!(encode_order_uid(&uid), expected);

    let mut bytes = [0u8; 56];
    bytes[0] = 0x01;
    bytes[55] = 0xfe;
    let s = encode_order_uid(&OrderUid(bytes));
    assert!(s.starts_with("0x01"));
    assert!(s.ends_with("fe"));
    assert_eq!(s.len(), 2 + 2 * 56);
}

#[test]
fn hex_encoding_round_trips_through_its_digits() {
    assert_eq!(hex_encode(&[]), "0x");
    assert_eq!(hex_encode(&[0x00, 0x0f, 0xf0, 0xff]), "0x000ff0ff");
}

#[test]
fn tags_round_trip_for_every_scheme() {
    for k in [
        SigningScheme::Eip712,
        SigningScheme::EthSign,
        SigningScheme::PreSign,
        SigningScheme::Eip1271,
    ] {
        assert_eq!(parse_signing_scheme(signing_scheme_tag(&k)), Ok(k));
    }
    for k in [
        SellTokenBalance::Erc20,
        SellTokenBalance::Internal,
        SellTokenBalance::External,
    ] {
        assert_eq!(parse_sell_token_balance(sell_token_balance_tag(&k)), Ok(k));
    }
    for k in [BuyTokenBalance::Erc20, BuyTokenBalance::Internal] {
        assert_eq!(parse_buy_token_balance(buy_token_balance_tag(&k)), Ok(k));
    }
    assert_eq!(kind_tag(&Kind::Sell), "sell");
    assert_eq!(kind_tag(&Kind::Buy), "buy");
}

#[test]
fn unknown_tags_are_rejected_not_coerced() {
    assert_eq!(
        parse_signing_scheme("eip-712"),
        Err(SolutionError::UnknownSigningScheme)
    );
    assert_eq!(
        parse_sell_token_balance("erc721"),
        Err(SolutionError::UnknownSellTokenBalance)
    );
    assert_eq!(
        parse_buy_token_balance("external"),
        Err(SolutionError::UnknownBuyTokenBalance)
    );
}

#[test]
fn rated_settlement_objective_value_exact() {
    // surplus 1.003e18 wei, fee 0.001e18 wei, gas 300000, gas price 10 gwei
    // => objective exactly 1.001e18 wei.
    let rated = RatedSettlement {
        id: 0,
        settlement: Settlement::with_default_prices(vec![]),
        surplus: BigRational::from_integer(1_003_000_000_000_000_000_u128.into()),
        unscaled_subsidized_fee: BigRational::from_integer(1_000_000_000_000_000_u128.into()),
        scaled_unsubsidized_fee: BigRational::from_integer(1_000_000_000_000_000_u128.into()),
        gas_estimate: U256::from(300_000u64),
        gas_price: BigRational::from_integer(10_000_000_000_u128.into()),
    };
    assert_eq!(
        rated.objective_value(),
        BigRational::from_integer(1_001_000_000_000_000_000_u128.into())
    );
}

#[test]
fn fee_info_response_cases() {
    let found = fee_info_response(Ok(Some((U256::from(10u64), 12345))));
    assert_eq!(
        found,
        FeeInfoResponse::Found { minimal_fee: U256::from(10u64), expiration_date: 12345, fee_ratio: 0 }
    );
    assert_eq!(fee_status_code(&found), 200);

    let missing = fee_info_response(Ok(None));
    assert_eq!(missing, FeeInfoResponse::NotFound);
    assert_eq!(fee_status_code(&missing), 404);

    let failed = fee_info_response(Err(()));
    assert_eq!(failed, FeeInfoResponse::InternalError);
    assert_eq!(fee_status_code(&failed), 500);
}

#[test]
fn addresses_parse_from_prefixed_and_bare_hex() {
    let one = "0x0000000000000000000000000000000000000001";
    assert_eq!(parse_address_hex(one), Some(H160::from_low_u64_be(1)));
    assert_eq!(parse_address_hex(&one[2..]), Some(H160::from_low_u64_be(1)));

    assert_eq!(parse_address_hex(""), None);
    assert_eq!(parse_address_hex("0x01"), None);
    assert_eq!(parse_address_hex("0X0000000000000000000000000000000000000001"), None);
    assert_eq!(parse_address_hex("0x000000000000000000000000000000000000000g"), None);
    assert_eq!(parse_address_hex("0x000000000000000000000000000000000000000A"), None);

    let addr = H160::from_low_u64_be(0xabcdef);
    let rendered = hex_encode(addr.as_bytes());
    assert_eq!(parse_address_hex(&rendered), Some(addr));
}
