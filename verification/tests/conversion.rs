use currency_converter::errors::ConversionError;
use currency_converter::utils::convert_currency;
use currency_converter::{ApiResponse, RateEntry};

fn usd_gbp_snapshot() -> ApiResponse {
    ApiResponse {
        base_code: "USD".to_string(),
        time_next_update_unix: 1000,
        conversion_rates: vec![RateEntry { code: "GBP".to_string(), rate_micro: 790_000 }],
    }
}

#[test]
fn converts_usd_to_gbp() {
    // 10.00 USD at 0.79 GBP per USD is exactly 7.90 GBP.
    let snapshot = usd_gbp_snapshot();
    let result = convert_currency(1000, "GBP", &snapshot);
    assert_eq!(result, Ok(790));
}

#[test]
fn missing_target_code_is_currency_not_found() {
    let snapshot = usd_gbp_snapshot();
    let result = convert_currency(1000, "JPY", &snapshot);
    assert_eq!(
        result,
        Err(ConversionError::CurrencyNotFound("USD".to_string(), "JPY".to_string()))
    );
}

#[test]
fn exact_half_rounds_up() {
    // 5.00 at rate 1.001: the product is 5.005, whose half-cent rounds
    // away from zero to 5.01.
    let snapshot = ApiResponse {
        base_code: "USD".to_string(),
        time_next_update_unix: 1000,
        conversion_rates: vec![RateEntry { code: "EUR".to_string(), rate_micro: 1_001_000 }],
    };
    assert_eq!(convert_currency(500, "EUR", &snapshot), Ok(501));
}

#[test]
fn below_half_rounds_down() {
    // 1.00 at rate 1.004999 stays at 1.00.
    let snapshot = ApiResponse {
        base_code: "USD".to_string(),
        time_next_update_unix: 1000,
        conversion_rates: vec![RateEntry { code: "EUR".to_string(), rate_micro: 1_004_999 }],
    };
    assert_eq!(convert_currency(100, "EUR", &snapshot), Ok(100));
}

#[test]
fn conversion_is_deterministic() {
    let snapshot = usd_gbp_snapshot();
    let first = convert_currency(123_456, "GBP", &snapshot);
    let second = convert_currency(123_456, "GBP", &snapshot);
    assert_eq!(first, second);
    assert_eq!(first, Ok(97_530));
}

#[test]
fn first_matching_entry_wins() {
    let snapshot = ApiResponse {
        base_code: "USD".to_string(),
        time_next_update_unix: 1000,
        conversion_rates: vec![
            RateEntry { code: "CHF".to_string(), rate_micro: 2_000_000 },
            RateEntry { code: "GBP".to_string(), rate_micro: 790_000 },
        ],
    };
    assert_eq!(convert_currency(100, "GBP", &snapshot), Ok(79));
    assert_eq!(convert_currency(100, "CHF", &snapshot), Ok(200));
}
