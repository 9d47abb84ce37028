use octopus::errors::AccountingError;
use octopus::input::{parse_side, read_order_parameters, InputError};
use octopus::service::{error_message, OctopusError, Rejection};
use octopus::text::{decimal_string, parse_number, NumberError};
use octopus::types::{Order, Side};

#[test]
fn numbers_are_written_in_decimal() {
    assert_eq!(decimal_string(0), "0");
    assert_eq!(decimal_string(7), "7");
    assert_eq!(decimal_string(10), "10");
    assert_eq!(decimal_string(1234567890), "1234567890");
    assert_eq!(decimal_string(u64::MAX), "18446744073709551615");
}

#[test]
fn numbers_are_read_from_decimal_digits() {
    assert_eq!(parse_number("0"), Ok(0));
    assert_eq!(parse_number("42"), Ok(42));
    assert_eq!(parse_number("+42"), Ok(42));
    assert_eq!(parse_number("007"), Ok(7));
    assert_eq!(parse_number("18446744073709551615"), Ok(u64::MAX));
    assert_eq!(parse_number("18446744073709551616"), Err(NumberError::TooLarge));
    assert_eq!(parse_number("99999999999999999999999"), Err(NumberError::TooLarge));
    assert_eq!(parse_number(""), Err(NumberError::Empty));
    assert_eq!(parse_number("+"), Err(NumberError::InvalidDigit));
    assert_eq!(parse_number("-"), Err(NumberError::InvalidDigit));
    assert_eq!(parse_number("-5"), Err(NumberError::InvalidDigit));
    assert_eq!(parse_number("++5"), Err(NumberError::InvalidDigit));
    assert_eq!(parse_number("12a"), Err(NumberError::InvalidDigit));
    assert_eq!(parse_number(" 12"), Err(NumberError::InvalidDigit));
    assert_eq!(parse_number("1.5"), Err(NumberError::InvalidDigit));
    assert_eq!(parse_number("٣"), Err(NumberError::InvalidDigit));
    assert_eq!(parse_number("1844674407370955161x"), Err(NumberError::InvalidDigit));
    assert_eq!(parse_number("184467440737095516160x"), Err(NumberError::TooLarge));
}

#[test]
fn what_is_written_reads_back() {
    for n in [0, 1, 9, 10, 99, 100, 4096, u64::MAX - 1, u64::MAX] {
        assert_eq!(parse_number(&decimal_string(n)), Ok(n));
    }
}

#[test]
fn a_side_is_named_in_any_case() {
    assert_eq!(parse_side("buy"), Ok(Side::Buy));
    assert_eq!(parse_side("BUY"), Ok(Side::Buy));
    assert_eq!(parse_side("Buy"), Ok(Side::Buy));
    assert_eq!(parse_side("sell"), Ok(Side::Sell));
    assert_eq!(parse_side("SeLL"), Ok(Side::Sell));
    assert_eq!(parse_side(""), Err(InputError::UnsupportedSide));
    assert_eq!(parse_side("bu"), Err(InputError::UnsupportedSide));
    assert_eq!(parse_side("buys"), Err(InputError::UnsupportedSide));
    assert_eq!(parse_side("sel1"), Err(InputError::UnsupportedSide));
    assert_eq!(parse_side(" buy"), Err(InputError::UnsupportedSide));
}

#[test]
fn a_side_is_written_out_letter_for_letter() {
    assert_eq!(Side::named("Buy"), Some(Side::Buy));
    assert_eq!(Side::named("Sell"), Some(Side::Sell));
    assert_eq!(Side::named("buy"), None);
    assert_eq!(Side::named("SELL"), None);
    assert_eq!(Side::named("Buy "), None);
    assert_eq!(Side::named(""), None);
}

#[test]
fn an_order_is_read_from_four_texts() {
    assert_eq!(
        read_order_parameters("ALICE", "Sell", "3", "10"),
        Ok(Order { price: 10, amount: 3, side: Side::Sell, signer: "ALICE".to_string() })
    );
    assert_eq!(
        read_order_parameters("", "buy", "+1", "0"),
        Ok(Order { price: 0, amount: 1, side: Side::Buy, signer: "".to_string() })
    );
    assert_eq!(
        read_order_parameters("ALICE", "hold", "x", "y"),
        Err("Unsupported order side".to_string())
    );
    assert_eq!(
        read_order_parameters("ALICE", "buy", "", "y"),
        Err("cannot parse integer from empty string".to_string())
    );
    assert_eq!(
        read_order_parameters("ALICE", "buy", "1", "y"),
        Err("invalid digit found in string".to_string())
    );
    assert_eq!(
        read_order_parameters("ALICE", "buy", "1", "18446744073709551616"),
        Err("number too large to fit in target type".to_string())
    );
}

#[test]
fn input_errors_speak_as_the_standard_library_does() {
    assert_eq!(InputError::UnsupportedSide.message(), "Unsupported order side");
    assert_eq!(
        InputError::Number(NumberError::Empty).message(),
        "".parse::<u64>().unwrap_err().to_string()
    );
    assert_eq!(
        InputError::Number(NumberError::InvalidDigit).message(),
        "x".parse::<u64>().unwrap_err().to_string()
    );
    assert_eq!(
        InputError::Number(NumberError::TooLarge).message(),
        "18446744073709551616".parse::<u64>().unwrap_err().to_string()
    );
}

#[test]
fn number_reading_agrees_with_the_standard_library() {
    for text in ["", "+", "-", "0", "+0", "-0", "12", "0012", "1_000", "18446744073709551615",
        "18446744073709551616", "+18446744073709551615", "12 ", "a", "1a", "+-1", "９"]
    {
        assert_eq!(parse_number(text).ok(), text.parse::<u64>().ok(), "{}", text);
    }
}

#[test]
fn rejections_become_error_bodies() {
    let body = error_message(&Rejection::NotFound);
    assert_eq!((body.code, body.message.as_str()), (404, "NOT_FOUND"));
    let body = error_message(&Rejection::MalformedBody);
    assert_eq!((body.code, body.message.as_str()), (400, "BAD_REQUEST"));
    let body = error_message(&Rejection::MethodNotAllowed);
    assert_eq!((body.code, body.message.as_str()), (405, "METHOD_NOT_ALLOWED"));
    let body = error_message(&Rejection::Unhandled);
    assert_eq!((body.code, body.message.as_str()), (500, "UNHANDLED_REJECTION"));
}

#[test]
fn platform_failures_become_error_bodies() {
    let wrap = |error: AccountingError| Rejection::Platform(OctopusError::new(error));
    let body = error_message(&wrap(AccountingError::AccountNotFound("ALICE".to_string())));
    assert_eq!((body.code, body.message.as_str()), (404, "Cannot find account ALICE"));
    let body = error_message(&wrap(AccountingError::AccountOverFunded("BOB".to_string(), 120)));
    assert_eq!(
        (body.code, body.message.as_str()),
        (500, "Cannot exceed maximum with deposit of 120 to  account BOB")
    );
    let body = error_message(&wrap(AccountingError::AccountUnderFunded("BOB".to_string(), u64::MAX)));
    assert_eq!(
        (body.code, body.message.as_str()),
        (500, "Cannot withdraw from 18446744073709551615  from underfunded  account BOB")
    );
    let body = error_message(&wrap(AccountingError::OrderRejected("BOB".to_string())));
    assert_eq!((body.code, body.message.as_str()), (400, "BAD_REQUEST"));
}
