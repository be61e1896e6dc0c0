use sol_ctf_framework::address::Address;
use sol_ctf_framework::instruction::AccountRef;
use sol_ctf_framework::protocol::{
    clamp_len, is_whitespace, parse_account_line, parse_header, parse_length_header, parse_meta,
    AccountFlags, ProtocolError, MAX_PAYLOAD_LEN,
};
use solana_sdk::pubkey::Pubkey;
use std::str::FromStr;

const RENT_SYSVAR: &str = "SysvarRent111111111111111111111111111111111";

fn flags(is_signer: bool, is_writable: bool, is_executable: bool) -> AccountFlags {
    AccountFlags { is_signer, is_writable, is_executable }
}

#[test]
fn header_parses_decimal_with_surrounding_whitespace() {
    assert_eq!(parse_header("42\n"), Ok(42));
    assert_eq!(parse_header("  42 \r\n"), Ok(42));
    assert_eq!(parse_header("+7\n"), Ok(7));
    assert_eq!(parse_header("0"), Ok(0));
    assert_eq!(parse_header("\u{a0}5\u{3000}"), Ok(5));
}

#[test]
fn header_rejects_non_numeric_text() {
    assert_eq!(parse_header("abc\n"), Err(ProtocolError::InvalidNumber));
    assert_eq!(parse_header("\n"), Err(ProtocolError::InvalidNumber));
    assert_eq!(parse_header(""), Err(ProtocolError::InvalidNumber));
    assert_eq!(parse_header("+"), Err(ProtocolError::InvalidNumber));
    assert_eq!(parse_header("-1"), Err(ProtocolError::InvalidNumber));
    assert_eq!(parse_header("1 2"), Err(ProtocolError::InvalidNumber));
    assert_eq!(parse_header("12a"), Err(ProtocolError::InvalidNumber));
}

#[test]
fn header_agrees_with_std_parse() {
    for text in ["0", "17", "+3", "", "x", "007", "-0", "99999999999999999999", " 8 "] {
        let expected = text.trim().parse::<usize>().ok();
        assert_eq!(parse_header(text).ok(), expected, "{:?}", text);
    }
}

#[test]
fn header_rejects_overflow() {
    let max = usize::MAX.to_string();
    assert_eq!(parse_header(&max), Ok(usize::MAX));
    let over = format!("{}0", max);
    assert_eq!(parse_header(&over), Err(ProtocolError::InvalidNumber));
}

#[test]
fn length_header_within_cap_is_kept() {
    assert_eq!(parse_length_header("5\n"), Ok(5));
    assert_eq!(parse_length_header("100000\n"), Ok(100000));
}

#[test]
fn length_header_above_cap_is_clamped() {
    assert_eq!(MAX_PAYLOAD_LEN, 100000);
    assert_eq!(parse_length_header("999999\n"), Ok(MAX_PAYLOAD_LEN));
    assert_eq!(parse_length_header("100001"), Ok(MAX_PAYLOAD_LEN));
    assert_eq!(parse_length_header("x"), Err(ProtocolError::InvalidNumber));
}

#[test]
fn clamp_len_bounds_lengths() {
    assert_eq!(clamp_len(0), 0);
    assert_eq!(clamp_len(99_999), 99_999);
    assert_eq!(clamp_len(usize::MAX), MAX_PAYLOAD_LEN);
}

#[test]
fn whitespace_matches_char_is_whitespace() {
    for c in ['\t', '\n', '\r', ' ', '\u{85}', '\u{a0}', '\u{2003}', '\u{3000}', 'a', '0', '\u{200b}'] {
        assert_eq!(is_whitespace(c), c.is_whitespace(), "{:?}", c);
    }
}

#[test]
fn meta_flags_from_letters() {
    assert_eq!(parse_meta("s"), flags(true, false, false));
    assert_eq!(parse_meta("w"), flags(false, true, false));
    assert_eq!(parse_meta("sw"), flags(true, true, false));
    assert_eq!(parse_meta(""), flags(false, false, false));
    assert_eq!(parse_meta("e"), flags(false, false, true));
}

#[test]
fn meta_flags_ignore_order_and_other_characters() {
    assert_eq!(parse_meta("ws"), parse_meta("sw"));
    assert_eq!(parse_meta("xwqsz"), flags(true, true, false));
    assert_eq!(parse_meta("S"), flags(false, false, false));
    assert_eq!(parse_meta("ssww"), parse_meta("ws"));
}

#[test]
fn account_line_parses_meta_and_address() {
    let key = Pubkey::from_str(RENT_SYSVAR).unwrap();
    let line = format!("sw {}\n", RENT_SYSVAR);
    let expected = AccountRef { address: Address::new(key.to_bytes()), is_signer: true, is_writable: true };
    assert_eq!(parse_account_line(&line), Ok(expected));
    let line = format!("r {}", RENT_SYSVAR);
    let expected = AccountRef { address: Address::new(key.to_bytes()), is_signer: false, is_writable: false };
    assert_eq!(parse_account_line(&line), Ok(expected));
}

#[test]
fn account_line_ignores_fields_after_address() {
    let line = format!("w {} trailing", RENT_SYSVAR);
    let r = parse_account_line(&line).unwrap();
    assert_eq!(r.address.bytes, Pubkey::from_str(RENT_SYSVAR).unwrap().to_bytes());
    assert!(r.is_writable);
    assert!(!r.is_signer);
}

#[test]
fn account_line_without_address_is_rejected() {
    assert_eq!(parse_account_line("sw\n"), Err(ProtocolError::MissingAddress));
    assert_eq!(parse_account_line(""), Err(ProtocolError::MissingAddress));
}

#[test]
fn account_line_with_bad_address_is_rejected() {
    assert_eq!(parse_account_line("w not-a-key!\n"), Err(ProtocolError::BadAddress));
    assert_eq!(parse_account_line("w 1111"), Err(ProtocolError::BadAddress));
    let line = format!("w  {}", RENT_SYSVAR);
    assert_eq!(parse_account_line(&line), Err(ProtocolError::BadAddress));
}

#[test]
fn address_parse_decodes_base58() {
    assert_eq!(Address::parse("11111111111111111111111111111111"), Some(Address::new([0u8; 32])));
    let key = Pubkey::from_str(RENT_SYSVAR).unwrap();
    assert_eq!(Address::parse(RENT_SYSVAR), Some(Address::new(key.to_bytes())));
    assert_eq!(Address::parse(""), None);
    assert_eq!(Address::parse("0OIl"), None);
}

#[test]
fn account_line_with_empty_meta_has_no_flags() {
    let expected = AccountRef { address: Address::new([0u8; 32]), is_signer: false, is_writable: false };
    assert_eq!(parse_account_line(" 11111111111111111111111111111111\n"), Ok(expected));
}

#[test]
fn account_line_keeps_leading_text_as_meta() {
    let line = format!("  {}", RENT_SYSVAR);
    assert_eq!(parse_account_line(&line), Err(ProtocolError::BadAddress));
    let line = format!("sw {} \r\n", RENT_SYSVAR);
    assert_eq!(parse_account_line(&line).map(|r| r.is_signer), Ok(true));
}
