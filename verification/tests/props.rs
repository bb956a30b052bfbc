use chmi::cap::{Input, VcpCode};
use chmi::display::{get_display_names, get_input, DisplayInfo, Error};
use chmi::parse::{parse, ParseError};
use chmi::token::Token;

fn vc(code: u8, values: &[u8]) -> VcpCode {
    VcpCode { code, values: values.to_vec() }
}

fn display(device_id: &str, name: &str) -> DisplayInfo {
    DisplayInfo { device_id: device_id.to_string(), name: name.to_string() }
}

#[test]
fn parse_is_deterministic() {
    let capabilities_string =
        "(prot(monitor)type(lcd)vcp(02 14(05 08 0B) 60(11 12 0F 00))mccs_ver(2.1))";
    let first = parse(&capabilities_string);
    let second = parse(&capabilities_string);
    assert_eq!(first, second);
}

#[test]
fn empty_vcp_group_parses() {
    let capabilities = parse("(vcp())").unwrap();
    assert_eq!(capabilities.vcp, Some(vec![]));
}

#[test]
fn truncated_string_fails_end_of_file() {
    assert_eq!(parse("(vcp(01 02"), Err(ParseError::EndOfFile));
}

#[test]
fn disallowed_character_fails_invalid_token() {
    assert_eq!(
        parse("(prot($))"),
        Err(ParseError::InvalidToken { start: 6, end: 7, text: "$".to_string() })
    );
}

#[test]
fn non_byte_value_fails_expected_value() {
    assert_eq!(
        parse("(vcp(01 02 monitor))"),
        Err(ParseError::ExpectedValue { found: Token::Unknown })
    );
}

#[test]
fn un880_end_to_end() {
    let capabilities_string = "(prot(monitor)type(lcd)UN880cmds(01 02 03 0C E3 F3)vcp(02 04 05 08 10 12 14(05 08 0B) 60(11 12 0F 00))mccs_ver(2.1))";
    let capabilities = parse(&capabilities_string).unwrap();
    let codes = capabilities.vcp.as_ref().unwrap();
    assert!(codes.contains(&vc(0x14, &[0x05, 0x08, 0x0B])));
    assert!(codes.contains(&vc(0x60, &[0x11, 0x12, 0x0F, 0x00])));
    assert!(capabilities.has_input_select());
    assert_eq!(
        capabilities.inputs(),
        Some(vec![Input::Hdmi1, Input::Hdmi2, Input::DisplayPort1])
    );
}

#[test]
fn no_vcp_group_end_to_end() {
    let capabilities = parse("(prot(monitor)type(lcd))").unwrap();
    assert_eq!(capabilities.vcp, None);
    assert!(!capabilities.has_input_select());
    assert_eq!(capabilities.inputs(), None);
}

#[test]
fn unmapped_bytes_never_listed() {
    let capabilities = parse("(vcp(60(00 01 0F 99 10)))").unwrap();
    assert_eq!(capabilities.inputs(), Some(vec![Input::DisplayPort1, Input::DisplayPort2]));
}

#[test]
fn vcp_without_input_select_entry() {
    let capabilities = parse("(vcp(02 04))").unwrap();
    assert!(!capabilities.has_input_select());
    assert_eq!(capabilities.inputs(), None);
}

#[test]
fn misplaced_byte_fails_expected() {
    assert_eq!(
        parse("(01)"),
        Err(ParseError::Expected { wanted: Token::Unknown, found: Token::HexNumber(0x01) })
    );
}

#[test]
fn missing_outer_parenthesis_fails_expected() {
    assert_eq!(
        parse("x"),
        Err(ParseError::Expected { wanted: Token::LeftParen, found: Token::Unknown })
    );
}

#[test]
fn empty_string_fails_end_of_file() {
    assert_eq!(parse(""), Err(ParseError::EndOfFile));
}

#[test]
fn nul_bytes_are_skipped() {
    let capabilities = parse("(vcp(60(11)))\u{0}").unwrap();
    assert_eq!(capabilities.inputs(), Some(vec![Input::Hdmi1]));
}

#[test]
fn extra_whitespace_is_skipped() {
    let capabilities = parse("( vcp ( 60 ( 11 12 ) ) )").unwrap();
    assert_eq!(capabilities.inputs(), Some(vec![Input::Hdmi1, Input::Hdmi2]));
}

#[test]
fn longer_run_is_identifier_not_keyword() {
    let capabilities = parse("(vcpx(01))").unwrap();
    assert_eq!(capabilities.vcp, None);
}

#[test]
fn lowercase_hex_is_identifier() {
    assert_eq!(
        parse("(vcp(ab))"),
        Err(ParseError::ExpectedValue { found: Token::Unknown })
    );
}

#[test]
fn byte_followed_by_word_character_is_identifier() {
    assert_eq!(
        parse("(vcp(01a))"),
        Err(ParseError::ExpectedValue { found: Token::Unknown })
    );
}

#[test]
fn unknown_group_skip_is_shallow() {
    let capabilities = parse("(foo(a(b))bar(c))").unwrap();
    assert_eq!(capabilities.vcp, None);
}

#[test]
fn nested_unknown_group_desynchronizes() {
    assert_eq!(
        parse("(foo(a(b)x)vcp(01))"),
        Err(ParseError::Expected { wanted: Token::LeftParen, found: Token::RightParen })
    );
}

#[test]
fn later_vcp_group_replaces_earlier() {
    let capabilities = parse("(vcp(01)vcp(02))").unwrap();
    assert_eq!(capabilities.vcp, Some(vec![vc(0x02, &[])]));
}

#[test]
fn input_byte_mapping_is_bidirectional() {
    let inputs =
        [Input::DisplayPort1, Input::DisplayPort2, Input::Hdmi1, Input::Hdmi2];
    let bytes = [0x0F, 0x10, 0x11, 0x12];
    for (input, byte) in inputs.iter().zip(bytes.iter()) {
        assert_eq!(input.to_byte(), *byte);
        assert_eq!(Input::from_byte(*byte), Some(*input));
    }
    assert_eq!(Input::from_byte(0x00), None);
    assert_eq!(Input::from_byte(0x13), None);
    assert_eq!(Input::from_byte(0xFF), None);
}

#[test]
fn token_labels() {
    assert_eq!(Token::LeftParen.label(), "'('");
    assert_eq!(Token::RightParen.label(), "')'");
    assert_eq!(Token::Vcp.label(), "'vcp'");
    assert_eq!(Token::HexNumber(0x60).label(), "hexadecimal number");
    assert_eq!(Token::Unknown.label(), "unknown");
}

#[test]
fn input_labels() {
    assert_eq!(Input::DisplayPort1.label(), "DisplayPort 1");
    assert_eq!(Input::DisplayPort2.label(), "DisplayPort 2");
    assert_eq!(Input::Hdmi1.label(), "HDMI 1");
    assert_eq!(Input::Hdmi2.label(), "HDMI 2");
}

#[test]
fn display_names_are_listed_in_order() {
    let displays = vec![display("id-a", "Left"), display("id-b", "Right")];
    assert_eq!(get_display_names(&displays), vec!["Left".to_string(), "Right".to_string()]);
}

#[test]
fn get_input_selects_matching_monitor() {
    let displays = vec![display("id-a", "Left"), display("id-b", "Right")];
    let monitor_ids = vec!["id-a".to_string(), "id-b".to_string()];
    assert_eq!(get_input(&displays, &monitor_ids, "Right"), Ok(1));
    assert_eq!(get_input(&displays, &monitor_ids, "Left"), Ok(0));
}

#[test]
fn get_input_unknown_name_fails() {
    let displays = vec![display("id-a", "Left")];
    let monitor_ids = vec!["id-a".to_string()];
    assert_eq!(
        get_input(&displays, &monitor_ids, "Middle"),
        Err(Error::DisplayNotFound("Middle".to_string()))
    );
}

#[test]
fn get_input_unmatched_device_id_fails() {
    let displays = vec![display("id-c", "Left")];
    let monitor_ids = vec!["id-a".to_string()];
    assert_eq!(
        get_input(&displays, &monitor_ids, "Left"),
        Err(Error::DisplayNotFound("Left".to_string()))
    );
}

#[test]
fn get_input_first_matching_display_wins() {
    let displays = vec![display("id-a", "Twin"), display("id-b", "Twin")];
    let monitor_ids = vec!["id-b".to_string(), "id-a".to_string()];
    assert_eq!(get_input(&displays, &monitor_ids, "Twin"), Ok(1));
}

#[test]
fn first_input_select_entry_wins() {
    let capabilities = parse("(vcp(60(11) 60(12)))").unwrap();
    assert_eq!(capabilities.inputs(), Some(vec![Input::Hdmi1]));
}
