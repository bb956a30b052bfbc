use chmi::cap::VcpCode;
use chmi::parse::parse;

fn vc(code: u8, values: &[u8]) -> VcpCode {
    VcpCode { code, values: values.to_vec() }
}

#[test]
fn parse_un880_capabilities() {
    let capabilities_string = "(prot(monitor)type(lcd)UN880cmds(01 02 03 0C E3 F3)vcp(02 04 05 08 10 12 14(05 08 0B ) 16 18 1A 52 60( 11 12 0F 00) AC AE B2 B6 C0 C6 C8 C9 D6(01 04) DF 62 8D F4 F5(00 01 02) F6(00 01 02) 4D 4E 4F 15(01 06 11 13 14 15 18 19 28 29 48) F7(00 01 02 03) F8(00 01) F9 E4 E5 E6 E7 E8 E9 EA EB EF FD(00 01) FE(00 01 02) FF)mccs_ver(2.1)mswhql(1))";
    let capabilities = parse(&capabilities_string).unwrap();
    assert_eq!(
        capabilities.vcp,
        Some(vec![
            vc(0x02, &[]),
            vc(0x04, &[]),
            vc(0x05, &[]),
            vc(0x08, &[]),
            vc(0x10, &[]),
            vc(0x12, &[]),
            vc(0x14, &[0x05, 0x08, 0x0B]),
            vc(0x16, &[]),
            vc(0x18, &[]),
            vc(0x1A, &[]),
            vc(0x52, &[]),
            vc(0x60, &[0x11, 0x12, 0x0F, 0x00]),
            vc(0xAC, &[]),
            vc(0xAE, &[]),
            vc(0xB2, &[]),
            vc(0xB6, &[]),
            vc(0xC0, &[]),
            vc(0xC6, &[]),
            vc(0xC8, &[]),
            vc(0xC9, &[]),
            vc(0xD6, &[0x01, 0x04]),
            vc(0xDF, &[]),
            vc(0x62, &[]),
            vc(0x8D, &[]),
            vc(0xF4, &[]),
            vc(0xF5, &[0x00, 0x01, 0x02]),
            vc(0xF6, &[0x00, 0x01, 0x02]),
            vc(0x4D, &[]),
            vc(0x4E, &[]),
            vc(0x4F, &[]),
            vc(0x15, &[0x01, 0x06, 0x11, 0x13, 0x14, 0x15, 0x18, 0x19, 0x28, 0x29, 0x48]),
            vc(0xF7, &[0x00, 0x01, 0x02, 0x03]),
            vc(0xF8, &[0x00, 0x01]),
            vc(0xF9, &[]),
            vc(0xE4, &[]),
            vc(0xE5, &[]),
            vc(0xE6, &[]),
            vc(0xE7, &[]),
            vc(0xE8, &[]),
            vc(0xE9, &[]),
            vc(0xEA, &[]),
            vc(0xEB, &[]),
            vc(0xEF, &[]),
            vc(0xFD, &[0x00, 0x01]),
            vc(0xFE, &[0x00, 0x01, 0x02]),
            vc(0xFF, &[]),
        ])
    );
}

#[test]
fn parse_u32j59x_capabilities() {
    let capabilities_string = "(prot(monitor)type(lcd)SAMSUNGcmds(01 02 03 07 0C E3 F3)vcp(02 04 05 08 10 12 14(05 08 0B 0C) 16 18 1A 52 60( 11 12 0F) AC AE B2 B6 C6 C8 C9 D6(01 04 05) DC(00 02 03 05 ) DF FD)mccs_ver(2.1)mswhql(1))";
    let capabilities = parse(&capabilities_string).unwrap();
    assert_eq!(
        capabilities.vcp,
        Some(vec![
            vc(0x02, &[]),
            vc(0x04, &[]),
            vc(0x05, &[]),
            vc(0x08, &[]),
            vc(0x10, &[]),
            vc(0x12, &[]),
            vc(0x14, &[0x05, 0x08, 0x0B, 0x0C]),
            vc(0x16, &[]),
            vc(0x18, &[]),
            vc(0x1A, &[]),
            vc(0x52, &[]),
            vc(0x60, &[0x11, 0x12, 0x0F]),
            vc(0xAC, &[]),
            vc(0xAE, &[]),
            vc(0xB2, &[]),
            vc(0xB6, &[]),
            vc(0xC6, &[]),
            vc(0xC8, &[]),
            vc(0xC9, &[]),
            vc(0xD6, &[0x01, 0x04, 0x05]),
            vc(0xDC, &[0x00, 0x02, 0x03, 0x05]),
            vc(0xDF, &[]),
            vc(0xFD, &[]),
        ])
    );
}

#[test]
fn parse_vg259_capabilities() {
    let capabilities_string = "(prot(monitor) type(LCD)model(VG259) cmds(01 02 03 07 0C F3) vcp(02 04 05 08 10 12 14(05 06 08 0B) 16 18 1A 52 60(11 12 0F) 62 6C 6E 70 86(02 0B) 87(00 0A 14 1E 28 32 3C 46 50 5A 64) 8A 8D(01 02) AC AE B6 C6 C8 C9 CC(01 02 03 04 05 06 07 08 09 0A 0C 0D 11 12 14 1A 1E 1F 23 30 31) D6(01 05) DC(01 02 03 04 05 06 07 08) DF E0(00 01 02 03 04 05) E1(00 01) E3(00 01 02 03 04 05 06) E4(00 01 02 03 04 05) E5(00 01 02 03) E6(00 01 02 03 04) E7(00 01) E9(00 01) EA(00 01) EB(00 01))mccs_ver(2.2)asset_eep(32)mpu(01)mswhql(1))";
    let capabilities = parse(&capabilities_string).unwrap();
    assert_eq!(
        capabilities.vcp,
        Some(vec![
            vc(0x02, &[]),
            vc(0x04, &[]),
            vc(0x05, &[]),
            vc(0x08, &[]),
            vc(0x10, &[]),
            vc(0x12, &[]),
            vc(0x14, &[0x05, 0x06, 0x08, 0x0B]),
            vc(0x16, &[]),
            vc(0x18, &[]),
            vc(0x1A, &[]),
            vc(0x52, &[]),
            vc(0x60, &[0x11, 0x12, 0x0F]),
            vc(0x62, &[]),
            vc(0x6C, &[]),
            vc(0x6E, &[]),
            vc(0x70, &[]),
            vc(0x86, &[0x02, 0x0B]),
            vc(0x87, &[0x00, 0x0A, 0x14, 0x1E, 0x28, 0x32, 0x3C, 0x46, 0x50, 0x5A, 0x64]),
            vc(0x8A, &[]),
            vc(0x8D, &[0x01, 0x02]),
            vc(0xAC, &[]),
            vc(0xAE, &[]),
            vc(0xB6, &[]),
            vc(0xC6, &[]),
            vc(0xC8, &[]),
            vc(0xC9, &[]),
            vc(
                0xCC,
                &[
                    0x01, 0x02, 0x03, 0x04, 0x05, 0x06, 0x07, 0x08, 0x09, 0x0A, 0x0C, 0x0D, 0x11,
                    0x12, 0x14, 0x1A, 0x1E, 0x1F, 0x23, 0x30, 0x31,
                ],
            ),
            vc(0xD6, &[0x01, 0x05]),
            vc(0xDC, &[0x01, 0x02, 0x03, 0x04, 0x05, 0x06, 0x07, 0x08]),
            vc(0xDF, &[]),
            vc(0xE0, &[0x00, 0x01, 0x02, 0x03, 0x04, 0x05]),
            vc(0xE1, &[0x00, 0x01]),
            vc(0xE3, &[0x00, 0x01, 0x02, 0x03, 0x04, 0x05, 0x06]),
            vc(0xE4, &[0x00, 0x01, 0x02, 0x03, 0x04, 0x05]),
            vc(0xE5, &[0x00, 0x01, 0x02, 0x03]),
            vc(0xE6, &[0x00, 0x01, 0x02, 0x03, 0x04]),
            vc(0xE7, &[0x00, 0x01]),
            vc(0xE9, &[0x00, 0x01]),
            vc(0xEA, &[0x00, 0x01]),
            vc(0xEB, &[0x00, 0x01]),
        ])
    );
}
