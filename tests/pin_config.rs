use embassy_ra::pin_config::{decimal_string, parse_ra_cfg, PinRecord};

fn lines(text: &[&str]) -> Vec<String> {
    text.iter().map(|l| l.to_string()).collect()
}

fn rec(ident: &str, port: &str, pn: u8, pi: u8) -> PinRecord {
    PinRecord { identifier: ident.to_string(), port_name: port.to_string(), port_number: pn, pin_number: pi }
}

#[test]
fn enabled_line_maps_to_record_and_disabled_is_skipped() {
    let r = parse_ra_cfg(&lines(&[
        "Pin Configurations",
        "P105 GPIO Output Disabled",
        "P102 GPIO Output Enabled",
    ]));
    assert_eq!(r, vec![rec("P1_2", "PORT1", 1, 2)]);
    let r = parse_ra_cfg(&lines(&["Pin Configurations", "P105 GPIO Enabled"]));
    assert_eq!(r, vec![rec("P1_5", "PORT1", 1, 5)]);
}

#[test]
fn no_enabled_pin_gives_fallback() {
    assert_eq!(parse_ra_cfg(&lines(&[])), vec![rec("P0_0", "PORT0", 0, 0)]);
    assert_eq!(
        parse_ra_cfg(&lines(&["Pin Configurations", "P105 Disabled", "nothing here"])),
        vec![rec("P0_0", "PORT0", 0, 0)]
    );
}

#[test]
fn lines_before_header_are_ignored() {
    let r = parse_ra_cfg(&lines(&["P101 Enabled", "P202 Enabled", "  Pin Configurations  ", "P303 Enabled"]));
    assert_eq!(r, vec![rec("P3_3", "PORT3", 3, 3)]);
    let r = parse_ra_cfg(&lines(&["P101 Enabled", "P202 Enabled"]));
    assert_eq!(r, vec![rec("P0_0", "PORT0", 0, 0)]);
}

#[test]
fn duplicates_keep_first_occurrence() {
    let r = parse_ra_cfg(&lines(&[
        "Pin Configurations",
        "P204 A",
        "P011 B",
        "P204 C",
        "P011 D",
        "P915 E",
    ]));
    assert_eq!(
        r,
        vec![rec("P2_4", "PORT2", 2, 4), rec("P0_11", "PORT0", 0, 11), rec("P9_15", "PORT9", 9, 15)]
    );
}

#[test]
fn token_shape_is_checked() {
    let r = parse_ra_cfg(&lines(&[
        "Pin Configurations",
        "P1000 too long",
        "Q100 wrong letter",
        "PA00 no port digit",
        "x P100 not first",
        "",
        "P1ab bad pin number",
        "\t P407\r",
    ]));
    assert_eq!(r, vec![rec("P1_0", "PORT1", 1, 0), rec("P4_7", "PORT4", 4, 7)]);
}

#[test]
fn unicode_white_space_separates_tokens() {
    let r = parse_ra_cfg(&lines(&["\u{3000}Pin Configurations", "\u{a0}P512\u{2003}Enabled"]));
    assert_eq!(r, vec![rec("P5_12", "PORT5", 5, 12)]);
}

#[test]
fn second_header_is_not_a_pin() {
    let r = parse_ra_cfg(&lines(&["Pin Configurations", "Pin Configurations P100", "P600"]));
    assert_eq!(r, vec![rec("P6_0", "PORT6", 6, 0)]);
}

#[test]
fn record_new_names() {
    assert_eq!(PinRecord::new(7, 99), rec("P7_99", "PORT7", 7, 99));
}

#[test]
fn decimal_strings() {
    assert_eq!(decimal_string(0), "0");
    assert_eq!(decimal_string(7), "7");
    assert_eq!(decimal_string(42), "42");
    assert_eq!(decimal_string(100), "100");
    assert_eq!(decimal_string(255), "255");
}
