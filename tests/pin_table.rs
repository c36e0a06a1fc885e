use embassy_ra::pin_config::PinRecord;
use embassy_ra::pin_table::{generate, write_foreach_pin_macro, write_peripherals_mod, write_pin_table, write_preamble};

fn rec(ident: &str, port: &str, pn: u8, pi: u8) -> PinRecord {
    PinRecord { identifier: ident.to_string(), port_name: port.to_string(), port_number: pn, pin_number: pi }
}

#[test]
fn foreach_list_has_one_entry_per_pin() {
    let text = write_foreach_pin_macro(&vec![rec("P1_2", "PORT1", 1, 2), rec("P0_11", "PORT0", 0, 11)]);
    assert_eq!(
        text,
        "use embassy_hal_internal::impl_peripheral;\n\n#[doc(hidden)]\n#[macro_export]\nmacro_rules! foreach_pin {\n    ($macro:ident) => {\n        $macro!(P1_2, PORT1, 1, 2);\n        $macro!(P0_11, PORT0, 0, 11);\n    };\n}\n"
    );
}

#[test]
fn marker_types_one_per_pin() {
    let text = write_peripherals_mod(&vec![rec("P1_2", "PORT1", 1, 2)]);
    assert_eq!(
        text,
        "\n/// Zero-sized marker types for every enabled pin\npub mod peripherals {\n    use super::*;\n\n    #[derive(Debug)]\n    pub struct P1_2 { pub _private: () }\n    impl_peripheral!(P1_2);\n}\n"
    );
}

#[test]
fn table_is_banner_list_and_types() {
    let pins = vec![rec("P3_4", "PORT3", 3, 4)];
    let whole = write_pin_table(&pins);
    let parts = write_preamble() + &write_foreach_pin_macro(&pins) + &write_peripherals_mod(&pins);
    assert_eq!(whole, parts);
    assert!(write_preamble().starts_with("// ---"));
    assert!(whole.contains("        $macro!(P3_4, PORT3, 3, 4);\n"));
}

#[test]
fn generate_is_deterministic() {
    let report: Vec<String> =
        ["header", "Pin Configurations", "P102 Enabled", "P105 Disabled"].iter().map(|s| s.to_string()).collect();
    let a = generate(&report);
    let b = generate(&report.clone());
    assert_eq!(a, b);
    assert!(a.contains("$macro!(P1_2, PORT1, 1, 2);"));
    assert!(!a.contains("P1_5"));
}

#[test]
fn generate_without_pins_uses_fallback() {
    let a = generate(&Vec::new());
    assert!(a.contains("        $macro!(P0_0, PORT0, 0, 0);\n"));
    assert!(a.contains("pub struct P0_0 { pub _private: () }"));
}
