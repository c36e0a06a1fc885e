//! Writing the pin table: one marker type per enabled pin and the
//! `foreach_pin` list that downstream code expands for every pin.
use vstd::prelude::*;

use crate::pin_config::{decimal, decimal_string, enabled_pins, line_views, parse_ra_cfg, record_of, RecordView, PinRecord};

verus! {

/// The banner at the top of the table.
pub open spec fn preamble() -> Seq<char> {
    "// -----------------------------------------------------------------------------\n//  *** DO NOT EDIT ***\n//  Pin table of the enabled pins, rewritten from the pin configuration on every build.\n// -----------------------------------------------------------------------------\n\n"@
}

/// The text before the entries of the `foreach_pin` list.
pub open spec fn foreach_head() -> Seq<char> {
    "use embassy_hal_internal::impl_peripheral;\n\n#[doc(hidden)]\n#[macro_export]\nmacro_rules! foreach_pin {\n    ($macro:ident) => {\n"@
}

/// The text after the entries of the `foreach_pin` list.
pub open spec fn foreach_tail() -> Seq<char> {
    "    };\n}\n"@
}

/// The entry of one pin in the `foreach_pin` list.
pub open spec fn foreach_entry(r: RecordView) -> Seq<char> {
    "        $macro!("@ + r.0 + ", "@ + r.1 + ", "@ + decimal(r.2) + ", "@ + decimal(r.3) + ");\n"@
}

/// The entries of all the pins, in order.
pub open spec fn foreach_entries(pins: Seq<RecordView>) -> Seq<char>
    decreases pins.len(),
{
    if pins.len() == 0 {
        Seq::empty()
    } else {
        foreach_entries(pins.drop_last()) + foreach_entry(pins.last())
    }
}

/// The `foreach_pin` list of the pins.
pub open spec fn foreach_text(pins: Seq<RecordView>) -> Seq<char> {
    foreach_head() + foreach_entries(pins) + foreach_tail()
}

/// The text before the marker types.
pub open spec fn peripherals_head() -> Seq<char> {
    "\n/// Zero-sized marker types for every enabled pin\npub mod peripherals {\n    use super::*;\n\n"@
}

/// The text after the marker types.
pub open spec fn peripherals_tail() -> Seq<char> {
    "}\n"@
}

/// The marker type of one pin.
pub open spec fn marker_type(r: RecordView) -> Seq<char> {
    "    #[derive(Debug)]\n    pub struct "@ + r.0 + " { pub _private: () }\n    impl_peripheral!("@ + r.0
        + ");\n"@
}

/// The marker types of all the pins, in order.
pub open spec fn marker_types(pins: Seq<RecordView>) -> Seq<char>
    decreases pins.len(),
{
    if pins.len() == 0 {
        Seq::empty()
    } else {
        marker_types(pins.drop_last()) + marker_type(pins.last())
    }
}

/// The module of marker types of the pins.
pub open spec fn peripherals_text(pins: Seq<RecordView>) -> Seq<char> {
    peripherals_head() + marker_types(pins) + peripherals_tail()
}

/// The whole pin table of the pins.
pub open spec fn table_text(pins: Seq<RecordView>) -> Seq<char> {
    preamble() + foreach_text(pins) + peripherals_text(pins)
}

/// The views of a list of records.
pub open spec fn record_views(pins: Seq<PinRecord>) -> Seq<RecordView> {
    pins.map_values(|r: PinRecord| r@)
}

/// The pin table that a pin-configuration report gives.
pub open spec fn table_of_report(lines: Seq<String>) -> Seq<char> {
    table_text(enabled_pins(line_views(lines)).map_values(|p: (u8, u8)| record_of(p)))
}

/// The banner at the top of the table.
pub fn write_preamble() -> (r: String)
    ensures
        r@ == preamble(),
{
    String::from_str("// -----------------------------------------------------------------------------\n//  *** DO NOT EDIT ***\n//  Pin table of the enabled pins, rewritten from the pin configuration on every build.\n// -----------------------------------------------------------------------------\n\n")
}

/// The `foreach_pin` list: one `$macro!(identifier, port name, port number,
/// pin number);` entry per pin, in order.
pub fn write_foreach_pin_macro(pins: &Vec<PinRecord>) -> (r: String)
    ensures
        r@ == foreach_text(record_views(pins@)),
{
    let ghost views = record_views(pins@);
    let mut out = String::from_str("use embassy_hal_internal::impl_peripheral;\n\n#[doc(hidden)]\n#[macro_export]\nmacro_rules! foreach_pin {\n    ($macro:ident) => {\n");
    let mut i: usize = 0;
    assert(views.subrange(0, 0) =~= Seq::<RecordView>::empty());
    assert(foreach_head() + Seq::<char>::empty() =~= foreach_head());
    while i < pins.len()
        invariant
            views == record_views(pins@),
            i <= pins@.len(),
            out@ == foreach_head() + foreach_entries(views.subrange(0, i as int)),
        decreases pins@.len() - i,
    {
        let r = &pins[i];
        out.append("        $macro!(");
        out.append(r.identifier.as_str());
        out.append(", ");
        out.append(r.port_name.as_str());
        out.append(", ");
        out.append(decimal_string(r.port_number).as_str());
        out.append(", ");
        out.append(decimal_string(r.pin_number).as_str());
        out.append(");\n");
        let ghost next = views.subrange(0, i + 1);
        assert(next.drop_last() =~= views.subrange(0, i as int));
        assert(next.last() == pins@[i as int]@);
        assert(out@ =~= foreach_head() + foreach_entries(next));
        i = i + 1;
    }
    assert(views.subrange(0, i as int) =~= views);
    out.append("    };\n}\n");
    out
}

/// The module of marker types: one zero-sized type per pin, in order.
pub fn write_peripherals_mod(pins: &Vec<PinRecord>) -> (r: String)
    ensures
        r@ == peripherals_text(record_views(pins@)),
{
    let ghost views = record_views(pins@);
    let mut out = String::from_str("\n/// Zero-sized marker types for every enabled pin\npub mod peripherals {\n    use super::*;\n\n");
    let mut i: usize = 0;
    assert(views.subrange(0, 0) =~= Seq::<RecordView>::empty());
    assert(peripherals_head() + Seq::<char>::empty() =~= peripherals_head());
    while i < pins.len()
        invariant
            views == record_views(pins@),
            i <= pins@.len(),
            out@ == peripherals_head() + marker_types(views.subrange(0, i as int)),
        decreases pins@.len() - i,
    {
        let r = &pins[i];
        out.append("    #[derive(Debug)]\n    pub struct ");
        out.append(r.identifier.as_str());
        out.append(" { pub _private: () }\n    impl_peripheral!(");
        out.append(r.identifier.as_str());
        out.append(");\n");
        let ghost next = views.subrange(0, i + 1);
        assert(next.drop_last() =~= views.subrange(0, i as int));
        assert(next.last() == pins@[i as int]@);
        assert(out@ =~= peripherals_head() + marker_types(next));
        i = i + 1;
    }
    assert(views.subrange(0, i as int) =~= views);
    out.append("}\n");
    out
}

/// The whole pin table of the pins: banner, `foreach_pin` list and marker
/// types.
pub fn write_pin_table(pins: &Vec<PinRecord>) -> (r: String)
    ensures
        r@ == table_text(record_views(pins@)),
{
    let mut out = write_preamble();
    out.append(write_foreach_pin_macro(pins).as_str());
    out.append(write_peripherals_mod(pins).as_str());
    assert(out@ =~= table_text(record_views(pins@)));
    out
}

/// Reads a pin-configuration report and writes its pin table. The result
/// depends on the report's lines alone.
pub fn generate(lines: &Vec<String>) -> (r: String)
    ensures
        r@ == table_of_report(lines@),
{
    let pins = parse_ra_cfg(lines);
    let ghost want = enabled_pins(line_views(lines@)).map_values(|p: (u8, u8)| record_of(p));
    assert(record_views(pins@) =~= want) by {
        assert forall|i: int| 0 <= i < pins@.len() implies record_views(pins@)[i] == want[i] by {
            assert(pins@[i].describes(enabled_pins(line_views(lines@))[i]));
        }
    }
    write_pin_table(&pins)
}

/// Two reports with the same lines give the same pin table, character for
/// character.
pub proof fn lemma_generate_deterministic(a: Seq<String>, b: Seq<String>)
    requires
        line_views(a) == line_views(b),
    ensures
        table_of_report(a) == table_of_report(b),
{
}

} // verus!
