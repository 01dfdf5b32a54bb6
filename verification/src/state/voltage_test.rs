use vstd::prelude::*;
use vstd::string::StringSliceAdditionalSpecFns;
use vstd::utf8::encode_utf8;
use crate::display::DisplayManager;
use crate::display::HardwareDisplay;
use crate::display::can_draw;
use crate::display::lines_view;
use crate::inputs::InputState;
use crate::inputs::rising_edge;
use crate::inputs::ACT_RESET;
use crate::state::AppState;
use crate::state::drawn_any;
use crate::state::menu::MenuId;
use crate::string_buffer::StringBuffer;
use crate::string_buffer::decimal;
use crate::string_buffer::write_pieces;

verus! {

/// The reading as volts with two decimals ("12.34 V"): whole volts, a dot, the hundredths
/// (with a leading zero below ten), and the unit; cut at the first piece that does not fit
/// in 16 bytes.
pub open spec fn voltage_text(voltage_mv: u16) -> Seq<u8> {
    let volts = voltage_mv / 1000;
    let frac = (voltage_mv % 1000) / 10;
    let dot = if frac < 10 { encode_utf8(".0"@) } else { encode_utf8("."@) };
    write_pieces(
        Seq::empty(),
        seq![decimal(volts as nat), dot, decimal(frac as nat), encode_utf8(" V"@)],
        16,
    )
}

/// The voltage test's text.
pub open spec fn voltage_test_lines(voltage_mv: u16) -> Seq<Seq<u8>> {
    seq![encode_utf8("Buck Converter Output Voltage"@), voltage_text(voltage_mv)]
}

/// RESET returns to the maintenance menu on its "Switch Test" entry.
pub open spec fn voltage_test_next(inputs: InputState) -> AppState {
    if rising_edge(inputs.act_curr, inputs.act_prev, ACT_RESET) {
        AppState::Menu { id: MenuId::Maintenance, selection: 2 }
    } else {
        AppState::VoltageTest
    }
}

/// Writes the voltage text, stopping at the first piece that does not fit.
fn write_voltage(buf: &mut StringBuffer<16>, volts: u16, frac: u16) -> (r: Result<(), ()>)
    requires
        old(buf)@ == Seq::<u8>::empty(),
    ensures
        final(buf)@ == write_pieces(
            Seq::empty(),
            seq![
                decimal(volts as nat),
                if frac < 10 { encode_utf8(".0"@) } else { encode_utf8("."@) },
                decimal(frac as nat),
                encode_utf8(" V"@),
            ],
            16,
        ),
{
    let dot = if frac < 10 {
        ".0"
    } else {
        "."
    };
    let ghost p0 = decimal(volts as nat);
    let ghost p1 = dot.spec_bytes();
    let ghost p2 = decimal(frac as nat);
    let ghost p3 = " V".spec_bytes();
    let ghost ps = seq![p0, p1, p2, p3];
    let ghost e = Seq::<u8>::empty();
    assert(ps.drop_first() =~= seq![p1, p2, p3]);
    assert(seq![p1, p2, p3].drop_first() =~= seq![p2, p3]);
    assert(seq![p2, p3].drop_first() =~= seq![p3]);
    assert(seq![p3].drop_first() =~= Seq::<Seq<u8>>::empty());
    assert(e + p0 =~= p0);
    buf.write_u16(volts)?;
    assert(write_pieces(e, ps, 16) == write_pieces(buf@, seq![p1, p2, p3], 16));
    let ghost c1 = buf@;
    buf.write_str(dot)?;
    assert(write_pieces(c1, seq![p1, p2, p3], 16) == write_pieces(buf@, seq![p2, p3], 16));
    let ghost c2 = buf@;
    buf.write_u16(frac)?;
    assert(write_pieces(c2, seq![p2, p3], 16) == write_pieces(buf@, seq![p3], 16));
    let ghost c3 = buf@;
    let r = buf.write_str(" V");
    assert(write_pieces(c3, seq![p3], 16) == buf@) by {
        if r is Ok {
            assert(write_pieces(buf@, Seq::<Seq<u8>>::empty(), 16) == buf@);
        }
    }
    r
}

/// Shows the buck converter's output voltage.
pub fn update<D: HardwareDisplay>(
    ui: &mut DisplayManager,
    display: &mut D,
    inputs: &InputState,
    voltage_mv: u16,
) -> (next: AppState)
    requires
        can_draw(old(ui)@, voltage_test_lines(voltage_mv)),
    ensures
        next == voltage_test_next(*inputs),
        drawn_any(
            old(ui)@,
            final(ui)@,
            voltage_test_lines(voltage_mv),
            old(display).sent(),
            final(display).sent(),
        ),
{
    let mut buf = StringBuffer::<16>::new();
    let volts = voltage_mv / 1000;
    let frac = (voltage_mv % 1000) / 10;
    let _ = write_voltage(&mut buf, volts, frac);

    let lines = ["Buck Converter Output Voltage", buf.as_str()];
    assert(lines_view(&lines) =~= voltage_test_lines(voltage_mv));
    let _ = ui.draw(display, &lines);

    if inputs.just_pressed_act(ACT_RESET) {
        AppState::Menu { id: MenuId::Maintenance, selection: 2 }
    } else {
        AppState::VoltageTest
    }
}

} // verus!
