use vstd::prelude::*;
use vstd::string::StringSliceAdditionalSpecFns;
use vstd::utf8::encode_utf8;
use crate::display::DisplayManager;
use crate::display::HardwareDisplay;
use crate::display::can_draw;
use crate::display::lines_view;
use crate::inputs::InputState;
use crate::inputs::rising_edge;
use crate::inputs::ACT_CENTER;
use crate::inputs::ACT_RESET;
use crate::inputs::DIR_DOWN;
use crate::inputs::DIR_LEFT;
use crate::inputs::DIR_RIGHT;
use crate::inputs::DIR_UP;
use crate::state::AppState;
use crate::state::drawn_any;
use crate::state::menu::MenuId;
use crate::stepper::Direction;
use crate::stepper::MotorView;
use crate::stepper::Speed;
use crate::stepper::StepperMotor;
use crate::stepper::speed_label;
use crate::stepper::moving_set;
use crate::stepper::released_view;
use crate::string_buffer::StringBuffer;
use crate::string_buffer::write_pieces;

verus! {

/// The speed after a press of CENTER: fast, moderate, slow, and around again.
pub open spec fn next_speed(speed: Speed) -> Speed {
    match speed {
        Speed::Fast => Speed::Moderate,
        Speed::Moderate => Speed::Slow,
        Speed::Slow => Speed::Fast,
    }
}

/// The speed both motors get: the spindle's speed cycled on a CENTER press.
pub open spec fn test_speed(spindle: MotorView, inputs: InputState) -> Speed {
    if rising_edge(inputs.act_curr, inputs.act_prev, ACT_CENTER) {
        next_speed(spindle.speed)
    } else {
        spindle.speed
    }
}

/// A motor under test while a pair of buttons is held: the `fwd` button turns it forward,
/// else the `back` button backward, else it stops holding its coils; RESET releases it.
pub open spec fn tested_motor(
    m: MotorView,
    speed: Speed,
    held: u8,
    fwd: u8,
    back: u8,
    inputs: InputState,
) -> MotorView {
    let direction = if held & fwd != 0 {
        Direction::Forward
    } else if held & back != 0 {
        Direction::Backward
    } else {
        m.direction
    };
    let moving = held & fwd != 0 || held & back != 0;
    let set = moving_set(MotorView { speed, direction, ..m }, moving);
    if rising_edge(inputs.act_curr, inputs.act_prev, ACT_RESET) {
        released_view(set)
    } else {
        set
    }
}

/// The spindle after a poll: UP turns it forward, DOWN backward.
pub open spec fn tested_spindle(spindle: MotorView, inputs: InputState) -> MotorView {
    tested_motor(spindle, test_speed(spindle, inputs), inputs.dir_curr, DIR_UP, DIR_DOWN, inputs)
}

/// The traverse after a poll: RIGHT turns it forward, LEFT backward.
pub open spec fn tested_traverse(
    spindle: MotorView,
    traverse: MotorView,
    inputs: InputState,
) -> MotorView {
    let speed = if rising_edge(inputs.act_curr, inputs.act_prev, ACT_CENTER) {
        next_speed(spindle.speed)
    } else {
        traverse.speed
    };
    tested_motor(traverse, speed, inputs.dir_curr, DIR_RIGHT, DIR_LEFT, inputs)
}

/// The state label of a motor: stopped, forward or reverse.
pub open spec fn dir_label(moving: bool, direction: Direction) -> Seq<char> {
    if !moving {
        "STP"@
    } else if direction == Direction::Forward {
        "FWD"@
    } else {
        "REV"@
    }
}

/// A status line "<name>: <state> <speed>" cut to 16 bytes.
pub open spec fn status_line(name: Seq<char>, moving: bool, direction: Direction, speed: Speed) -> Seq<u8> {
    write_pieces(
        Seq::empty(),
        seq![
            encode_utf8(name),
            encode_utf8(dir_label(moving, direction)),
            encode_utf8(" "@),
            encode_utf8(speed_label(speed)),
        ],
        16,
    )
}

/// The motor test's text, from the motor settings before RESET is handled.
pub open spec fn motor_test_lines(spindle: MotorView, traverse: MotorView, inputs: InputState) -> Seq<Seq<u8>> {
    let s = tested_spindle(spindle, inputs);
    let t = tested_traverse(spindle, traverse, inputs);
    let s_moving = inputs.dir_curr & DIR_UP != 0 || inputs.dir_curr & DIR_DOWN != 0;
    let t_moving = inputs.dir_curr & DIR_RIGHT != 0 || inputs.dir_curr & DIR_LEFT != 0;
    seq![
        status_line("Spndl: "@, s_moving, s.direction, s.speed),
        status_line("Trvrs: "@, t_moving, t.direction, t.speed),
    ]
}

/// RESET returns to the maintenance menu on its first entry.
pub open spec fn motor_test_next(inputs: InputState) -> AppState {
    if rising_edge(inputs.act_curr, inputs.act_prev, ACT_RESET) {
        AppState::Menu { id: MenuId::Maintenance, selection: 0 }
    } else {
        AppState::MotorTest
    }
}

/// Writes "<name><state> <speed>", stopping at the first piece that does not fit.
fn write_status(buf: &mut StringBuffer<16>, name: &str, state: &str, speed: &str) -> (r: Result<
    (),
    (),
>)
    requires
        old(buf)@ == Seq::<u8>::empty(),
    ensures
        final(buf)@ == write_pieces(
            Seq::empty(),
            seq![name.spec_bytes(), state.spec_bytes(), " ".spec_bytes(), speed.spec_bytes()],
            16,
        ),
{
    let ghost p0 = name.spec_bytes();
    let ghost p1 = state.spec_bytes();
    let ghost p2 = " ".spec_bytes();
    let ghost p3 = speed.spec_bytes();
    let ghost ps = seq![p0, p1, p2, p3];
    let ghost e = Seq::<u8>::empty();
    assert(ps.drop_first() =~= seq![p1, p2, p3]);
    assert(seq![p1, p2, p3].drop_first() =~= seq![p2, p3]);
    assert(seq![p2, p3].drop_first() =~= seq![p3]);
    assert(seq![p3].drop_first() =~= Seq::<Seq<u8>>::empty());
    assert(e + p0 =~= p0);
    buf.write_str(name)?;
    assert(write_pieces(e, ps, 16) == write_pieces(buf@, seq![p1, p2, p3], 16));
    let ghost c1 = buf@;
    buf.write_str(state)?;
    assert(write_pieces(c1, seq![p1, p2, p3], 16) == write_pieces(buf@, seq![p2, p3], 16));
    let ghost c2 = buf@;
    buf.write_str(" ")?;
    assert(write_pieces(c2, seq![p2, p3], 16) == write_pieces(buf@, seq![p3], 16));
    let ghost c3 = buf@;
    let r = buf.write_str(speed);
    assert(write_pieces(c3, seq![p3], 16) == buf@) by {
        if r is Ok {
            assert(write_pieces(buf@, Seq::<Seq<u8>>::empty(), 16) == buf@);
        }
    }
    r
}

/// The label of a motor's state.
fn state_label(moving: bool, direction: Direction) -> (label: &'static str)
    ensures
        label@ == dir_label(moving, direction),
{
    if !moving {
        "STP"
    } else if direction == Direction::Forward {
        "FWD"
    } else {
        "REV"
    }
}

/// Jogs the motors with the direction buttons and cycles their speed with CENTER.
pub fn update<D: HardwareDisplay, S: StepperMotor, T: StepperMotor>(
    ui: &mut DisplayManager,
    display: &mut D,
    inputs: &InputState,
    spindle: &mut S,
    traverse: &mut T,
) -> (next: AppState)
    requires
        can_draw(old(ui)@, motor_test_lines(old(spindle).motor(), old(traverse).motor(), *inputs)),
    ensures
        next == motor_test_next(*inputs),
        final(spindle).motor() == tested_spindle(old(spindle).motor(), *inputs),
        final(traverse).motor() == tested_traverse(old(spindle).motor(), old(traverse).motor(), *inputs),
        drawn_any(
            old(ui)@,
            final(ui)@,
            motor_test_lines(old(spindle).motor(), old(traverse).motor(), *inputs),
            old(display).sent(),
            final(display).sent(),
        ),
{
    // cycle speed on center action button press
    if inputs.just_pressed_act(ACT_CENTER) {
        let next_speed = match spindle.speed() {
            Speed::Fast => Speed::Moderate,
            Speed::Moderate => Speed::Slow,
            Speed::Slow => Speed::Fast,
        };
        spindle.set_speed(next_speed);
        traverse.set_speed(next_speed);
    }

    let mut s_moving = false;
    let mut t_moving = false;

    // check if button is currently held down w/ `dir_curr` bitmask
    if (inputs.dir_curr & DIR_UP) != 0 {
        spindle.set_direction(Direction::Forward);
        s_moving = true;
    } else if (inputs.dir_curr & DIR_DOWN) != 0 {
        spindle.set_direction(Direction::Backward);
        s_moving = true;
    }

    if (inputs.dir_curr & DIR_RIGHT) != 0 {
        traverse.set_direction(Direction::Forward);
        t_moving = true;
    } else if (inputs.dir_curr & DIR_LEFT) != 0 {
        traverse.set_direction(Direction::Backward);
        t_moving = true;
    }

    // apply motor state
    spindle.set_moving(s_moving);
    traverse.set_moving(t_moving);

    let s_dir = state_label(s_moving, spindle.direction());
    let t_dir = state_label(t_moving, traverse.direction());

    let mut buf1 = StringBuffer::<16>::new();
    let mut buf2 = StringBuffer::<16>::new();

    let _ = write_status(&mut buf1, "Spndl: ", s_dir, spindle.speed().as_str());
    let _ = write_status(&mut buf2, "Trvrs: ", t_dir, traverse.speed().as_str());

    let lines = [buf1.as_str(), buf2.as_str()];
    assert(lines_view(&lines) =~= motor_test_lines(old(spindle).motor(), old(traverse).motor(), *inputs));
    let _ = ui.draw(display, &lines);

    if inputs.just_pressed_act(ACT_RESET) {
        // kill torque
        spindle.release();
        traverse.release();
        AppState::Menu { id: MenuId::Maintenance, selection: 0 }
    } else {
        AppState::MotorTest
    }
}

} // verus!
