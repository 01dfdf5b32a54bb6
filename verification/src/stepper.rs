use vstd::prelude::*;
use vstd::string::StringSliceAdditionalSpecFns;

verus! {

/// The three stepping rates.
#[derive(Clone, Copy, PartialEq, Eq, Structural, Debug)]
pub enum Speed {
    Fast,
    Moderate,
    Slow,
}

/// The bytes of an ASCII text.
pub open spec fn ascii_bytes(text: Seq<char>) -> Seq<u8> {
    Seq::new(text.len(), |i: int| text[i] as u8)
}

/// The three-letter label of a speed.
pub open spec fn speed_label(speed: Speed) -> Seq<char> {
    match speed {
        Speed::Fast => seq!['F', 'S', 'T'],
        Speed::Moderate => seq!['M', 'O', 'D'],
        Speed::Slow => seq!['S', 'L', 'W'],
    }
}

impl Speed {
    /// The three-letter label shown on the display.
    pub fn as_str(&self) -> (label: &'static str)
        ensures
            label@ == speed_label(*self),
            label.spec_bytes() == ascii_bytes(speed_label(*self)),
    {
        match self {
            Speed::Fast => {
                let s = "FST";
                proof {
                    reveal_strlit("FST");
                    vstd::string::is_ascii_spec_bytes(s);
                    assert(s@ =~= speed_label(Speed::Fast));
                    assert(s.spec_bytes() =~= ascii_bytes(speed_label(Speed::Fast)));
                }
                s
            },
            Speed::Moderate => {
                let s = "MOD";
                proof {
                    reveal_strlit("MOD");
                    vstd::string::is_ascii_spec_bytes(s);
                    assert(s@ =~= speed_label(Speed::Moderate));
                    assert(s.spec_bytes() =~= ascii_bytes(speed_label(Speed::Moderate)));
                }
                s
            },
            Speed::Slow => {
                let s = "SLW";
                proof {
                    reveal_strlit("SLW");
                    vstd::string::is_ascii_spec_bytes(s);
                    assert(s@ =~= speed_label(Speed::Slow));
                    assert(s.spec_bytes() =~= ascii_bytes(speed_label(Speed::Slow)));
                }
                s
            },
        }
    }
}

/// The turning direction.
#[derive(Clone, Copy, PartialEq, Eq, Structural, Debug)]
pub enum Direction {
    Forward,
    Backward,
}

/// What a motor controller exposes: its settings, its step count, and whether its coils
/// are released (no torque) rather than holding the current step.
pub struct MotorView {
    pub speed: Speed,
    pub direction: Direction,
    pub moving: bool,
    pub position: i32,
    pub released: bool,
}

/// The view after `set_moving(moving)`: starting drives the coils, stopping holds them.
pub open spec fn moving_set(m: MotorView, moving: bool) -> MotorView {
    MotorView { moving, released: if moving { false } else { m.released }, ..m }
}

/// The view after `release()`: stopped with the coils off.
pub open spec fn released_view(m: MotorView) -> MotorView {
    MotorView { moving: false, released: true, ..m }
}

/// A stepper motor that moves while `moving` is set, one step per a speed-dependent number of
/// ticks, and counts its steps in `position`.
pub trait StepperMotor {
    /// The settings and step count of the motor.
    spec fn motor(&self) -> MotorView;

    fn set_speed(&mut self, speed: Speed)
        ensures
            final(self).motor() == (MotorView { speed, ..old(self).motor() }),
    ;

    fn set_direction(&mut self, dir: Direction)
        ensures
            final(self).motor() == (MotorView { direction: dir, ..old(self).motor() }),
    ;

    /// Starts or stops the motor; a stopped motor keeps its coils driven (holding torque).
    fn set_moving(&mut self, moving: bool)
        ensures
            final(self).motor() == moving_set(old(self).motor(), moving),
    ;

    /// Stops the motor and lets its coils go limp.
    fn release(&mut self)
        ensures
            final(self).motor() == released_view(old(self).motor()),
    ;

    /// One timer tick; may move the motor by one step.
    fn tick(&mut self)
        ensures
            final(self).motor().speed == old(self).motor().speed,
            final(self).motor().direction == old(self).motor().direction,
            final(self).motor().moving == old(self).motor().moving,
            final(self).motor().released == old(self).motor().released,
    ;

    fn speed(&self) -> (s: Speed)
        ensures
            s == self.motor().speed,
    ;

    fn direction(&self) -> (d: Direction)
        ensures
            d == self.motor().direction,
    ;

    fn is_moving(&self) -> (m: bool)
        ensures
            m == self.motor().moving,
    ;

    fn position(&self) -> (p: i32)
        ensures
            p == self.motor().position,
    ;

    fn set_position(&mut self, pos: i32)
        ensures
            final(self).motor() == (MotorView { position: pos, ..old(self).motor() }),
    ;
}

/// The levels of the four coil drivers.
pub type Coils = (bool, bool, bool, bool);

/// The dual-phase full-stepping pattern for step `index` of the cycle of four.
pub open spec fn coil_pattern(index: u8) -> Coils {
    if index == 0 {
        (true, true, false, false)
    } else if index == 1 {
        (false, true, true, false)
    } else if index == 2 {
        (false, false, true, true)
    } else {
        (true, false, false, true)
    }
}

/// Timer ticks per step at each speed (with a 0.5 ms tick: 1.5, 2.5 and 4 ms).
pub open spec fn ticks_for(speed: Speed) -> u16 {
    match speed {
        Speed::Fast => 3,
        Speed::Moderate => 5,
        Speed::Slow => 8,
    }
}

/// The coil levels of step `index` of the cycle.
fn step_coils(index: u8) -> (c: Coils)
    requires
        index < 4,
    ensures
        c == coil_pattern(index),
{
    let seq = [
        (true, true, false, false),
        (false, true, true, false),
        (false, false, true, true),
        (true, false, false, true),
    ];
    seq[index as usize]
}

/// The full state of a `Stepper`.
pub struct StepperState {
    pub speed: Speed,
    pub direction: Direction,
    pub moving: bool,
    pub position: i32,
    pub step_index: u8,
    pub tick_count: u16,
    pub coils: Coils,
}

/// The state after one step in `direction`: the next pattern of the cycle and the step
/// count moved by one (wrapping); the tick count starts over.
pub open spec fn stepped(s: StepperState) -> StepperState {
    match s.direction {
        Direction::Forward => {
            let index = ((s.step_index + 1) % 4) as u8;
            StepperState {
                step_index: index,
                position: s.position.wrapping_add(1),
                tick_count: 0,
                coils: coil_pattern(index),
                ..s
            }
        },
        Direction::Backward => {
            let index = if s.step_index == 0 {
                3u8
            } else {
                (s.step_index - 1) as u8
            };
            StepperState {
                step_index: index,
                position: s.position.wrapping_sub(1),
                tick_count: 0,
                coils: coil_pattern(index),
                ..s
            }
        },
    }
}

/// The state after one timer tick: nothing while stopped; otherwise the tick is counted and
/// a step is taken once the count reaches the ticks per step of the speed.
pub open spec fn ticked(s: StepperState) -> StepperState {
    if !s.moving {
        s
    } else if s.tick_count + 1 >= ticks_for(s.speed) {
        stepped(s)
    } else {
        StepperState { tick_count: (s.tick_count + 1) as u16, ..s }
    }
}

/// A four-coil unipolar stepper motor driven by full steps. The coil levels it commands are
/// in `coils`; whoever owns the driver pins sets them to those levels.
pub struct Stepper {
    step_index: u8,
    speed: Speed,
    direction: Direction,
    moving: bool,
    tick_count: u16,
    ticks_per_step: u16,
    position: i32,
    coils: Coils,
}

impl View for Stepper {
    type V = StepperState;

    closed spec fn view(&self) -> StepperState {
        StepperState {
            speed: self.speed,
            direction: self.direction,
            moving: self.moving,
            position: self.position,
            step_index: self.step_index,
            tick_count: self.tick_count,
            coils: self.coils,
        }
    }
}

/// The motor view of a stepper state.
pub open spec fn motor_of(s: StepperState) -> MotorView {
    MotorView {
        speed: s.speed,
        direction: s.direction,
        moving: s.moving,
        position: s.position,
        released: s.coils == (false, false, false, false),
    }
}

impl Stepper {
    #[verifier::type_invariant]
    spec fn well_formed(self) -> bool {
        &&& self.step_index < 4
        &&& self.tick_count < 8
        &&& 1 <= self.ticks_per_step <= 8
        &&& self.ticks_per_step == ticks_for(self.speed)
        &&& self.moving ==> self.coils == coil_pattern(self.step_index)
    }

    /// A stopped motor at position 0 on the first step of the cycle, fast and forward, with
    /// no coil driven.
    pub fn new() -> (s: Self)
        ensures
            s@ == (StepperState {
                speed: Speed::Fast,
                direction: Direction::Forward,
                moving: false,
                position: 0,
                step_index: 0,
                tick_count: 0,
                coils: (false, false, false, false),
            }),
    {
        Self {
            step_index: 0,
            speed: Speed::Fast,
            direction: Direction::Forward,
            moving: false,
            tick_count: 0,
            ticks_per_step: 3,
            position: 0,
            coils: (false, false, false, false),
        }
    }

    /// Dual-phase full-stepping procedure: drives the coils of the current step.
    fn apply_step(&mut self)
        ensures
            final(self)@ == (StepperState { coils: coil_pattern(old(self)@.step_index), ..old(self)@ }),
    {
        proof {
            use_type_invariant(&*self);
        }
        self.coils = step_coils(self.step_index);
    }

    /// One timer tick, as `tick`; tells whether it took a step (and so changed the coils).
    pub fn tick_and_report(&mut self) -> (stepped: bool)
        ensures
            final(self)@ == ticked(old(self)@),
            stepped == (old(self)@.moving && old(self)@.tick_count + 1 >= ticks_for(
                old(self)@.speed,
            )),
    {
        proof {
            use_type_invariant(&*self);
        }
        if !self.moving {
            return false;
        }
        let count = self.tick_count + 1;
        if count >= self.ticks_per_step {
            let (step_index, position) = match self.direction {
                Direction::Forward => ((self.step_index + 1) % 4, self.position.wrapping_add(1)),
                Direction::Backward => (
                    if self.step_index == 0 {
                        3
                    } else {
                        self.step_index - 1
                    },
                    self.position.wrapping_sub(1),
                ),
            };
            *self = Stepper {
                tick_count: 0,
                step_index,
                position,
                coils: step_coils(step_index),
                ..*self
            };
            true
        } else {
            self.tick_count = count;
            false
        }
    }

    /// The coil levels last commanded.
    pub fn coils(&self) -> (c: Coils)
        ensures
            c == self@.coils,
    {
        self.coils
    }
}

impl StepperMotor for Stepper {
    open spec fn motor(&self) -> MotorView {
        motor_of(self@)
    }

    fn set_speed(&mut self, speed: Speed)
        ensures
            final(self)@ == (StepperState { speed, ..old(self)@ }),
    {
        proof {
            use_type_invariant(&*self);
        }
        let ticks_per_step: u16 = match speed {
            Speed::Fast => 3,
            Speed::Moderate => 5,
            Speed::Slow => 8,
        };
        *self = Stepper { speed, ticks_per_step, ..*self };
    }

    fn set_direction(&mut self, dir: Direction)
        ensures
            final(self)@ == (StepperState { direction: dir, ..old(self)@ }),
    {
        proof {
            use_type_invariant(&*self);
        }
        self.direction = dir;
    }

    /// Starting a stopped motor drives the coils of the current step and restarts the tick
    /// count.
    fn set_moving(&mut self, moving: bool)
        ensures
            final(self)@ == (if moving && !old(self)@.moving {
                StepperState {
                    moving,
                    tick_count: 0,
                    coils: coil_pattern(old(self)@.step_index),
                    ..old(self)@
                }
            } else {
                StepperState { moving, ..old(self)@ }
            }),
    {
        proof {
            use_type_invariant(&*self);
        }
        if moving && !self.moving {
            self.apply_step();
            proof {
                use_type_invariant(&*self);
            }
            self.tick_count = 0;
        }
        self.moving = moving;
    }

    fn release(&mut self)
        ensures
            final(self)@ == (StepperState {
                moving: false,
                coils: (false, false, false, false),
                ..old(self)@
            }),
    {
        proof {
            use_type_invariant(&*self);
        }
        self.moving = false;
        self.coils = (false, false, false, false);
    }

    fn tick(&mut self)
        ensures
            final(self)@ == ticked(old(self)@),
    {
        proof {
            use_type_invariant(&*self);
        }
        self.tick_and_report();
    }

    fn speed(&self) -> (s: Speed) {
        self.speed
    }

    fn direction(&self) -> (d: Direction) {
        self.direction
    }

    fn is_moving(&self) -> (m: bool) {
        self.moving
    }

    fn position(&self) -> (p: i32) {
        self.position
    }

    fn set_position(&mut self, pos: i32)
        ensures
            final(self)@ == (StepperState { position: pos, ..old(self)@ }),
    {
        proof {
            use_type_invariant(&*self);
        }
        self.position = pos;
    }
}

/// Every pattern drives two neighbouring coils, coil `index` and the next one around, and
/// leaves the other two off.
pub proof fn lemma_dual_phase(index: u8)
    requires
        index < 4,
    ensures
        ({
            let (c0, c1, c2, c3) = coil_pattern(index);
            let on = seq![c0, c1, c2, c3];
            &&& on[index as int]
            &&& on[(index as int + 1) % 4]
            &&& !on[(index as int + 2) % 4]
            &&& !on[(index as int + 3) % 4]
        }),
{
}

/// A step backward undoes a step forward: the cycle index, the coils and the step count
/// come back.
pub proof fn lemma_backward_undoes_forward(s: StepperState)
    requires
        s.step_index < 4,
        s.direction == Direction::Forward,
    ensures
        ({
            let f = stepped(s);
            let b = stepped(StepperState { direction: Direction::Backward, ..f });
            &&& b.step_index == s.step_index
            &&& b.position == s.position
            &&& b.coils == coil_pattern(s.step_index)
        }),
{
}

/// The step count and the cycle index stay in phase (equal modulo 4) across ticks, with
/// the count wrapping at the ends of `i32`.
pub proof fn lemma_tick_keeps_phase(s: StepperState)
    requires
        s.step_index < 4,
        (s.position as int - s.step_index as int) % 4 == 0,
    ensures
        ticked(s).step_index < 4,
        (ticked(s).position as int - ticked(s).step_index as int) % 4 == 0,
{
}

/// The state after `n` ticks.
pub open spec fn ticked_n(s: StepperState, n: nat) -> StepperState
    decreases n,
{
    if n == 0 {
        s
    } else {
        ticked(ticked_n(s, (n - 1) as nat))
    }
}

/// A running motor whose tick count starts over takes exactly one step in
/// `ticks_for(speed)` ticks: the earlier ticks only count.
pub proof fn lemma_one_step_per_period(s: StepperState, k: nat)
    requires
        s.moving,
        s.tick_count == 0,
        k <= ticks_for(s.speed),
    ensures
        k < ticks_for(s.speed) ==> ticked_n(s, k) == (StepperState { tick_count: k as u16, ..s }),
        k == ticks_for(s.speed) ==> ticked_n(s, k) == stepped(s),
    decreases k,
{
    if k > 0 {
        lemma_one_step_per_period(s, (k - 1) as nat);
        let p = StepperState { tick_count: (k - 1) as u16, ..s };
        if k == ticks_for(s.speed) {
            assert(stepped(p) == stepped(s));
        }
    }
}


/// The step count `x` wrapped into `i32`, as repeated `wrapping_add`/`wrapping_sub` of one
/// leave it.
pub open spec fn wrap_i32(x: int) -> i32 {
    ((x - i32::MIN) % 0x1_0000_0000 + i32::MIN) as i32
}

/// The state of a running motor after `n` ticks, in closed form: with `q` the steps taken
/// (the whole periods in the tick count plus `n`), the step count and the cycle index move by
/// `q` in the motor's direction, the tick count keeps the remainder, and the coils drive the
/// new step once a step was taken.
pub open spec fn run_for(s: StepperState, n: nat) -> StepperState {
    let t = ticks_for(s.speed) as int;
    let q = (s.tick_count + n) / t;
    let d: int = if s.direction == Direction::Forward {
        1
    } else {
        -1
    };
    let index = ((s.step_index + d * q) % 4) as u8;
    StepperState {
        position: wrap_i32(s.position + d * q),
        step_index: index,
        tick_count: ((s.tick_count + n) % t) as u16,
        coils: if q == 0 {
            s.coils
        } else {
            coil_pattern(index)
        },
        ..s
    }
}

proof fn lemma_wrap_step(x: int, d: int)
    requires
        d == 1 || d == -1,
    ensures
        d == 1 ==> wrap_i32(x).wrapping_add(1) == wrap_i32(x + 1),
        d == -1 ==> wrap_i32(x).wrapping_sub(1) == wrap_i32(x - 1),
{
    let m: int = 0x1_0000_0000;
    let y = (x - i32::MIN) % m;
    assert(0 <= y < m);
    assert((x + 1 - i32::MIN) % m == if y + 1 == m { 0 } else { y + 1 }) by (nonlinear_arith)
        requires
            m == 0x1_0000_0000,
            y == (x - i32::MIN) % m,
            0 <= y < m,
    ;
    assert((x - 1 - i32::MIN) % m == if y == 0 { m - 1 } else { y - 1 }) by (nonlinear_arith)
        requires
            m == 0x1_0000_0000,
            y == (x - i32::MIN) % m,
            0 <= y < m,
    ;
}

/// After `n` ticks a stopped motor is unchanged, and a running one is at `run_for(s, n)`:
/// its position after `n` ticks is its position moved by the number of whole periods,
/// wrapping in `i32`, in lockstep with the cycle index.
pub proof fn lemma_position_after_ticks(s: StepperState, n: nat)
    requires
        s.tick_count < ticks_for(s.speed),
        s.step_index < 4,
    ensures
        ticked_n(s, n) == if s.moving {
            run_for(s, n)
        } else {
            s
        },
    decreases n,
{
    if n == 0 {
        let m: int = 0x1_0000_0000;
        assert((s.position - i32::MIN) % m == s.position - i32::MIN);
        if s.moving {
            assert(run_for(s, 0) == s);
        }
    } else {
        lemma_position_after_ticks(s, (n - 1) as nat);
        if s.moving {
            let p = run_for(s, (n - 1) as nat);
            let t = ticks_for(s.speed) as int;
            let tc = s.tick_count as int;
            let q = (tc + n - 1) / t;
            let r = (tc + n - 1) % t;
            let d: int = if s.direction == Direction::Forward {
                1
            } else {
                -1
            };
            vstd::arithmetic::div_mod::lemma_fundamental_div_mod(tc + n - 1, t);
            vstd::arithmetic::div_mod::lemma_mod_bound(tc + n - 1, t);
            assert(tc + n - 1 == q * t + r) by (nonlinear_arith)
                requires
                    tc + n - 1 == t * q + r,
            ;
            assert(p.tick_count == r);
            lemma_wrap_step(s.position + d * q, d);
            if r + 1 >= t {
                assert(tc + n == (q + 1) * t + 0) by (nonlinear_arith)
                    requires
                        tc + n - 1 == q * t + r,
                        r + 1 == t,
                ;
                vstd::arithmetic::div_mod::lemma_fundamental_div_mod_converse(tc + n, t, q + 1, 0);
                let a = s.step_index + d * q;
                assert(((a % 4) + d) % 4 == (a + d) % 4) by (nonlinear_arith)
                    requires
                        d == 1 || d == -1,
                ;
                assert(a + d == s.step_index + d * (q + 1)) by (nonlinear_arith)
                    requires
                        a == s.step_index + d * q,
                ;
                assert(s.position + d * q + d == s.position + d * (q + 1)) by (nonlinear_arith);
                let np = ticked(p);
                let rn = run_for(s, n);
                assert(np.step_index == rn.step_index);
                assert(np.position == rn.position);
                assert(np.tick_count == rn.tick_count);
                assert(np.coils == rn.coils);
                assert(np == rn);
            } else {
                vstd::arithmetic::div_mod::lemma_fundamental_div_mod_converse(tc + n, t, q, r + 1);
                assert(ticked(p) == run_for(s, n));
            }
        }
    }
}


/// A call on a `Stepper`.
pub enum MotorCall {
    SetSpeed(Speed),
    SetDirection(Direction),
    SetMoving(bool),
    Release,
    Tick,
    SetPosition(i32),
}

/// The state that a `Stepper` method leaves behind, as its contract states it.
pub open spec fn after_call(s: StepperState, call: MotorCall) -> StepperState {
    match call {
        MotorCall::SetSpeed(speed) => StepperState { speed, ..s },
        MotorCall::SetDirection(direction) => StepperState { direction, ..s },
        MotorCall::SetMoving(moving) => if moving && !s.moving {
            StepperState { moving, tick_count: 0, coils: coil_pattern(s.step_index), ..s }
        } else {
            StepperState { moving, ..s }
        },
        MotorCall::Release => StepperState { moving: false, coils: (false, false, false, false), ..s },
        MotorCall::Tick => ticked(s),
        MotorCall::SetPosition(position) => StepperState { position, ..s },
    }
}

/// The state after the calls `calls`, in order.
pub open spec fn after_calls(s: StepperState, calls: Seq<MotorCall>) -> StepperState
    decreases calls.len(),
{
    if calls.len() == 0 {
        s
    } else {
        after_calls(after_call(s, calls[0]), calls.drop_first())
    }
}

/// The step count and the cycle index agree modulo 4 (a new motor starts so: both 0).
pub open spec fn in_phase(s: StepperState) -> bool {
    s.step_index < 4 && (s.position as int - s.step_index as int) % 4 == 0
}

/// The step count and the cycle index move in lockstep: every sequence of calls that does
/// not set the position by hand keeps them in phase.
pub proof fn lemma_calls_keep_phase(s: StepperState, calls: Seq<MotorCall>)
    requires
        in_phase(s),
        forall|k: int| 0 <= k < calls.len() ==> !(#[trigger] calls[k] is SetPosition),
    ensures
        in_phase(after_calls(s, calls)),
    decreases calls.len(),
{
    if calls.len() > 0 {
        let next = after_call(s, calls[0]);
        if calls[0] is Tick {
            lemma_tick_keeps_phase(s);
        }
        assert(in_phase(next));
        assert forall|k: int| 0 <= k < calls.drop_first().len() implies !(
        #[trigger] calls.drop_first()[k] is SetPosition) by {
            assert(calls.drop_first()[k] == calls[k + 1]);
        }
        lemma_calls_keep_phase(next, calls.drop_first());
    }
}

} // verus!
