use vstd::prelude::*;

verus! {

/// Bit `b` of `state` is set: the button with index `b` is pressed.
pub open spec fn bit_set(state: u32, b: usize) -> bool {
    state & (1u32 << b) != 0
}

/// Some pair of mutually exclusive buttons is pressed together in `state`.
pub open spec fn excluded(state: u32, exclusions: Seq<(usize, usize)>) -> bool {
    exists|k: int|
        0 <= k < exclusions.len() && #[trigger] bit_set(state, exclusions[k].0) && bit_set(
            state,
            exclusions[k].1,
        )
}

/// The scaled conductance `sum(R_pulldown * 10000 / R_i)` of the first `n` buttons,
/// over the buttons pressed in `state`.
pub open spec fn conductance(r_pulldown: u32, r_buttons: Seq<u32>, state: u32, n: nat) -> int
    decreases n,
{
    if n == 0 {
        0
    } else {
        conductance(r_pulldown, r_buttons, state, (n - 1) as nat) + if bit_set(
            state,
            (n - 1) as usize,
        ) {
            (r_pulldown as int * 10000) / r_buttons[n - 1] as int
        } else {
            0
        }
    }
}

/// Some of the first `n` buttons is pressed in `state`.
pub open spec fn any_pressed(state: u32, n: nat) -> bool {
    exists|i: int| 0 <= i < n && #[trigger] bit_set(state, i as usize)
}

/// The expected ADC reading `1024 * s / (s + 10000)` for a scaled conductance `s`.
pub open spec fn expected_adc(s: int) -> int {
    (1024 * s) / (s + 10000)
}

/// The expected reading of combination `state` of a ladder with buttons `r_buttons`.
pub open spec fn state_adc(r_pulldown: u32, r_buttons: Seq<u32>, state: u32) -> int {
    expected_adc(conductance(r_pulldown, r_buttons, state, r_buttons.len()))
}

/// The table of `(expected reading, state)` pairs for the combinations `0 .. count`
/// in increasing order, leaving out the excluded ones.
pub open spec fn ladder_table(
    r_pulldown: u32,
    r_buttons: Seq<u32>,
    exclusions: Seq<(usize, usize)>,
    count: nat,
) -> Seq<(u16, u8)>
    decreases count,
{
    if count == 0 {
        Seq::empty()
    } else {
        let state = (count - 1) as u32;
        let prefix = ladder_table(r_pulldown, r_buttons, exclusions, (count - 1) as nat);
        if excluded(state, exclusions) {
            prefix
        } else {
            prefix.push((state_adc(r_pulldown, r_buttons, state) as u16, state as u8))
        }
    }
}

/// Combination `state` can be evaluated: every pressed button has a resistor above zero, and
/// the arithmetic stays within `u32`.
pub open spec fn state_fits(r_pulldown: u32, r_buttons: Seq<u32>, state: u32) -> bool {
    &&& forall|i: int|
        0 <= i < r_buttons.len() && #[trigger] bit_set(state, i as usize) ==> r_buttons[i] > 0
    &&& any_pressed(state, r_buttons.len()) ==> r_pulldown * 10000 <= u32::MAX
    &&& 1024 * conductance(r_pulldown, r_buttons, state, r_buttons.len()) <= u32::MAX
}

/// No pair before index `k` of `exclusions` is pressed together in `state`.
pub open spec fn none_before(state: u32, exclusions: Seq<(usize, usize)>, k: int) -> bool {
    forall|j: int|
        0 <= j < k ==> !(#[trigger] bit_set(state, exclusions[j].0) && bit_set(
            state,
            exclusions[j].1,
        ))
}

/// The scan of `exclusions` for `state` only shifts by less than 32: each pair it reaches
/// (no earlier pair was pressed together) names a first button below 32, and a second one
/// below 32 when the first is pressed.
pub open spec fn scan_ok(state: u32, exclusions: Seq<(usize, usize)>) -> bool {
    forall|k: int|
        0 <= k < exclusions.len() && none_before(state, exclusions, k) ==> #[trigger] exclusions[k].0
            < 32 && (bit_set(state, exclusions[k].0) ==> exclusions[k].1 < 32)
}

/// The inputs that `ResistorLadder::new` accepts: at most four buttons, and every
/// combination scanned and, unless excluded, evaluated without fault.
pub open spec fn ladder_inputs_ok(
    r_pulldown: u32,
    r_buttons: Seq<u32>,
    exclusions: Seq<(usize, usize)>,
) -> bool {
    &&& r_buttons.len() <= 4
    &&& forall|s: u32| s < pow2_nat(r_buttons.len()) ==> #[trigger] scan_ok(s, exclusions)
    &&& forall|s: u32|
        s < pow2_nat(r_buttons.len()) && !excluded(s, exclusions) ==> #[trigger] state_fits(
            r_pulldown,
            r_buttons,
            s,
        )
}

/// `2^n` for the small `n` used here.
pub open spec fn pow2_nat(n: nat) -> nat
    decreases n,
{
    if n == 0 {
        1
    } else {
        2 * pow2_nat((n - 1) as nat)
    }
}

/// The first-best search of `resolve` over the first `k` table entries:
/// the smallest distance found so far and the state it belongs to.
pub open spec fn nearest(table: Seq<(u16, u8)>, reading: u16, k: nat) -> (u16, u8)
    decreases k,
{
    if k == 0 {
        (u16::MAX, 0u8)
    } else {
        let (best_diff, best_state) = nearest(table, reading, (k - 1) as nat);
        let d = distance(table[k - 1].0, reading);
        if d < best_diff {
            (d, table[k - 1].1)
        } else {
            (best_diff, best_state)
        }
    }
}

/// `|a - b|`.
pub open spec fn distance(a: u16, b: u16) -> u16 {
    if a >= b {
        (a - b) as u16
    } else {
        (b - a) as u16
    }
}

/// A decoder for several buttons on one analog pin, each button closing its own
/// resistor in parallel above a common pull-down resistor.
pub struct ResistorLadder<const N: usize> {
    buckets: [(u16, u8); 16],
    valid_count: usize,
}

impl<const N: usize> ResistorLadder<N> {
    #[verifier::type_invariant]
    spec fn count_in_range(self) -> bool {
        self.valid_count <= 16
    }

    /// The table of `(expected reading, button bitmask)` pairs, in increasing order
    /// of the bitmask.
    pub closed spec fn table(self) -> Seq<(u16, u8)> {
        self.buckets@.take(self.valid_count as int)
    }
}


/// The conductance summed over the first `i` buttons never exceeds that over the first `n`.
proof fn lemma_conductance_monotone(r_pulldown: u32, r_buttons: Seq<u32>, state: u32, i: nat, n: nat)
    requires
        i <= n <= r_buttons.len(),
        forall|j: int|
            0 <= j < r_buttons.len() && #[trigger] bit_set(state, j as usize) ==> r_buttons[j] > 0,
    ensures
        conductance(r_pulldown, r_buttons, state, i) <= conductance(r_pulldown, r_buttons, state, n),
    decreases n - i,
{
    if i < n {
        lemma_conductance_monotone(r_pulldown, r_buttons, state, i, (n - 1) as nat);
        let x = r_pulldown as int * 10000;
        let y = r_buttons[n - 1] as int;
        if bit_set(state, (n - 1) as usize) {
            assert(y > 0);
            assert(x / y >= 0) by (nonlinear_arith)
                requires
                    x >= 0,
                    y > 0,
            ;
        }
    }
}

/// A set bit of a combination below `2^n` has an index below `n`.
proof fn lemma_bit_below(state: u32, a: usize, n: usize)
    requires
        n <= 4,
        a < 32,
        state < (1u32 << n),
        bit_set(state, a),
    ensures
        a < n,
{
    let a32 = a as u32;
    let n32 = n as u32;
    assert((1u32 << a) == (1u32 << a32));
    assert((1u32 << n) == (1u32 << n32));
    assert(state & (1u32 << a32) != 0 && state < (1u32 << n32) && n32 <= 4 && a32 < 32 ==> a32
        < n32) by (bit_vector);
}

/// `1 << n` is `2^n` for `n <= 4`.
proof fn lemma_shift_pow2(n: usize)
    requires
        n <= 4,
    ensures
        (1u32 << n) as nat == pow2_nat(n as nat),
        (1u32 << n) <= 16,
{
    reveal_with_fuel(pow2_nat, 5);
    let n32 = n as u32;
    assert((1u32 << n) == (1u32 << n32));
    assert(n32 == 0 ==> (1u32 << n32) == 1) by (bit_vector);
    assert(n32 == 1 ==> (1u32 << n32) == 2) by (bit_vector);
    assert(n32 == 2 ==> (1u32 << n32) == 4) by (bit_vector);
    assert(n32 == 3 ==> (1u32 << n32) == 8) by (bit_vector);
    assert(n32 == 4 ==> (1u32 << n32) == 16) by (bit_vector);
}

/// The expected reading always lies below 1024.
proof fn lemma_expected_adc_below_1024(s: int)
    requires
        s >= 0,
    ensures
        0 <= expected_adc(s) < 1024,
{
    assert(0 <= (1024 * s) / (s + 10000) < 1024) by (nonlinear_arith)
        requires
            s >= 0,
    ;
}

/// A reading equal to an entry's expected reading decodes to that entry's button combination
/// when no earlier entry has the same expected reading (in particular when every entry has
/// its own); with equal readings the earliest of them wins.
pub proof fn lemma_exact_reading_decodes(table: Seq<(u16, u8)>, j: int)
    requires
        0 <= j < table.len(),
        forall|i: int| 0 <= i < j ==> #[trigger] table[i].0 != table[j].0,
    ensures
        nearest(table, table[j].0, table.len()).1 == table[j].1,
{
    let reading = table[j].0;
    lemma_nearest_is_closest(table, reading, table.len());
    let best = nearest(table, reading, table.len());
    assert(distance(table[j].0, reading) == 0);
    assert(best.0 == 0);
    let k = choose|k: int|
        0 <= k < table.len() && distance(table[k].0, reading) == best.0 && #[trigger] table[k].1
            == best.1 && forall|i: int|
            0 <= i < k ==> #[trigger] distance(table[i].0, reading) > best.0;
    if k < j {
        assert(table[k].0 == reading);
    } else if k > j {
        assert(distance(table[j].0, reading) > best.0);
    }
}

/// The search finds a closest entry: its distance is no larger than any entry's, and unless
/// every entry is `u16::MAX` away the returned combination is that of an entry at that
/// distance, the first such.
pub proof fn lemma_nearest_is_closest(table: Seq<(u16, u8)>, reading: u16, k: nat)
    requires
        k <= table.len(),
    ensures
        forall|i: int| 0 <= i < k ==> nearest(table, reading, k).0 <= #[trigger] distance(
            table[i].0,
            reading,
        ),
        nearest(table, reading, k).0 < u16::MAX ==> exists|j: int|
            0 <= j < k && distance(table[j].0, reading) == nearest(table, reading, k).0
                && #[trigger] table[j].1 == nearest(table, reading, k).1 && forall|i: int|
                0 <= i < j ==> #[trigger] distance(table[i].0, reading) > nearest(
                    table,
                    reading,
                    k,
                ).0,
    decreases k,
{
    if k > 0 {
        lemma_nearest_is_closest(table, reading, (k - 1) as nat);
        let prev = nearest(table, reading, (k - 1) as nat);
        let d = distance(table[k - 1].0, reading);
        if d < prev.0 {
            assert(table[k - 1].1 == nearest(table, reading, k).1);
        } else if prev.0 < u16::MAX {
            let j = choose|j: int|
                0 <= j < k - 1 && distance(table[j].0, reading) == prev.0 && #[trigger] table[j].1
                    == prev.1 && forall|i: int|
                    0 <= i < j ==> #[trigger] distance(table[i].0, reading) > prev.0;
            assert(table[j].1 == nearest(table, reading, k).1);
        }
    }
}

/// The table lists each allowed combination below `count` exactly once, in increasing order,
/// with its expected reading.
pub proof fn lemma_table_lists_allowed_states(
    r_pulldown: u32,
    r_buttons: Seq<u32>,
    exclusions: Seq<(usize, usize)>,
    count: nat,
)
    requires
        count <= 16,
    ensures
        ({
            let t = ladder_table(r_pulldown, r_buttons, exclusions, count);
            &&& forall|k: int|
                0 <= k < t.len() ==> #[trigger] t[k].1 < count && !excluded(
                    t[k].1 as u32,
                    exclusions,
                ) && t[k].0 == state_adc(r_pulldown, r_buttons, t[k].1 as u32) as u16
            &&& forall|a: int, b: int| 0 <= a < b < t.len() ==> #[trigger] t[a].1 < #[trigger] t[b].1
            &&& forall|st: u32|
                st < count && !excluded(st, exclusions) ==> exists|k: int|
                    0 <= k < t.len() && #[trigger] t[k].1 == st as u8
        }),
    decreases count,
{
    if count > 0 {
        lemma_table_lists_allowed_states(r_pulldown, r_buttons, exclusions, (count - 1) as nat);
        let prev = ladder_table(r_pulldown, r_buttons, exclusions, (count - 1) as nat);
        let t = ladder_table(r_pulldown, r_buttons, exclusions, count);
        let state = (count - 1) as u32;
        assert forall|st: u32| st < count && !excluded(st, exclusions) implies exists|k: int|
            0 <= k < t.len() && #[trigger] t[k].1 == st as u8 by {
            if st == state {
                assert(t[t.len() - 1].1 == st as u8);
            } else {
                let k = choose|k: int| 0 <= k < prev.len() && #[trigger] prev[k].1 == st as u8;
                assert(t[k] == prev[k]);
            }
        }
    }
}

/// Scans `exclusions` for a pair pressed together in combination `state`, stopping at the
/// first: `Some(true)` if there is one, `Some(false)` if not, and `None` where the scan would
/// shift by 32 or more.
fn scan_exclusions(state: u32, exclusions: &[(usize, usize)]) -> (r: Option<bool>)
    ensures
        r is Some <==> scan_ok(state, exclusions@),
        r matches Some(e) ==> e == excluded(state, exclusions@),
{
    let mut k: usize = 0;
    while k < exclusions.len()
        invariant
            k <= exclusions@.len(),
            none_before(state, exclusions@, k as int),
            forall|j: int|
                0 <= j < k ==> #[trigger] exclusions@[j].0 < 32 && (bit_set(
                    state,
                    exclusions@[j].0,
                ) ==> exclusions@[j].1 < 32),
        decreases exclusions.len() - k,
    {
        let (a, b) = exclusions[k];
        if a >= 32 {
            assert(!scan_ok(state, exclusions@)) by {
                assert(exclusions@[k as int].0 >= 32);
            }
            return None;
        }
        if (state & (1u32 << a)) != 0 {
            assert(bit_set(state, exclusions@[k as int].0));
            if b >= 32 {
                assert(!scan_ok(state, exclusions@)) by {
                    assert(exclusions@[k as int].1 >= 32);
                }
                return None;
            }
            if (state & (1u32 << b)) != 0 {
                assert(bit_set(state, exclusions@[k as int].0) && bit_set(
                    state,
                    exclusions@[k as int].1,
                ));
                assert(scan_ok(state, exclusions@)) by {
                    assert forall|j: int|
                        0 <= j < exclusions@.len() && none_before(
                            state,
                            exclusions@,
                            j,
                        ) implies #[trigger] exclusions@[j].0 < 32 && (bit_set(
                        state,
                        exclusions@[j].0,
                    ) ==> exclusions@[j].1 < 32) by {
                        if j > k {
                            assert(!(bit_set(state, exclusions@[k as int].0) && bit_set(
                                state,
                                exclusions@[k as int].1,
                            )));
                        }
                    }
                }
                return Some(true);
            }
        }
        k += 1;
    }
    assert(scan_ok(state, exclusions@));
    Some(false)
}

impl<const N: usize> ResistorLadder<N> {
    /// Builds the decoding table. `r_pulldown` is the common resistor, `r_buttons[i]` the
    /// resistor of button `i`, and each pair in `exclusions` names two buttons that cannot be
    /// pressed together. Every other combination gets the entry
    /// `(1024 * s / (s + 10000), combination)` with `s = sum(r_pulldown * 10000 / r_i)`.
    pub fn new(r_pulldown: u32, r_buttons: &[u32; N], exclusions: &[(usize, usize)]) -> (ladder:
        Self)
        requires
            ladder_inputs_ok(r_pulldown, r_buttons@, exclusions@),
        ensures
            ladder.table() == ladder_table(r_pulldown, r_buttons@, exclusions@, pow2_nat(N as nat)),
    {
        let mut buckets = [(0u16, 0u8); 16];
        let mut valid_count: usize = 0;
        proof {
            lemma_shift_pow2(N);
        }
        let num_combinations: u32 = 1u32 << N;
        let mut state: u32 = 0;
        while state < num_combinations
            invariant
                ladder_inputs_ok(r_pulldown, r_buttons@, exclusions@),
                r_buttons@.len() == N,
                N <= 4,
                num_combinations as nat == pow2_nat(N as nat),
                num_combinations == (1u32 << N),
                num_combinations <= 16,
                state <= num_combinations,
                valid_count <= state,
                buckets@.len() == 16,
                buckets@.take(valid_count as int) == ladder_table(
                    r_pulldown,
                    r_buttons@,
                    exclusions@,
                    state as nat,
                ),
            decreases num_combinations - state,
        {
            proof {
                lemma_shift_pow2(N);
            }
            assert(scan_ok(state, exclusions@));
            let is_excluded = match scan_exclusions(state, exclusions) {
                Some(e) => e,
                None => true,
            };
            if is_excluded {
                state += 1;
                continue;
            }
            assert(!excluded(state, exclusions@));
            assert(state_fits(r_pulldown, r_buttons@, state));
            let mut s_total: u32 = 0;
            let mut i: usize = 0;
            while i < N
                invariant
                    i <= N,
                    r_buttons@.len() == N,
                    ladder_inputs_ok(r_pulldown, r_buttons@, exclusions@),
                    state_fits(r_pulldown, r_buttons@, state),
                    s_total == conductance(r_pulldown, r_buttons@, state, i as nat),
                decreases N - i,
            {
                proof {
                    lemma_conductance_monotone(
                        r_pulldown,
                        r_buttons@,
                        state,
                        (i + 1) as nat,
                        N as nat,
                    );
                }
                if (state & (1u32 << i)) != 0 {
                    assert(bit_set(state, i));
                    assert(any_pressed(state, r_buttons@.len()));
                    assert(r_buttons@[i as int] > 0);
                    s_total += (r_pulldown * 10000) / r_buttons[i];
                }
                i += 1;
            }
            proof {
                lemma_expected_adc_below_1024(s_total as int);
            }
            let adc = (1024 * s_total) / (s_total + 10000);
            let adc_clamped: u16 = if adc > 1023 {
                1023
            } else {
                adc as u16
            };
            let ghost prev = buckets@;
            buckets[valid_count] = (adc_clamped, state as u8);
            assert(buckets@.take(valid_count + 1) =~= prev.take(valid_count as int).push(
                (adc_clamped, state as u8),
            ));
            valid_count += 1;
            state += 1;
        }
        ResistorLadder { buckets, valid_count }
    }

    /// Builds the decoding table when `new` accepts the inputs; `None` otherwise (where `new`
    /// would not evaluate).
    pub fn try_new(r_pulldown: u32, r_buttons: &[u32; N], exclusions: &[(usize, usize)]) -> (ladder:
        Option<Self>)
        ensures
            ladder is Some <==> ladder_inputs_ok(r_pulldown, r_buttons@, exclusions@),
            ladder matches Some(l) ==> l.table() == ladder_table(
                r_pulldown,
                r_buttons@,
                exclusions@,
                pow2_nat(N as nat),
            ),
    {
        if N > 4 {
            return None;
        }
        proof {
            lemma_shift_pow2(N);
        }
        let num_combinations: u32 = 1u32 << N;
        let mut state: u32 = 0;
        while state < num_combinations
            invariant
                N <= 4,
                r_buttons@.len() == N,
                num_combinations as nat == pow2_nat(N as nat),
                state <= num_combinations,
                forall|t: u32| t < state ==> #[trigger] scan_ok(t, exclusions@),
                forall|t: u32|
                    t < state && !excluded(t, exclusions@) ==> #[trigger] state_fits(
                        r_pulldown,
                        r_buttons@,
                        t,
                    ),
            decreases num_combinations - state,
        {
            let scanned = scan_exclusions(state, exclusions);
            if scanned.is_none() {
                assert(!scan_ok(state, exclusions@));
                return None;
            }
            if scanned == Some(false) {
                let mut total: u64 = 0;
                let mut any = false;
                let mut i: usize = 0;
                while i < N
                    invariant
                        i <= N,
                        N <= 4,
                        r_buttons@.len() == N,
                        state < num_combinations,
                        num_combinations as nat == pow2_nat(N as nat),
                        !excluded(state, exclusions@),
                        forall|j: int|
                            0 <= j < i && #[trigger] bit_set(state, j as usize) ==> r_buttons@[j]
                                > 0,
                        total == conductance(r_pulldown, r_buttons@, state, i as nat),
                        total <= i * (u32::MAX as int * 10000),
                        any <==> exists|j: int| 0 <= j < i && #[trigger] bit_set(state, j as usize),
                    decreases N - i,
                {
                    if (state & (1u32 << i)) != 0 {
                        assert(bit_set(state, i));
                        if r_buttons[i] == 0 {
                            assert(!state_fits(r_pulldown, r_buttons@, state)) by {
                                assert(bit_set(state, i as int as usize));
                            }
                            return None;
                        }
                        let term = (r_pulldown as u64 * 10000) / r_buttons[i] as u64;
                        let ghost x: int = r_pulldown as int * 10000;
                        let ghost y: int = r_buttons@[i as int] as int;
                        assert(term == x / y);
                        assert(x / y <= x) by (nonlinear_arith)
                            requires
                                x >= 0,
                                y > 0,
                        ;
                        total = total + term;
                        any = true;
                    }
                    i += 1;
                }
                assert(any == any_pressed(state, r_buttons@.len()));
                if (any && r_pulldown as u64 * 10000 > u32::MAX as u64) || 1024 * total
                    > u32::MAX as u64 {
                    assert(!state_fits(r_pulldown, r_buttons@, state));
                    return None;
                }
                assert(state_fits(r_pulldown, r_buttons@, state));
            }
            state += 1;
        }
        assert(ladder_inputs_ok(r_pulldown, r_buttons@, exclusions@));
        Some(Self::new(r_pulldown, r_buttons, exclusions))
    }

    /// Returns the bitmask of the first table entry nearest to `adc_reading`; 0 if no entry
    /// is nearer than `u16::MAX`.
    pub fn resolve(&self, adc_reading: u16) -> (pressed: u8)
        ensures
            pressed == nearest(self.table(), adc_reading, self.table().len()).1,
    {
        proof {
            use_type_invariant(self);
        }
        let mut best_state: u8 = 0;
        let mut min_diff: u16 = u16::MAX;
        let mut i: usize = 0;
        while i < self.valid_count
            invariant
                self.valid_count <= 16,
                i <= self.valid_count,
                (min_diff, best_state) == nearest(self.table(), adc_reading, i as nat),
            decreases self.valid_count - i,
        {
            let (expected, state) = self.buckets[i];
            let diff = if expected >= adc_reading {
                expected - adc_reading
            } else {
                adc_reading - expected
            };
            assert(self.table()[i as int] == (expected, state));
            if diff < min_diff {
                min_diff = diff;
                best_state = state;
            }
            i += 1;
        }
        best_state
    }
}


/// The conductance over the first `n` (at most four) buttons is the sum of the terms
/// `r_pulldown * 10000 / r_i` of the pressed ones among them.
proof fn lemma_conductance_sum(r_pulldown: u32, r_buttons: Seq<u32>, state: u32, n: nat)
    requires
        n <= r_buttons.len() <= 4,
    ensures
        conductance(r_pulldown, r_buttons, state, n) == (if 0 < n && bit_set(state, 0usize) {
            (r_pulldown as int * 10000) / r_buttons[0] as int
        } else {
            0
        }) + (if 1 < n && bit_set(state, 1usize) {
            (r_pulldown as int * 10000) / r_buttons[1] as int
        } else {
            0
        }) + (if 2 < n && bit_set(state, 2usize) {
            (r_pulldown as int * 10000) / r_buttons[2] as int
        } else {
            0
        }) + (if 3 < n && bit_set(state, 3usize) {
            (r_pulldown as int * 10000) / r_buttons[3] as int
        } else {
            0
        }),
    decreases n,
{
    if n > 0 {
        lemma_conductance_sum(r_pulldown, r_buttons, state, (n - 1) as nat);
    }
}

/// Every entry of the table follows the voltage divider in closed form: with
/// `g_i = r_pulldown * 10000 / r_i` (integer division) for each pressed button `i` of the
/// entry's combination and `S` the sum of those, the entry reads `1024 * S / (S + 10000)`.
/// So the empty combination reads 0 and button `i` alone reads `1024 * g_i / (g_i + 10000)`.
pub proof fn lemma_entries_follow_the_divider(
    r_pulldown: u32,
    r_buttons: Seq<u32>,
    exclusions: Seq<(usize, usize)>,
    count: nat,
)
    requires
        r_buttons.len() <= 4,
        count <= 16,
    ensures
        ({
            let t = ladder_table(r_pulldown, r_buttons, exclusions, count);
            let n = r_buttons.len() as int;
            forall|k: int|
                0 <= k < t.len() ==> {
                    let st = t[k].1 as u32;
                    let g0: int = if 0 < n && bit_set(st, 0usize) {
                        (r_pulldown as int * 10000) / r_buttons[0] as int
                    } else {
                        0
                    };
                    let g1: int = if 1 < n && bit_set(st, 1usize) {
                        (r_pulldown as int * 10000) / r_buttons[1] as int
                    } else {
                        0
                    };
                    let g2: int = if 2 < n && bit_set(st, 2usize) {
                        (r_pulldown as int * 10000) / r_buttons[2] as int
                    } else {
                        0
                    };
                    let g3: int = if 3 < n && bit_set(st, 3usize) {
                        (r_pulldown as int * 10000) / r_buttons[3] as int
                    } else {
                        0
                    };
                    let sum = g0 + g1 + g2 + g3;
                    #[trigger] t[k].0 == ((1024 * sum) / (sum + 10000)) as u16
                }
        }),
{
    let t = ladder_table(r_pulldown, r_buttons, exclusions, count);
    lemma_table_lists_allowed_states(r_pulldown, r_buttons, exclusions, count);
    assert forall|k: int| 0 <= k < t.len() implies {
        let st = t[k].1 as u32;
        let n = r_buttons.len() as int;
        let g0: int = if 0 < n && bit_set(st, 0usize) {
            (r_pulldown as int * 10000) / r_buttons[0] as int
        } else {
            0
        };
        let g1: int = if 1 < n && bit_set(st, 1usize) {
            (r_pulldown as int * 10000) / r_buttons[1] as int
        } else {
            0
        };
        let g2: int = if 2 < n && bit_set(st, 2usize) {
            (r_pulldown as int * 10000) / r_buttons[2] as int
        } else {
            0
        };
        let g3: int = if 3 < n && bit_set(st, 3usize) {
            (r_pulldown as int * 10000) / r_buttons[3] as int
        } else {
            0
        };
        let sum = g0 + g1 + g2 + g3;
        #[trigger] t[k].0 == ((1024 * sum) / (sum + 10000)) as u16
    } by {
        lemma_conductance_sum(r_pulldown, r_buttons, t[k].1 as u32, r_buttons.len());
    }
}


/// What `resolve` answers, with distances as plain absolute differences: when some entry's
/// expected reading is less than 65535 away from the reading, the combination of an entry
/// at the least distance, the first such; otherwise (an empty table included) no button.
pub proof fn lemma_resolve_picks_the_nearest(table: Seq<(u16, u8)>, reading: u16)
    ensures
        ({
            let d = |i: int|
                if table[i].0 >= reading {
                    table[i].0 - reading
                } else {
                    reading - table[i].0
                };
            let answer = nearest(table, reading, table.len()).1;
            &&& (exists|i: int| 0 <= i < table.len() && #[trigger] d(i) < 65535) ==> exists|j: int|
                0 <= j < table.len() && table[j].1 == answer && (forall|i: int|
                    0 <= i < table.len() ==> d(j) <= #[trigger] d(i)) && (forall|i: int|
                    0 <= i < j ==> d(j) < #[trigger] d(i))
            &&& (forall|i: int| 0 <= i < table.len() ==> #[trigger] d(i) >= 65535) ==> answer == 0
        }),
{
    let d = |i: int|
        if table[i].0 >= reading {
            table[i].0 - reading
        } else {
            reading - table[i].0
        };
    lemma_nearest_is_closest(table, reading, table.len());
    let best = nearest(table, reading, table.len());
    assert forall|i: int| 0 <= i < table.len() implies distance(table[i].0, reading) == d(i) by {}
    if exists|i: int| 0 <= i < table.len() && #[trigger] d(i) < 65535 {
        let i0 = choose|i: int| 0 <= i < table.len() && #[trigger] d(i) < 65535;
        assert(best.0 <= distance(table[i0].0, reading));
        let j = choose|j: int|
            0 <= j < table.len() && distance(table[j].0, reading) == best.0 && #[trigger] table[j].1
                == best.1 && forall|i: int|
                0 <= i < j ==> #[trigger] distance(table[i].0, reading) > best.0;
        assert(forall|i: int| 0 <= i < table.len() ==> d(j) <= #[trigger] d(i));
        assert(forall|i: int| 0 <= i < j ==> d(j) < #[trigger] d(i));
    } else {
        lemma_nearest_stays_unset(table, reading, table.len());
    }
}

proof fn lemma_nearest_stays_unset(table: Seq<(u16, u8)>, reading: u16, k: nat)
    requires
        k <= table.len(),
        forall|i: int| 0 <= i < k ==> #[trigger] distance(table[i].0, reading) >= 65535,
    ensures
        nearest(table, reading, k) == (u16::MAX, 0u8),
    decreases k,
{
    if k > 0 {
        lemma_nearest_stays_unset(table, reading, (k - 1) as nat);
    }
}

/// No exclusion pair has both of its buttons pressed in combination `st`.
pub open spec fn pair_free(st: u32, exclusions: Seq<(usize, usize)>) -> bool {
    forall|j: int|
        0 <= j < exclusions.len() ==> !((st & (1u32 << exclusions[j].0)) != 0 && (st & (1u32
            << exclusions[j].1)) != 0)
}

/// The table holds exactly the combinations below `count` in which no exclusion pair has
/// both of its buttons pressed, each once.
pub proof fn lemma_table_holds_the_allowed_combinations(
    r_pulldown: u32,
    r_buttons: Seq<u32>,
    exclusions: Seq<(usize, usize)>,
    count: nat,
)
    requires
        count <= 16,
    ensures
        ({
            let t = ladder_table(r_pulldown, r_buttons, exclusions, count);
            &&& forall|st: u32|
                st < count ==> ((exists|k: int| 0 <= k < t.len() && #[trigger] t[k].1 == st as u8)
                    <==> #[trigger] pair_free(st, exclusions))
            &&& forall|a: int, b: int| 0 <= a < b < t.len() ==> #[trigger] t[a].1 != #[trigger] t[b].1
        }),
{
    let t = ladder_table(r_pulldown, r_buttons, exclusions, count);
    lemma_table_lists_allowed_states(r_pulldown, r_buttons, exclusions, count);
    assert forall|st: u32| st < count implies ((exists|k: int|
        0 <= k < t.len() && #[trigger] t[k].1 == st as u8) <==> #[trigger] pair_free(
        st,
        exclusions,
    )) by {
        if exists|k: int| 0 <= k < t.len() && #[trigger] t[k].1 == st as u8 {
            let k = choose|k: int| 0 <= k < t.len() && #[trigger] t[k].1 == st as u8;
            assert(t[k].1 as u32 == st);
            assert(!excluded(st, exclusions));
            assert forall|j: int| 0 <= j < exclusions.len() implies !((st & (1u32
                << exclusions[j].0)) != 0 && (st & (1u32 << exclusions[j].1)) != 0) by {
                if (st & (1u32 << exclusions[j].0)) != 0 && (st & (1u32 << exclusions[j].1)) != 0 {
                    assert(bit_set(st, exclusions[j].0));
                }
            }
        } else {
            if !excluded(st, exclusions) {
                assert(exists|k: int| 0 <= k < t.len() && #[trigger] t[k].1 == st as u8);
            }
            let j = choose|j: int|
                0 <= j < exclusions.len() && #[trigger] bit_set(st, exclusions[j].0) && bit_set(
                    st,
                    exclusions[j].1,
                );
            assert((st & (1u32 << exclusions[j].0)) != 0 && (st & (1u32 << exclusions[j].1)) != 0);
        }
    }
}

} // verus!
