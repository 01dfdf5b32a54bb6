use vstd::prelude::*;
use vstd::string::StringSliceAdditionalSpecFns;
use vstd::utf8::encode_utf8;
use crate::string_buffer::StringBuffer;
use crate::string_buffer::write_each;

verus! {

/// The switch names of the two ladders as the bench monitor labels them: directional bits
/// 0..3 are UP, DOWN, LEFT, RIGHT; action bits 0..2 are CENTER, SET, RESET.
pub open spec fn pressed_labels(state_dir: u8, state_act: u8) -> Seq<Seq<char>> {
    let l1 = if state_dir & 1 != 0 { seq!["UP"@] } else { Seq::empty() };
    let l2 = if state_dir & 2 != 0 { l1.push("DOWN"@) } else { l1 };
    let l3 = if state_dir & 4 != 0 { l2.push("LEFT"@) } else { l2 };
    let l4 = if state_dir & 8 != 0 { l3.push("RIGHT"@) } else { l3 };
    let l5 = if state_act & 1 != 0 { l4.push("CENTER"@) } else { l4 };
    let l6 = if state_act & 2 != 0 { l5.push("SET"@) } else { l5 };
    if state_act & 4 != 0 { l6.push("RESET"@) } else { l6 }
}

/// The writes that list `labels` separated by ", ".
pub open spec fn csv_pieces(labels: Seq<Seq<char>>) -> Seq<Seq<u8>>
    decreases labels.len(),
{
    if labels.len() == 0 {
        Seq::empty()
    } else if labels.len() == 1 {
        seq![encode_utf8(labels[0])]
    } else {
        csv_pieces(labels.drop_last()).push(encode_utf8(", "@)).push(encode_utf8(labels.last()))
    }
}

/// The list of pressed switches in a 64-byte buffer, "None" when no switch is pressed; a
/// write that does not fit is skipped.
pub open spec fn switch_list_spec(state_dir: u8, state_act: u8) -> Seq<u8> {
    let labels = pressed_labels(state_dir, state_act);
    if labels.len() == 0 {
        write_each(Seq::empty(), seq![encode_utf8("None"@)], 64)
    } else {
        write_each(Seq::empty(), csv_pieces(labels), 64)
    }
}

/// Appends `label` to the list, after a separator unless it is the first.
fn add_switch(buf: &mut StringBuffer<64>, first: &mut bool, label: &str, Ghost(labels): Ghost<
    Seq<Seq<char>>,
>)
    requires
        *old(first) <==> labels.len() == 0,
        old(buf)@ == write_each(Seq::empty(), csv_pieces(labels), 64),
    ensures
        !*final(first),
        final(buf)@ == write_each(Seq::empty(), csv_pieces(labels.push(label@)), 64),
{
    let ghost pieces = csv_pieces(labels);
    assert(labels.push(label@).drop_last() =~= labels);
    if !*first {
        let _ = buf.write_str(", ");
        assert(write_each(Seq::empty(), pieces.push(encode_utf8(", "@)), 64) == buf@) by {
            assert(pieces.push(encode_utf8(", "@)).drop_last() =~= pieces);
        }
    } else {
        assert(pieces =~= Seq::<Seq<u8>>::empty());
    }
    let ghost mid = buf@;
    let _ = buf.write_str(label);
    proof {
        let full = csv_pieces(labels.push(label@));
        if labels.len() == 0 {
            assert(full.drop_last() =~= Seq::<Seq<u8>>::empty());
        } else {
            assert(full.drop_last() =~= pieces.push(encode_utf8(", "@)));
        }
    }
    *first = false;
}

/// Lists the pressed switches of the two ladders, comma separated.
pub fn switch_list(state_dir: u8, state_act: u8) -> (buf: StringBuffer<64>)
    ensures
        buf@ == switch_list_spec(state_dir, state_act),
{
    let mut buf = StringBuffer::<64>::new();
    let mut first = true;
    let ghost mut labels: Seq<Seq<char>> = Seq::empty();
    assert(buf@ == write_each(Seq::empty(), csv_pieces(labels), 64));

    if (state_dir & 1) != 0 {
        add_switch(&mut buf, &mut first, "UP", Ghost(labels));
        proof {
            labels = labels.push("UP"@);
        }
    }
    if (state_dir & 2) != 0 {
        add_switch(&mut buf, &mut first, "DOWN", Ghost(labels));
        proof {
            labels = labels.push("DOWN"@);
        }
    }
    if (state_dir & 4) != 0 {
        add_switch(&mut buf, &mut first, "LEFT", Ghost(labels));
        proof {
            labels = labels.push("LEFT"@);
        }
    }
    if (state_dir & 8) != 0 {
        add_switch(&mut buf, &mut first, "RIGHT", Ghost(labels));
        proof {
            labels = labels.push("RIGHT"@);
        }
    }
    if (state_act & 1) != 0 {
        add_switch(&mut buf, &mut first, "CENTER", Ghost(labels));
        proof {
            labels = labels.push("CENTER"@);
        }
    }
    if (state_act & 2) != 0 {
        add_switch(&mut buf, &mut first, "SET", Ghost(labels));
        proof {
            labels = labels.push("SET"@);
        }
    }
    if (state_act & 4) != 0 {
        add_switch(&mut buf, &mut first, "RESET", Ghost(labels));
        proof {
            labels = labels.push("RESET"@);
        }
    }
    assert(labels =~= pressed_labels(state_dir, state_act));
    if first {
        let _ = buf.write_str("None");
        assert(seq![encode_utf8("None"@)].drop_last() =~= Seq::<Seq<u8>>::empty());
    }
    buf
}

/// Every twelfth poll (not the first) the window scrolls down one line, wrapping to the top
/// after the last position at which a two-row window is still filled.
pub open spec fn scroll_spec(loop_counter: i32, top: usize, n_lines: usize) -> Option<usize> {
    if loop_counter > 0 && loop_counter % 12 == 0 {
        let max_top = if n_lines >= 2 { n_lines - 2 } else { 0 };
        if max_top > 0 {
            Some(((top + 1) % (max_top + 1)) as usize)
        } else {
            Some(0usize)
        }
    } else {
        None
    }
}

/// The new first line for the bench monitor's window on poll `loop_counter`, if it moves.
pub fn scroll_top(loop_counter: i32, top: usize, n_lines: usize) -> (next: Option<usize>)
    requires
        loop_counter > 0 && loop_counter % 12 == 0 && n_lines > 2 ==> top < usize::MAX,
    ensures
        next == scroll_spec(loop_counter, top, n_lines),
{
    if loop_counter > 0 && loop_counter % 12 == 0 {
        let max_top = n_lines.saturating_sub(2);
        let next_top = if max_top > 0 {
            (top + 1) % (max_top + 1)
        } else {
            0
        };
        Some(next_top)
    } else {
        None
    }
}

} // verus!
