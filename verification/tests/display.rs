use coil_winder::display::{DisplayCalls, DisplayManager, DisplayOp, HardwareDisplay};

#[derive(Debug, Clone, PartialEq)]
enum Call {
    Cursor(u8, u8),
    Char(char),
    Clear,
}

struct Recorder {
    calls: Vec<Call>,
    fail_at: Option<usize>,
}

impl Recorder {
    fn new() -> Self {
        Recorder { calls: Vec::new(), fail_at: None }
    }
    fn step(&mut self, c: Call) -> Result<(), &'static str> {
        if self.fail_at == Some(self.calls.len()) {
            return Err("bus error");
        }
        self.calls.push(c);
        Ok(())
    }
    fn text(&self) -> String {
        self.calls
            .iter()
            .filter_map(|c| if let Call::Char(ch) = c { Some(*ch) } else { None })
            .collect()
    }
}

impl HardwareDisplay for Recorder {
    type Error = &'static str;
    fn sent(&self) -> DisplayCalls {
        unreachable!("the call record exists only in the proofs")
    }
    fn set_cursor(&mut self, row: u8, col: u8) -> Result<(), Self::Error> {
        self.step(Call::Cursor(row, col))
    }
    fn write_char(&mut self, c: char) -> Result<(), Self::Error> {
        self.step(Call::Char(c))
    }
    fn clear(&mut self) -> Result<(), Self::Error> {
        self.step(Call::Clear)
    }
}

#[test]
fn the_first_draw_sends_every_cell() {
    let mut ui = DisplayManager::new(4, 2);
    let mut d = Recorder::new();
    assert_eq!(ui.draw(&mut d, &["ab", "wxyz"]), Ok(()));
    assert_eq!(
        d.calls,
        vec![
            Call::Cursor(0, 0),
            Call::Char('a'),
            Call::Char('b'),
            Call::Char(' '),
            Call::Char(' '),
            Call::Cursor(1, 0),
            Call::Char('w'),
            Call::Char('x'),
            Call::Char('y'),
            Call::Char('z'),
        ]
    );
}

#[test]
fn a_second_draw_sends_only_changed_cells() {
    let mut ui = DisplayManager::new(4, 2);
    let mut d = Recorder::new();
    ui.draw(&mut d, &["abcd", "wxyz"]).unwrap();
    let mut d2 = Recorder::new();
    ui.draw(&mut d2, &["abXd", "wxyQ"]).unwrap();
    assert_eq!(
        d2.calls,
        vec![Call::Cursor(0, 2), Call::Char('X'), Call::Cursor(1, 3), Call::Char('Q')]
    );
}

#[test]
fn redrawing_the_same_lines_sends_nothing() {
    let mut ui = DisplayManager::new(16, 2);
    let mut d = Recorder::new();
    ui.draw(&mut d, &["Hello", "World"]).unwrap();
    let mut d2 = Recorder::new();
    ui.draw(&mut d2, &["Hello", "World"]).unwrap();
    assert!(d2.calls.is_empty());
}

#[test]
fn adjacent_changes_share_one_cursor_move() {
    let mut ui = DisplayManager::new(6, 1);
    let mut d = Recorder::new();
    ui.draw(&mut d, &["aaaaaa"]).unwrap();
    let mut d2 = Recorder::new();
    ui.draw(&mut d2, &["abbaba"]).unwrap();
    assert_eq!(
        d2.calls,
        vec![
            Call::Cursor(0, 1),
            Call::Char('b'),
            Call::Char('b'),
            Call::Cursor(0, 4),
            Call::Char('b'),
        ]
    );
}

#[test]
fn scrolling_frames_match_the_scroll_rule() {
    // A fresh manager per frame shows the frame in full, so the written text is the frame.
    let frames = ["abcd", "bcde", "cdef", "def ", "ef  ", "f   ", "    ", "   a", "  ab", " abc", "abcd"];
    for (ticks, want) in frames.iter().enumerate() {
        let mut ui = DisplayManager::new(4, 1);
        let mut d = Recorder::new();
        // The first draw records the line's hash; ticks after it advance the scroll.
        ui.draw(&mut d, &["abcdef"]).unwrap();
        for _ in 0..ticks {
            ui.tick();
        }
        let mut d2 = Recorder::new();
        ui.draw(&mut d2, &["abcdef"]).unwrap();
        let mut screen: Vec<char> = "abcd".chars().collect();
        let mut col = 0usize;
        for c in d2.calls {
            match c {
                Call::Cursor(_, k) => col = k as usize,
                Call::Char(ch) => {
                    screen[col] = ch;
                    col += 1;
                }
                Call::Clear => {}
            }
        }
        let got: String = screen.into_iter().collect();
        assert_eq!(&got, want, "after {} ticks", ticks);
    }
}

#[test]
fn a_changed_line_restarts_its_scroll() {
    let mut ui = DisplayManager::new(4, 1);
    let mut d = Recorder::new();
    ui.draw(&mut d, &["abcdef"]).unwrap();
    ui.tick();
    ui.tick();
    let mut d2 = Recorder::new();
    ui.draw(&mut d2, &["uvwxyz"]).unwrap();
    assert_eq!(d2.text(), "uvwx");
}

#[test]
fn the_window_stays_filled_when_scrolled_too_far() {
    let mut ui = DisplayManager::new(3, 2);
    ui.set_top(5);
    assert_eq!(ui.get_top(), 5);
    let mut d = Recorder::new();
    ui.draw(&mut d, &["one", "two", "six"]).unwrap();
    assert_eq!(ui.get_top(), 1);
    assert_eq!(d.text(), "twosix");
}

#[test]
fn rows_without_a_line_are_blank() {
    let mut ui = DisplayManager::new(3, 2);
    let mut d = Recorder::new();
    ui.draw(&mut d, &["hi"]).unwrap();
    assert_eq!(ui.get_top(), 0);
    assert_eq!(d.text(), "hi    ");
}

#[test]
fn a_failed_call_stops_the_draw_and_is_retried_in_full() {
    let mut ui = DisplayManager::new(4, 1);
    let mut d = Recorder::new();
    d.fail_at = Some(3);
    assert_eq!(ui.draw(&mut d, &["abcd"]), Err("bus error"));
    assert_eq!(d.calls, vec![Call::Cursor(0, 0), Call::Char('a'), Call::Char('b')]);
    // A full redraw is still due, so everything is sent again.
    let mut d2 = Recorder::new();
    assert_eq!(ui.draw(&mut d2, &["abcd"]), Ok(()));
    assert_eq!(d2.text(), "abcd");
    let mut d3 = Recorder::new();
    ui.draw(&mut d3, &["abcd"]).unwrap();
    assert!(d3.calls.is_empty());
}

#[test]
fn a_failed_call_after_the_first_draw_resends_only_the_rest() {
    let mut ui = DisplayManager::new(4, 1);
    let mut d = Recorder::new();
    ui.draw(&mut d, &["aaaa"]).unwrap();
    let mut d2 = Recorder::new();
    d2.fail_at = Some(2);
    assert!(ui.draw(&mut d2, &["bbbb"]).is_err());
    assert_eq!(d2.calls, vec![Call::Cursor(0, 0), Call::Char('b')]);
    let mut d3 = Recorder::new();
    ui.draw(&mut d3, &["bbbb"]).unwrap();
    assert_eq!(d3.calls, vec![Call::Cursor(0, 1), Call::Char('b'), Call::Char('b'), Call::Char('b')]);
}

#[test]
fn redraw_ops_lists_the_calls() {
    let mut front = [0u8; 80];
    let mut back = [0u8; 80];
    back[0] = b'x';
    back[2] = b'y';
    back[5] = b'z';
    front[5] = b'z';
    back[7] = b'q';
    let ops = coil_winder::display::redraw_ops(&front, &back, 4, 2);
    assert_eq!(
        ops.as_slice(),
        &[
            DisplayOp::SetCursor { row: 0, col: 0 },
            DisplayOp::WriteChar { index: 0, byte: b'x' },
            DisplayOp::SetCursor { row: 0, col: 2 },
            DisplayOp::WriteChar { index: 2, byte: b'y' },
            DisplayOp::SetCursor { row: 1, col: 3 },
            DisplayOp::WriteChar { index: 7, byte: b'q' },
        ]
    );
    assert!(coil_winder::display::redraw_ops(&back, &back, 4, 2).as_slice().is_empty());
}

#[test]
fn only_displays_within_the_buffers_can_be_drawn() {
    assert!(DisplayManager::new(16, 2).can_draw(&["abc", "def"]));
    assert!(DisplayManager::new(20, 4).can_draw(&["a long line that scrolls"]));
    assert!(DisplayManager::new(16, 5).can_draw(&["abc"]));
    assert!(!DisplayManager::new(16, 5).can_draw(&["1", "2", "3", "4", "5"]));
    assert!(DisplayManager::new(16, 5).can_draw(&["1", "2", "3", "4"]));
    assert!(!DisplayManager::new(40, 3).can_draw(&["abc"]));
    assert!(DisplayManager::new(80, 1).can_draw(&[]));
}

#[test]
fn a_fifth_row_without_a_line_is_blanked() {
    let mut ui = DisplayManager::new(2, 5);
    let mut d = Recorder::new();
    assert_eq!(ui.draw(&mut d, &["ab"]), Ok(()));
    assert_eq!(d.text(), "ab        ");
    assert!(d.calls.contains(&Call::Cursor(4, 0)));
}

#[test]
fn fitting_lines_send_nothing_after_ticks() {
    let mut ui = DisplayManager::new(8, 2);
    let mut d = Recorder::new();
    ui.draw(&mut d, &["short", "fits"]).unwrap();
    ui.tick();
    ui.tick();
    let mut d2 = Recorder::new();
    ui.draw(&mut d2, &["short", "fits"]).unwrap();
    assert!(d2.calls.is_empty());
}

#[test]
fn a_long_line_scrolls_one_column_per_tick() {
    let mut ui = DisplayManager::new(2, 1);
    let mut d = Recorder::new();
    assert_eq!(ui.draw(&mut d, &["abc"]), Ok(()));
    assert_eq!(d.calls, vec![Call::Cursor(0, 0), Call::Char('a'), Call::Char('b')]);
    ui.tick();
    let mut d2 = Recorder::new();
    assert_eq!(ui.draw(&mut d2, &["abc"]), Ok(()));
    assert_eq!(d2.calls, vec![Call::Cursor(0, 0), Call::Char('b'), Call::Char('c')]);
}
