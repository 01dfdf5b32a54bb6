use vstd::prelude::*;
use crate::fixed_vec::FixedVec;

verus! {

/// One step of talking to the PCF8574 backpack: a one-byte I2C write to the backpack's
/// address, or a pause.
#[derive(Clone, Copy, PartialEq, Eq, Structural, Debug)]
pub enum BusOp {
    Write(u8),
    DelayUs(u32),
    DelayMs(u32),
}

/// The most bus steps that one operation takes (initialization takes 76).
pub const MAX_BUS_OPS: usize = 80;

/// The bus steps of one operation.
pub type BusOps = FixedVec<BusOp, 80>;

/// The backlight bit of the backpack's port.
pub const BACKLIGHT_ON: u8 = 0x08;

/// The enable (strobe) bit of the backpack's port.
pub const ENABLE: u8 = 0x04;

/// The register-select value for commands.
pub const RS_COMMAND: u8 = 0;

/// The register-select value for character data.
pub const RS_DATA: u8 = 1;

/// One nibble (the high four bits of `data`) clocked into the controller: the port byte
/// with the enable bit low, high, then low again.
pub open spec fn nibble_ops(backlight: u8, data: u8, rs: u8) -> Seq<BusOp> {
    let byte = (data & 0xF0) | rs | backlight;
    seq![
        BusOp::Write(byte & !ENABLE),
        BusOp::DelayUs(10),
        BusOp::Write(byte | ENABLE),
        BusOp::DelayUs(10),
        BusOp::Write(byte & !ENABLE),
        BusOp::DelayUs(100),
    ]
}

/// A full byte as its high nibble then its low nibble.
pub open spec fn byte_ops(backlight: u8, data: u8, rs: u8) -> Seq<BusOp> {
    nibble_ops(backlight, data & 0xF0, rs) + nibble_ops(backlight, ((data << 4u8) & 0xF0) as u8, rs)
}

/// The clear-display command and the pause it needs.
pub open spec fn clear_ops(backlight: u8) -> Seq<BusOp> {
    byte_ops(backlight, 0x01, RS_COMMAND) + seq![BusOp::DelayMs(2)]
}

/// The HD44780 power-on sequence: three resets into 8-bit mode, the switch to 4-bit mode,
/// function set (two lines, 5x8 font), display on without cursor or blink, increment
/// without shift, and a clear.
pub open spec fn init_ops(backlight: u8) -> Seq<BusOp> {
    seq![BusOp::DelayMs(50)] + nibble_ops(backlight, 0x30, RS_COMMAND) + seq![BusOp::DelayMs(5)]
        + nibble_ops(backlight, 0x30, RS_COMMAND) + seq![BusOp::DelayUs(150)] + nibble_ops(
        backlight,
        0x30,
        RS_COMMAND,
    ) + nibble_ops(backlight, 0x20, RS_COMMAND) + byte_ops(backlight, 0x28, RS_COMMAND)
        + byte_ops(backlight, 0x0c, RS_COMMAND) + byte_ops(backlight, 0x06, RS_COMMAND)
        + clear_ops(backlight)
}

/// The display-RAM address where row `row` starts (rows past the fourth use the fourth).
pub open spec fn row_offset(row: u8) -> u8 {
    if row == 0 {
        0x00
    } else if row == 1 {
        0x40
    } else if row == 2 {
        0x14
    } else {
        0x54
    }
}

/// A driver for an HD44780 LCD connected via a PCF8574 I2C backpack. It encodes each
/// operation as the bus steps to perform; whoever owns the bus performs them in order and
/// stops at the first failing write.
pub struct LcdI2c {
    address: u8,
    backlight: u8,
}

impl LcdI2c {
    /// The backpack's I2C address.
    pub closed spec fn spec_address(&self) -> u8 {
        self.address
    }

    /// The backlight bits sent with every byte.
    pub closed spec fn spec_backlight(&self) -> u8 {
        self.backlight
    }

    /// A driver for the backpack at `address`, with the backlight on.
    pub fn new(address: u8) -> (lcd: Self)
        ensures
            lcd.spec_address() == address,
            lcd.spec_backlight() == BACKLIGHT_ON,
    {
        Self { address, backlight: BACKLIGHT_ON }
    }

    /// The backpack's I2C address.
    pub fn address(&self) -> (a: u8)
        ensures
            a == self.spec_address(),
    {
        self.address
    }

    /// Sends one nibble + register select + backlight state.
    fn write_nibble(&self, ops: &mut BusOps, data: u8, rs: u8)
        requires
            old(ops)@.len() + 6 <= MAX_BUS_OPS,
        ensures
            final(ops)@ == old(ops)@ + nibble_ops(self.spec_backlight(), data, rs),
    {
        let byte = (data & 0xF0) | rs | self.backlight;
        ops.push(BusOp::Write(byte & !0x04));
        ops.push(BusOp::DelayUs(10));
        ops.push(BusOp::Write(byte | 0x04));
        ops.push(BusOp::DelayUs(10));
        ops.push(BusOp::Write(byte & !0x04));
        ops.push(BusOp::DelayUs(100));
        assert(final(ops)@ =~= old(ops)@ + nibble_ops(self.spec_backlight(), data, rs));
    }

    /// Sends a full byte as two consecutive nibbles.
    fn write_byte(&self, ops: &mut BusOps, data: u8, rs: u8)
        requires
            old(ops)@.len() + 12 <= MAX_BUS_OPS,
        ensures
            final(ops)@ == old(ops)@ + byte_ops(self.spec_backlight(), data, rs),
    {
        self.write_nibble(ops, data & 0xF0, rs);
        self.write_nibble(ops, (data << 4) & 0xF0, rs);
        assert(final(ops)@ =~= old(ops)@ + byte_ops(self.spec_backlight(), data, rs));
    }

    /// A command byte (register select low).
    fn command(&self, ops: &mut BusOps, cmd: u8)
        requires
            old(ops)@.len() + 12 <= MAX_BUS_OPS,
        ensures
            final(ops)@ == old(ops)@ + byte_ops(self.spec_backlight(), cmd, RS_COMMAND),
    {
        self.write_byte(ops, cmd, 0)
    }

    /// A character byte (register select high).
    fn data(&self, ops: &mut BusOps, data: u8)
        requires
            old(ops)@.len() + 12 <= MAX_BUS_OPS,
        ensures
            final(ops)@ == old(ops)@ + byte_ops(self.spec_backlight(), data, RS_DATA),
    {
        self.write_byte(ops, data, 1)
    }

    /// HD44780 initialization sequence.
    pub fn init(&self) -> (ops: BusOps)
        ensures
            ops@ == init_ops(self.spec_backlight()),
    {
        let mut ops: BusOps = FixedVec::new(BusOp::DelayUs(0));
        ops.push(BusOp::DelayMs(50));
        self.write_nibble(&mut ops, 0x30, 0);
        ops.push(BusOp::DelayMs(5));
        self.write_nibble(&mut ops, 0x30, 0);
        ops.push(BusOp::DelayUs(150));
        self.write_nibble(&mut ops, 0x30, 0);
        self.write_nibble(&mut ops, 0x20, 0);
        self.command(&mut ops, 0x28);
        self.command(&mut ops, 0x0c);
        self.command(&mut ops, 0x06);
        self.command(&mut ops, 0x01);
        ops.push(BusOp::DelayMs(2));
        assert(ops@ =~= init_ops(self.spec_backlight()));
        ops
    }

    /// Clears the display.
    pub fn clear_display(&self) -> (ops: BusOps)
        ensures
            ops@ == clear_ops(self.spec_backlight()),
    {
        let mut ops: BusOps = FixedVec::new(BusOp::DelayUs(0));
        self.command(&mut ops, 0x01);
        ops.push(BusOp::DelayMs(2));
        assert(ops@ =~= clear_ops(self.spec_backlight()));
        ops
    }

    /// Moves the cursor to `col` on `row` (rows past the fourth count as the fourth).
    pub fn set_cursor(&self, row: u8, col: u8) -> (ops: BusOps)
        requires
            col + row_offset(row) <= 255,
        ensures
            ops@ == byte_ops(
                self.spec_backlight(),
                0x80 | ((col + row_offset(row)) as u8),
                RS_COMMAND,
            ),
    {
        let row_offsets: [u8; 4] = [0x00, 0x40, 0x14, 0x54];
        let clamped_row = if (row as usize) < 3 {
            row as usize
        } else {
            3
        };
        let mut ops: BusOps = FixedVec::new(BusOp::DelayUs(0));
        self.command(&mut ops, 0x80 | (col + row_offsets[clamped_row]));
        assert(ops@ =~= byte_ops(
            self.spec_backlight(),
            0x80 | ((col + row_offset(row)) as u8),
            RS_COMMAND,
        ));
        ops
    }

    /// Writes character `c` (its low byte) at the cursor.
    pub fn write_char(&self, c: char) -> (ops: BusOps)
        ensures
            ops@ == byte_ops(self.spec_backlight(), c as u8, RS_DATA),
    {
        let mut ops: BusOps = FixedVec::new(BusOp::DelayUs(0));
        self.data(&mut ops, c as u8);
        assert(ops@ =~= byte_ops(self.spec_backlight(), c as u8, RS_DATA));
        ops
    }
}

} // verus!
