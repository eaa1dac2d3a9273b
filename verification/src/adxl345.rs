//! The ADXL345 accelerometer on a 4-wire SPI bus, in FIFO stream mode.
//!
//! The sensor buffers samples in its 32-deep FIFO and asserts its watermark interrupt once
//! [`WATERMARK`] of them wait. Its driver then asks how many samples there are and pops them
//! one by one. This module holds the frames of that exchange: what goes out on the bus, and
//! what the replies mean. Moving them over the bus is up to the caller.
use crate::bytes::rd_sample;
use crate::features::Sample;
use vstd::prelude::*;

verus! {

/// Output data rate.
pub const REG_BW_RATE: u8 = 0x2C;

/// Power modes.
pub const REG_POWER_CTL: u8 = 0x2D;

/// Which interrupts are enabled.
pub const REG_INT_ENABLE: u8 = 0x2E;

/// Which pin each interrupt is routed to.
pub const REG_INT_MAP: u8 = 0x2F;

/// Resolution, range and interrupt polarity.
pub const REG_DATA_FORMAT: u8 = 0x31;

/// First of the six data registers.
pub const REG_DATAX0: u8 = 0x32;

/// FIFO mode and watermark.
pub const REG_FIFO_CTL: u8 = 0x38;

/// How full the FIFO is.
pub const REG_FIFO_STATUS: u8 = 0x39;

/// Command bit: read instead of write.
pub const FLAG_READ: u8 = 0x80;

/// Command bit: several bytes, with increasing address.
pub const FLAG_MULTI: u8 = 0x40;

/// The watermark bit among the interrupt bits.
pub const INT_WATERMARK: u8 = 0x02;

/// Samples in the FIFO at which the interrupt is asserted. The FIFO is 32 deep, so 16 leaves
/// headroom for the latency of draining it.
pub const WATERMARK: u8 = 16;

/// Bytes per FIFO entry: x, y, z, each a little-endian `i16`.
pub const SAMPLE_BYTES: usize = 6;

/// Bytes in the exchange of one sample: the command, then a FIFO entry.
pub const SAMPLE_FRAME: usize = 1 + SAMPLE_BYTES;

/// The frame that writes one register: the address with both command bits clear, the value.
pub open spec fn write_frame(reg: u8, val: u8) -> Seq<u8> {
    seq![(reg % 64) as u8, val]
}

/// The command byte that reads a register.
pub open spec fn read_command(reg: u8, multi: bool) -> int {
    FLAG_READ + (if multi {
        FLAG_MULTI as int
    } else {
        0
    }) + reg
}

/// The frame that writes one configuration register.
pub fn write_register(reg: u8, val: u8) -> (frame: [u8; 2])
    ensures
        frame@ == write_frame(reg, val),
{
    assert(reg & 0x3F == reg % 64) by (bit_vector);
    [reg & 0x3F, val]
}

/// The registers that set up acquisition, in order, with their values.
pub open spec fn configuration() -> Seq<(u8, u8)> {
    seq![
        (REG_DATA_FORMAT, 0x0B),
        (REG_BW_RATE, 0x0F),
        (REG_INT_MAP, 0x00),
        (REG_FIFO_CTL, (0x80 + WATERMARK) as u8),
        (REG_INT_ENABLE, INT_WATERMARK),
        (REG_POWER_CTL, 0x08),
    ]
}

/// The frames that configure acquisition at the highest data rate, 3200 Hz, full resolution
/// over a range of 16 g, into the FIFO in stream mode, with the watermark interrupt routed
/// (active-high) to INT1. Measurement is enabled last, so no samples are produced until the
/// FIFO and the interrupt path are set up.
pub fn init_fifo() -> (frames: [[u8; 2]; 6])
    ensures
        forall|i: int|
            0 <= i < 6 ==> (#[trigger] frames[i])@ == write_frame(
                configuration()[i].0,
                configuration()[i].1,
            ),
{
    let fifo: u8 = 0x80 | (WATERMARK & 0x1F);
    assert(fifo == 0x90) by {
        assert(0x80u8 | (16u8 & 0x1Fu8) == 0x90u8) by (bit_vector);
    }
    [
        write_register(REG_DATA_FORMAT, 0x0B),
        write_register(REG_BW_RATE, 0x0F),
        write_register(REG_INT_MAP, 0x00),
        write_register(REG_FIFO_CTL, fifo),
        write_register(REG_INT_ENABLE, INT_WATERMARK),
        write_register(REG_POWER_CTL, 0x08),
    ]
}

/// The frame that asks for the FIFO status; the reply takes the place of its second byte.
pub fn fifo_status_request() -> (frame: [u8; 2])
    ensures
        frame[0] == read_command(REG_FIFO_STATUS, false),
        frame[1] == 0,
{
    assert(0x39u8 | 0x80u8 == 0xB9u8) by (bit_vector);
    [REG_FIFO_STATUS | FLAG_READ, 0]
}

/// Number of samples in the FIFO, from the low six bits of the status in a reply.
pub fn fifo_count(reply: &[u8; 2]) -> (n: u8)
    ensures
        n == reply[1] % 64,
{
    let status: u8 = reply[1];
    assert(status & 0x3F == status % 64) by (bit_vector);
    status & 0x3F
}

/// The frame that pops one sample: a read of the six data registers, which the device answers
/// from the head of the FIFO. The reply takes the place of the bytes after the command.
pub fn sample_request() -> (frame: [u8; SAMPLE_FRAME])
    ensures
        frame[0] == read_command(REG_DATAX0, true),
        forall|i: int| 1 <= i < SAMPLE_FRAME ==> frame[i] == 0,
{
    assert(0x32u8 | 0x80u8 | 0x40u8 == 0xF2u8) by (bit_vector);
    let mut frame: [u8; SAMPLE_FRAME] = [0; SAMPLE_FRAME];
    frame[0] = REG_DATAX0 | FLAG_READ | FLAG_MULTI;
    frame
}

/// The sample in a reply.
pub fn read_fifo_sample(reply: &[u8; SAMPLE_FRAME]) -> (s: Sample)
    ensures
        s@ == crate::bytes::le_sample(reply@, 1),
{
    rd_sample(reply.as_slice(), 1)
}

/// Measurement starts only when everything else is set up: the last frame, and no other,
/// writes the power register.
pub proof fn law_measurement_is_enabled_last(i: int)
    requires
        0 <= i < configuration().len(),
    ensures
        configuration()[i].0 == REG_POWER_CTL <==> i == configuration().len() - 1,
{
}

/// Commands cannot be confused: a command byte gives back the register and both flags, and a
/// write has both flags clear.
pub proof fn law_commands_are_distinct(reg: u8, val: u8, multi: bool)
    requires
        reg < 64,
    ensures
        read_command(reg, multi) % 64 == reg,
        read_command(reg, multi) / 128 == 1,
        read_command(reg, multi) / 64 % 2 == (if multi {
            1int
        } else {
            0
        }),
        write_frame(reg, val)[0] == reg,
        write_frame(reg, val)[0] / 64 == 0,
{
}

/// What goes out on the bus: the address alone to write, with the top bit to read, with the next
/// one to read several bytes; and the six registers that set up acquisition, power last.
pub proof fn law_frames_are_what_the_sensor_expects(
    reg: u8,
    val: u8,
    frame: [u8; 2],
    frames: [[u8; 2]; 6],
    status: [u8; 2],
    sample: [u8; SAMPLE_FRAME],
)
    requires
        call_ensures(write_register, (reg, val), frame),
        call_ensures(init_fifo, (), frames),
        call_ensures(fifo_status_request, (), status),
        call_ensures(sample_request, (), sample),
    ensures
        frame@ == seq![(reg % 64) as u8, val],
        frames[0]@ == seq![0x31u8, 0x0Bu8],
        frames[1]@ == seq![0x2Cu8, 0x0Fu8],
        frames[2]@ == seq![0x2Fu8, 0x00u8],
        frames[3]@ == seq![0x38u8, 0x90u8],
        frames[4]@ == seq![0x2Eu8, 0x02u8],
        frames[5]@ == seq![0x2Du8, 0x08u8],
        status@ == seq![0xB9u8, 0u8],
        sample@ == seq![0xF2u8, 0u8, 0u8, 0u8, 0u8, 0u8, 0u8],
{
    assert(status@ =~= seq![0xB9u8, 0u8]);
    assert(sample@ =~= seq![0xF2u8, 0u8, 0u8, 0u8, 0u8, 0u8, 0u8]);
}

/// What the replies mean: the status without its two top bits is the number of samples, and
/// behind the echo of the command come x, y and z, low byte first.
pub proof fn law_replies_mean_what_the_sensor_says(
    status: &[u8; 2],
    n: u8,
    reply: &[u8; SAMPLE_FRAME],
    s: Sample,
    axis: int,
)
    requires
        call_ensures(fifo_count, (status,), n),
        call_ensures(read_fifo_sample, (reply,), s),
        0 <= axis < 3,
    ensures
        n < 64,
        n == status@[1] || n == status@[1] - 64 || n == status@[1] - 128 || n == status@[1] - 192,
        ({
            let sum = reply@[1 + 2 * axis] + 256 * reply@[2 + 2 * axis];
            s@[axis] == sum || s@[axis] == sum - 65536
        }),
{
    assert(s@[axis] == crate::bytes::le_sample(reply@, 1)[axis]);
}

} // verus!
