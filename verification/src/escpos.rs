//! The printer's command set: the byte sequences that a thermal receipt
//! printer understands, and functions that append them to a command buffer.

use vstd::prelude::*;
use vstd::utf8::encode_utf8;

verus! {

/// The line-break byte.
pub const LINE_BREAK: u8 = 0x0a;

/// How a line of text is placed on the paper.
#[derive(Clone, Copy, Debug, PartialEq, Eq, Structural)]
pub enum Alignment {
    Left,
    Center,
    Right,
}

/// The command that resets the device; every buffer begins with it.
pub open spec fn init_command() -> Seq<u8> {
    seq![0x1bu8, 0x40u8]
}

/// The command that cuts the paper; every buffer ends with it.
pub open spec fn cut_command() -> Seq<u8> {
    seq![0x1du8, 0x56u8, 0x00u8]
}

/// The command that selects an alignment.
pub open spec fn align_command(alignment: Alignment) -> Seq<u8> {
    match alignment {
        Alignment::Left => seq![0x1bu8, 0x61u8, 0x00u8],
        Alignment::Center => seq![0x1bu8, 0x61u8, 0x01u8],
        Alignment::Right => seq![0x1bu8, 0x61u8, 0x02u8],
    }
}

/// `count` line breaks.
pub open spec fn line_breaks(count: nat) -> Seq<u8> {
    Seq::new(count, |i: int| LINE_BREAK)
}

/// A line of text: the alignment command, the text in UTF-8, a line break.
pub open spec fn text_line(alignment: Alignment, text: Seq<char>) -> Seq<u8> {
    align_command(alignment) + encode_utf8(text) + seq![LINE_BREAK]
}

/// The low byte of a size field.
pub open spec fn low_byte(n: nat) -> u8 {
    (n % 256) as u8
}

/// The second byte of a size field; what lies above sixteen bits is not sent.
pub open spec fn high_byte(n: nat) -> u8 {
    ((n / 256) % 256) as u8
}

/// The header of a raster image: the command, then the width in bytes and
/// the height in rows, each as two bytes with the low byte first.
pub open spec fn raster_header(width_bytes: nat, height: nat) -> Seq<u8> {
    seq![
        0x1du8,
        0x76u8,
        0x30u8,
        0x00u8,
        low_byte(width_bytes),
        high_byte(width_bytes),
        low_byte(height),
        high_byte(height),
    ]
}

/// A raster image: its header, then the rows as given.
pub open spec fn raster_image(width_bytes: nat, height: nat, rows: Seq<u8>) -> Seq<u8> {
    raster_header(width_bytes, height) + rows
}

/// A fresh command buffer, holding the reset command.
pub fn new_buffer() -> (out: Vec<u8>)
    ensures
        out@ == init_command(),
{
    let mut out: Vec<u8> = Vec::new();
    out.push(0x1b);
    out.push(0x40);
    assert(out@ =~= init_command());
    out
}

/// Appends the cut command.
pub fn append_cut(out: &mut Vec<u8>)
    ensures
        final(out)@ == old(out)@ + cut_command(),
{
    out.push(0x1d);
    out.push(0x56);
    out.push(0x00);
    assert(out@ =~= old(out)@ + cut_command());
}

/// Appends `count` line breaks.
pub fn append_feed(out: &mut Vec<u8>, count: usize)
    ensures
        final(out)@ == old(out)@ + line_breaks(count as nat),
{
    let mut i: usize = 0;
    assert(out@ =~= old(out)@ + line_breaks(0));
    while i < count
        invariant
            i <= count,
            out@ == old(out)@ + line_breaks(i as nat),
        decreases count - i,
    {
        out.push(LINE_BREAK);
        i += 1;
        assert(out@ =~= old(out)@ + line_breaks(i as nat));
    }
}

/// Appends a line of text in the given alignment.
pub fn append_text(out: &mut Vec<u8>, alignment: Alignment, text: &str)
    ensures
        final(out)@ == old(out)@ + text_line(alignment, text@),
{
    out.push(0x1b);
    out.push(0x61);
    match alignment {
        Alignment::Left => out.push(0x00),
        Alignment::Center => out.push(0x01),
        Alignment::Right => out.push(0x02),
    }
    assert(out@ =~= old(out)@ + align_command(alignment));
    out.extend_from_slice(text.as_bytes());
    out.push(LINE_BREAK);
    assert(out@ =~= old(out)@ + text_line(alignment, text@));
}

/// Appends a raster image of `height` rows of `width_bytes` bytes each.
pub fn append_raster(out: &mut Vec<u8>, width_bytes: usize, height: usize, rows: &[u8])
    ensures
        final(out)@ == old(out)@ + raster_image(width_bytes as nat, height as nat, rows@),
{
    out.push(0x1d);
    out.push(0x76);
    out.push(0x30);
    out.push(0x00);
    out.push((width_bytes % 256) as u8);
    out.push((width_bytes / 256 % 256) as u8);
    out.push((height % 256) as u8);
    out.push((height / 256 % 256) as u8);
    assert(out@ =~= old(out)@ + raster_header(width_bytes as nat, height as nat));
    out.extend_from_slice(rows);
    assert(out@ =~= old(out)@ + raster_image(width_bytes as nat, height as nat, rows@));
}

} // verus!
