//! USB-MIDI event packets: four bytes carrying one short MIDI message.
use vstd::prelude::*;

verus! {

/// Code index number of a note-on event.
pub const CIN_NOTE_ON: u8 = 0x09;

/// Code index number of a note-off event.
pub const CIN_NOTE_OFF: u8 = 0x08;

/// The packet for a channel-voice event on cable 0: the code index number, the
/// status byte (the event's high nibble over the low four bits of the channel),
/// then the low seven bits of the two data bytes.
pub open spec fn voice_packet(code: u8, chan: u8, data1: u8, data2: u8) -> Seq<u8> {
    seq![
        code,
        (code as int * 16 + chan as int % 16) as u8,
        (data1 as int % 128) as u8,
        (data2 as int % 128) as u8,
    ]
}

pub open spec fn note_on_spec(chan: u8, note: u8, vel: u8) -> Seq<u8> {
    voice_packet(CIN_NOTE_ON, chan, note, vel)
}

pub open spec fn note_off_spec(chan: u8, note: u8, vel: u8) -> Seq<u8> {
    voice_packet(CIN_NOTE_OFF, chan, note, vel)
}

/// Inputs that agree in the bits kept give the same note-on and the same
/// note-off packet.
pub proof fn lemma_masked_inputs_agree(chan1: u8, note1: u8, vel1: u8, chan2: u8, note2: u8, vel2: u8)
    requires
        chan1 % 16 == chan2 % 16,
        note1 % 128 == note2 % 128,
        vel1 % 128 == vel2 % 128,
    ensures
        note_on_spec(chan1, note1, vel1) == note_on_spec(chan2, note2, vel2),
        note_off_spec(chan1, note1, vel1) == note_off_spec(chan2, note2, vel2),
{
    assert(note_on_spec(chan1, note1, vel1) =~= note_on_spec(chan2, note2, vel2));
    assert(note_off_spec(chan1, note1, vel1) =~= note_off_spec(chan2, note2, vel2));
}

/// The note-off packet differs from the note-on packet of the same inputs
/// only in its code index number and in the event nibble of its status.
pub proof fn lemma_note_off_mirrors_note_on(chan: u8, note: u8, vel: u8)
    ensures
        note_on_spec(chan, note, vel).len() == 4,
        note_off_spec(chan, note, vel).len() == 4,
        note_on_spec(chan, note, vel)[0] == 0x09,
        note_off_spec(chan, note, vel)[0] == 0x08,
        note_off_spec(chan, note, vel)[1] == note_on_spec(chan, note, vel)[1] - 0x10,
        note_on_spec(chan, note, vel)[1] / 16 == 0x9,
        note_off_spec(chan, note, vel)[1] / 16 == 0x8,
        note_off_spec(chan, note, vel)[2] == note_on_spec(chan, note, vel)[2],
        note_off_spec(chan, note, vel)[3] == note_on_spec(chan, note, vel)[3],
        note_on_spec(chan, note, vel)[2] <= 0x7F && note_on_spec(chan, note, vel)[3] <= 0x7F,
{
}

/// Builds the packet of a channel-voice event whose code index number is
/// `code` (below 16). Out-of-range inputs are masked, not rejected.
fn voice_packet_bytes(code: u8, chan: u8, data1: u8, data2: u8) -> (r: [u8; 4])
    requires
        code < 16,
    ensures
        r@ == voice_packet(code, chan, data1, data2),
{
    let status: u8 = (code << 4u8) | (chan & 0x0f);
    let d1: u8 = data1 & 0x7f;
    let d2: u8 = data2 & 0x7f;
    assert(status == (code as int * 16 + chan as int % 16) as u8) by (bit_vector)
        requires
            code < 16,
            status == (code << 4u8) | (chan & 0x0f),
    ;
    assert(d1 == (data1 as int % 128) as u8) by (bit_vector)
        requires
            d1 == data1 & 0x7f,
    ;
    assert(d2 == (data2 as int % 128) as u8) by (bit_vector)
        requires
            d2 == data2 & 0x7f,
    ;
    let r: [u8; 4] = [code, status, d1, d2];
    assert(r@ =~= voice_packet(code, chan, data1, data2));
    r
}

/// The note-on packet `[0x09, 0x90 | chan, note, vel]`, keeping the low four
/// bits of `chan` and the low seven bits of `note` and `vel`.
pub fn note_on_packet(chan: u8, note: u8, vel: u8) -> (r: [u8; 4])
    ensures
        r@ == note_on_spec(chan, note, vel),
{
    voice_packet_bytes(CIN_NOTE_ON, chan, note, vel)
}

/// The note-off packet `[0x08, 0x80 | chan, note, vel]`, keeping the low four
/// bits of `chan` and the low seven bits of `note` and `vel`.
pub fn note_off_packet(chan: u8, note: u8, vel: u8) -> (r: [u8; 4])
    ensures
        r@ == note_off_spec(chan, note, vel),
{
    voice_packet_bytes(CIN_NOTE_OFF, chan, note, vel)
}

} // verus!
