//! The MIDI class: its two interfaces, its bulk endpoints, the configuration
//! descriptors it writes, and the note events it sends.
use vstd::prelude::*;
use usb_device::bus::InterfaceNumber;
use usb_device::descriptor::DescriptorWriter;
use crate::descriptor::{
    ac_header, ac_header_spec, chain_len, descriptor_len, ms_chain, ms_chain_spec, views,
    CS_ENDPOINT, CS_INTERFACE, MS_HEADER_SUBTYPE,
    USB_AUDIOCONTROL_SUBCLASS, USB_AUDIO_CLASS, USB_MIDISTREAMING_SUBCLASS,
};
use crate::packet::{note_off_packet, note_off_spec, note_on_packet, note_on_spec};
use crate::usb::{
    buffer_len, bulk_endpoint_bytes, bumped, countable, endpoint_mark, fits, interface_bytes,
    interface_mark, interface_number, interface_value, overflow, wire, write_class,
    write_interface, written_bytes, Error,
};

verus! {

/// Maximum packet size of each bulk endpoint.
pub const MAX_PACKET_SIZE: u16 = 64;

/// The bulk OUT and bulk IN endpoints of the class, as the USB peripheral
/// provides them: 64-byte bulk endpoints.
pub trait BulkEndpoints {
    /// Address of the bulk OUT endpoint.
    spec fn out_address(&self) -> u8;

    /// Address of the bulk IN endpoint.
    spec fn in_address(&self) -> u8;

    /// Whether `r` is what the bus answered to one write of `packet` on the
    /// bulk IN endpoint.
    spec fn write_outcome(&self, packet: [u8; 4], r: Result<usize, Error>) -> bool;

    /// Whether `r` is what the bus answered to one read from the bulk OUT
    /// endpoint, leaving `data` in the buffer.
    spec fn read_outcome(&self, data: [u8; 64], r: Result<usize, Error>) -> bool;

    /// Writes one packet to the bulk IN endpoint, without blocking: the bytes
    /// accepted (at most the packet's), or the transport's error.
    fn write_packet(&self, packet: &[u8; 4]) -> (r: Result<usize, Error>)
        ensures
            self.write_outcome(*packet, r),
            r is Ok ==> r->Ok_0 <= 4,
    ;

    /// Reads one packet from the bulk OUT endpoint into `data`, without
    /// blocking: its length (at most the buffer's), `WouldBlock` where none is
    /// queued, `BufferOverflow` where it is longer than `data`, or the
    /// transport's error.
    fn read_packet(&self, data: &mut [u8; 64]) -> (r: Result<usize, Error>)
        ensures
            self.read_outcome(*final(data), r),
            r is Ok ==> r->Ok_0 <= 64,
    ;

    /// Writes the standard descriptor of the bulk OUT endpoint: raises the
    /// endpoint count of the interface last written, then appends the
    /// descriptor, or fails with `BufferOverflow` where it does not fit.
    fn write_out_descriptor(&self, writer: &mut DescriptorWriter) -> (r: Result<(), Error>)
        requires
            countable(*old(writer), endpoint_mark(*old(writer))),
        ensures
            buffer_len(*final(writer)) == buffer_len(*old(writer)),
            interface_mark(*old(writer)) is Some ==> interface_mark(*final(writer)) == interface_mark(*old(writer)),
            endpoint_mark(*final(writer)) == endpoint_mark(*old(writer)),
            fits(*old(writer), 7) ==> r is Ok
                && written_bytes(*final(writer)) == bumped(written_bytes(*old(writer)), endpoint_mark(*old(writer)).unwrap())
                    + bulk_endpoint_bytes(self.out_address()),
            !fits(*old(writer), 7) ==> r == overflow()
                && written_bytes(*final(writer)) == bumped(written_bytes(*old(writer)), endpoint_mark(*old(writer)).unwrap()),
    ;

    /// Writes the standard descriptor of the bulk IN endpoint, as
    /// `write_out_descriptor` does for the OUT endpoint.
    fn write_in_descriptor(&self, writer: &mut DescriptorWriter) -> (r: Result<(), Error>)
        requires
            countable(*old(writer), endpoint_mark(*old(writer))),
        ensures
            buffer_len(*final(writer)) == buffer_len(*old(writer)),
            interface_mark(*old(writer)) is Some ==> interface_mark(*final(writer)) == interface_mark(*old(writer)),
            endpoint_mark(*final(writer)) == endpoint_mark(*old(writer)),
            fits(*old(writer), 7) ==> r is Ok
                && written_bytes(*final(writer)) == bumped(written_bytes(*old(writer)), endpoint_mark(*old(writer)).unwrap())
                    + bulk_endpoint_bytes(self.in_address()),
            !fits(*old(writer), 7) ==> r == overflow()
                && written_bytes(*final(writer)) == bumped(written_bytes(*old(writer)), endpoint_mark(*old(writer)).unwrap()),
    ;
}

/// Wire lengths of the configuration's descriptors, in the order written:
/// Audio-Control interface and header, MIDI-Streaming interface, header and
/// jacks, then each bulk endpoint followed by its class-specific extension.
pub open spec fn step_lens() -> Seq<nat> {
    let c = ms_chain_spec();
    seq![
        9nat,
        descriptor_len(ac_header_spec(0)),
        9nat,
        descriptor_len(c[0]),
        descriptor_len(c[1]),
        descriptor_len(c[2]),
        7nat,
        descriptor_len(c[3]),
        7nat,
        descriptor_len(c[4]),
    ]
}

/// Sum of `lens`.
pub open spec fn total(lens: Seq<nat>) -> nat
    decreases lens.len(),
{
    if lens.len() == 0 {
        0
    } else {
        lens[0] + total(lens.drop_first())
    }
}

/// Bytes written by descriptors of lengths `lens` into `free` bytes of room:
/// every descriptor up to the first that does not fit.
pub open spec fn written_steps(lens: Seq<nat>, free: int) -> nat
    decreases lens.len(),
{
    if lens.len() == 0 || free < lens[0] {
        0
    } else {
        lens[0] + written_steps(lens.drop_first(), free - lens[0])
    }
}

/// The configuration's bytes, with `endpoints` counted in the
/// MIDI-Streaming interface descriptor.
pub open spec fn configuration_bytes(ac: u8, ms: u8, out_address: u8, in_address: u8, endpoints: u8) -> Seq<u8> {
    let c = ms_chain_spec();
    interface_bytes(ac, USB_AUDIO_CLASS, USB_AUDIOCONTROL_SUBCLASS, 0, 0)
        + wire(ac_header_spec(ms))
        + interface_bytes(ms, USB_AUDIO_CLASS, USB_MIDISTREAMING_SUBCLASS, 0, endpoints)
        + wire(c[0]) + wire(c[1]) + wire(c[2])
        + bulk_endpoint_bytes(out_address) + wire(c[3])
        + bulk_endpoint_bytes(in_address) + wire(c[4])
}

/// What emitting the configuration does to a writer holding `b0`, with a
/// buffer of `cap` bytes and its interface count at `mark`: the descriptors
/// are written in order up to the first that does not fit, which fails with
/// `BufferOverflow` and ends the emission, leaving what was written; each
/// interface and endpoint begun is counted; the bytes before are kept.
pub open spec fn emission(
    b0: Seq<u8>,
    cap: nat,
    mark: nat,
    ac: u8,
    ms: u8,
    out_address: u8,
    in_address: u8,
    bytes: Seq<u8>,
    r: Result<(), Error>,
) -> bool {
    let p = b0.len();
    let l = step_lens();
    let n = written_steps(l, cap - p);
    let interfaces: u8 = if n >= total(l.take(2)) { 2 } else { 1 };
    let endpoints: u8 = if n >= total(l.take(8)) { 2 } else if n >= total(l.take(6)) { 1 } else { 0 };
    &&& bytes.len() == p + n
    &&& bytes.subrange(0, p as int) == b0.update(mark as int, (b0[mark as int] + interfaces) as u8)
    &&& bytes.subrange(p as int, (p + n) as int) == configuration_bytes(ac, ms, out_address, in_address, endpoints).take(n as int)
    &&& (r is Ok <==> n == total(l))
    &&& (r is Err ==> r == overflow())
}

/// The configuration takes 73 bytes, and with `free` bytes of room the
/// emission writes every descriptor up to the first that does not fit.
pub proof fn lemma_steps(free: int)
    ensures
        total(step_lens()) == 73,
        total(step_lens().take(2)) == 18,
        total(step_lens().take(6)) == 49,
        total(step_lens().take(8)) == 61,
        configuration_bytes(0, 0, 0, 0, 0).len() == 73,
        free < 9 ==> written_steps(step_lens(), free) == 0,
        9 <= free < 18 ==> written_steps(step_lens(), free) == 9,
        18 <= free < 27 ==> written_steps(step_lens(), free) == 18,
        27 <= free < 34 ==> written_steps(step_lens(), free) == 27,
        34 <= free < 40 ==> written_steps(step_lens(), free) == 34,
        40 <= free < 49 ==> written_steps(step_lens(), free) == 40,
        49 <= free < 56 ==> written_steps(step_lens(), free) == 49,
        56 <= free < 61 ==> written_steps(step_lens(), free) == 56,
        61 <= free < 68 ==> written_steps(step_lens(), free) == 61,
        68 <= free < 73 ==> written_steps(step_lens(), free) == 68,
        73 <= free ==> written_steps(step_lens(), free) == 73,
        written_steps(step_lens(), free) == 73 <==> free >= 73,
{
    let l = step_lens();
    assert(l =~= seq![9nat, 9, 9, 7, 6, 9, 7, 5, 7, 5]);
    reveal_with_fuel(total, 11);
    reveal_with_fuel(written_steps, 11);
    assert(l.take(2) =~= seq![9nat, 9]);
    assert(l.take(6) =~= seq![9nat, 9, 9, 7, 6, 9]);
    assert(l.take(8) =~= seq![9nat, 9, 9, 7, 6, 9, 7, 5]);
    assert(l.drop_first() =~= seq![9nat, 9, 7, 6, 9, 7, 5, 7, 5]);
    assert(l.drop_first().drop_first() =~= seq![9nat, 7, 6, 9, 7, 5, 7, 5]);
    assert(l.drop_first().drop_first().drop_first() =~= seq![7nat, 6, 9, 7, 5, 7, 5]);
    assert(l.drop_first().drop_first().drop_first().drop_first() =~= seq![6nat, 9, 7, 5, 7, 5]);
    assert(l.drop_first().drop_first().drop_first().drop_first().drop_first() =~= seq![9nat, 7, 5, 7, 5]);
    assert(l.drop_first().drop_first().drop_first().drop_first().drop_first().drop_first() =~= seq![7nat, 5, 7, 5]);
    assert(l.drop_first().drop_first().drop_first().drop_first().drop_first().drop_first().drop_first() =~= seq![5nat, 7, 5]);
    assert(l.drop_first().drop_first().drop_first().drop_first().drop_first().drop_first().drop_first().drop_first() =~= seq![7nat, 5]);
    assert(l.drop_first().drop_first().drop_first().drop_first().drop_first().drop_first().drop_first().drop_first().drop_first() =~= seq![5nat]);
}

/// Summed length of the class-specific descriptors found by walking `b`
/// descriptor by descriptor from offset `at`, each by its length byte, up to
/// the first that does not lie whole inside `b`.
pub open spec fn class_len_from(b: Seq<u8>, at: int) -> nat
    decreases b.len() - at,
{
    if at < 0 || at + 1 >= b.len() || (b[at] as int) <= 0 || at + (b[at] as int) > b.len() {
        0
    } else {
        (if b[at + 1] == CS_INTERFACE || b[at + 1] == CS_ENDPOINT { b[at] as nat } else { 0nat })
            + class_len_from(b, at + (b[at] as int))
    }
}

/// In the configuration as written, the MIDI-Streaming header (at offset 27)
/// carries a total size equal to the summed length of every class-specific
/// descriptor from the header to the end, found by walking the bytes.
pub proof fn lemma_configuration_total(ac: u8, ms: u8, out_address: u8, in_address: u8)
    ensures
        ({
            let b = configuration_bytes(ac, ms, out_address, in_address, 2);
            &&& b[27] == 7 && b[28] == CS_INTERFACE && b[29] == MS_HEADER_SUBTYPE
            &&& b[32] as nat + 256 * b[33] as nat == class_len_from(b, 27)
        }),
{
    let b = configuration_bytes(ac, ms, out_address, in_address, 2);
    reveal_with_fuel(chain_len, 5);
    assert(chain_len(crate::descriptor::ms_elements_spec()) == 25);
    assert(b =~= seq![
        9u8, 4, ac, 0, 0, 1, 1, 0, 0,
        9, 0x24, 1, 0, 1, 9, 0, 1, ms,
        9, 4, ms, 0, 2, 1, 3, 0, 0,
        7, 0x24, 1, 0, 1, 32, 0,
        6, 0x24, 2, 1, 1, 0,
        9, 0x24, 3, 1, 1, 1, 1, 1, 0,
        7, 5, out_address, 2, 64, 0, 0,
        5, 0x25, 1, 1, 1,
        7, 5, in_address, 2, 64, 0, 0,
        5, 0x25, 1, 1, 1,
    ]);
    reveal_with_fuel(class_len_from, 8);
}

/// Emission is deterministic: two emissions of the same class into writers
/// holding the same bytes, with the same buffer length and interface count,
/// give the same result and leave the same bytes.
pub proof fn lemma_emission_deterministic(
    b0: Seq<u8>,
    cap: nat,
    mark: nat,
    ac: u8,
    ms: u8,
    out_address: u8,
    in_address: u8,
    bytes1: Seq<u8>,
    r1: Result<(), Error>,
    bytes2: Seq<u8>,
    r2: Result<(), Error>,
)
    requires
        emission(b0, cap, mark, ac, ms, out_address, in_address, bytes1, r1),
        emission(b0, cap, mark, ac, ms, out_address, in_address, bytes2, r2),
    ensures
        r1 == r2,
        bytes1 == bytes2,
{
    let p = b0.len();
    if r1 is Ok {
        assert(r2 is Ok);
        assert(r1->Ok_0 == r2->Ok_0);
    } else {
        assert(r2 is Err);
    }
    assert(bytes1 =~= bytes1.subrange(0, p as int) + bytes1.subrange(p as int, bytes1.len() as int));
    assert(bytes2 =~= bytes2.subrange(0, p as int) + bytes2.subrange(p as int, bytes2.len() as int));
}

/// A USB Audio-Control and MIDI-Streaming interface pair, with one embedded
/// IN jack, one embedded OUT jack and a bulk endpoint in each direction.
pub struct MidiClass<E: BulkEndpoints> {
    standard_ac: InterfaceNumber,
    standard_mc: InterfaceNumber,
    endpoints: E,
}

impl<E: BulkEndpoints> MidiClass<E> {
    /// The Audio-Control and MIDI-Streaming interfaces of the class.
    pub closed spec fn interfaces(&self) -> (InterfaceNumber, InterfaceNumber) {
        (self.standard_ac, self.standard_mc)
    }

    /// The endpoints the class owns.
    pub closed spec fn endpoint_pair(&self) -> E {
        self.endpoints
    }

    /// The class's handles are as the device needs them: two distinct
    /// interfaces, a bulk OUT endpoint and a bulk IN endpoint.
    pub open spec fn wf(&self) -> bool {
        &&& interface_value(self.interfaces().0) != interface_value(self.interfaces().1)
        &&& self.endpoint_pair().out_address() < 0x80
        &&& self.endpoint_pair().in_address() >= 0x80
    }

    /// A class over the Audio-Control interface `standard_ac`, the
    /// MIDI-Streaming interface `standard_mc` and `endpoints`, all allocated
    /// from the USB peripheral and owned by the class from now on.
    pub fn new(standard_ac: InterfaceNumber, standard_mc: InterfaceNumber, endpoints: E) -> (r: Self)
        requires
            interface_value(standard_ac) != interface_value(standard_mc),
            endpoints.out_address() < 0x80,
            endpoints.in_address() >= 0x80,
        ensures
            r.interfaces() == (standard_ac, standard_mc),
            r.endpoint_pair() == endpoints,
            r.wf(),
    {
        MidiClass { standard_ac, standard_mc, endpoints }
    }

    /// Sends a note-on event for `note` at velocity `vel` on channel `chan`:
    /// one write of the packet `[0x09, 0x90 | chan, note, vel]`, keeping the
    /// low four bits of `chan` and the low seven of `note` and `vel`. Returns
    /// the transport's answer unchanged: the bytes accepted, or its error,
    /// such as `WouldBlock` while an earlier packet is still pending.
    pub fn note_on(&mut self, chan: u8, note: u8, vel: u8) -> (r: Result<usize, Error>)
        ensures
            *final(self) == *old(self),
            exists|p: [u8; 4]| p@ == note_on_spec(chan, note, vel) && old(self).endpoint_pair().write_outcome(p, r),
            r is Ok ==> r->Ok_0 <= 4,
    {
        let packet = note_on_packet(chan, note, vel);
        self.endpoints.write_packet(&packet)
    }

    /// Sends a note-off event for `note` at velocity `vel` on channel
    /// `chan`: one write of the packet `[0x08, 0x80 | chan, note, vel]`,
    /// masked as for `note_on`. Returns the transport's answer unchanged.
    pub fn note_off(&mut self, chan: u8, note: u8, vel: u8) -> (r: Result<usize, Error>)
        ensures
            *final(self) == *old(self),
            exists|p: [u8; 4]| p@ == note_off_spec(chan, note, vel) && old(self).endpoint_pair().write_outcome(p, r),
            r is Ok ==> r->Ok_0 <= 4,
    {
        let packet = note_off_packet(chan, note, vel);
        self.endpoints.write_packet(&packet)
    }

    /// Reads one packet sent by the host into `data`, without blocking, and
    /// returns the transport's answer unchanged: its length (0 for a
    /// zero-length packet, at most 64), `WouldBlock` where none is queued,
    /// `BufferOverflow` where it is longer than `data`, or another error. The
    /// bytes are not interpreted.
    pub fn poll(&mut self, data: &mut [u8; 64]) -> (r: Result<usize, Error>)
        ensures
            *final(self) == *old(self),
            old(self).endpoint_pair().read_outcome(*final(data), r),
            r is Ok ==> r->Ok_0 <= 64,
    {
        self.endpoints.read_packet(data)
    }

    /// Writes the class's configuration descriptors, in order: the standard
    /// Audio-Control interface, its class-specific header naming the
    /// MIDI-Streaming interface, the standard MIDI-Streaming interface, its
    /// class-specific header with the total size computed from the
    /// descriptors that follow, the IN jack, the OUT jack, then the bulk OUT
    /// endpoint followed by its extension bound to the IN jack, and the bulk
    /// IN endpoint followed by its extension bound to the OUT jack. Stops at
    /// the first descriptor that does not fit with `BufferOverflow`; what was
    /// written before stays.
    #[verifier::rlimit(100)]
    pub fn get_configuration_descriptors(&self, writer: &mut DescriptorWriter) -> (r: Result<(), Error>)
        requires
            countable(*old(writer), interface_mark(*old(writer))),
            written_bytes(*old(writer))[interface_mark(*old(writer)).unwrap() as int] < 254,
        ensures
            buffer_len(*final(writer)) == buffer_len(*old(writer)),
            interface_mark(*final(writer)) == interface_mark(*old(writer)),
            emission(
                written_bytes(*old(writer)),
                buffer_len(*old(writer)),
                interface_mark(*old(writer)).unwrap(),
                interface_value(self.interfaces().0),
                interface_value(self.interfaces().1),
                self.endpoint_pair().out_address(),
                self.endpoint_pair().in_address(),
                written_bytes(*final(writer)),
                r,
            ),
            r is Ok <==> written_bytes(*old(writer)).len() + 73 <= buffer_len(*old(writer)),
            r is Ok ==> written_bytes(*final(writer)).len() == written_bytes(*old(writer)).len() + 73,
    {
        let ghost b0 = written_bytes(*writer);
        let ghost p = b0.len();
        let ghost cap = buffer_len(*writer);
        let ghost free = cap - p;
        let ghost m = interface_mark(*writer).unwrap();
        let ghost acv = interface_value(self.standard_ac);
        let ghost msv = interface_value(self.standard_mc);
        let ghost oa = self.endpoints.out_address();
        let ghost ia = self.endpoints.in_address();
        let ghost cfg0 = configuration_bytes(acv, msv, oa, ia, 0);
        let ghost cfg1 = configuration_bytes(acv, msv, oa, ia, 1);
        let ghost cfg2 = configuration_bytes(acv, msv, oa, ia, 2);
        let ghost b1 = b0.update(m as int, (b0[m as int] + 1) as u8);
        let ghost b2 = b0.update(m as int, (b0[m as int] + 2) as u8);
        proof {
            lemma_steps(free);
            assert(configuration_bytes(acv, msv, oa, ia, 0).len() == 73);
        }
        let ms_number = interface_number(self.standard_mc);
        let header = ac_header(ms_number);
        let chain = ms_chain();
        proof {
            assert(chain@.len() == views(chain@).len() && ms_chain_spec().len() == 5);
            assert(forall|i: int| 0 <= i < 5 ==> #[trigger] chain@[i]@ == ms_chain_spec()[i]);
        }
        let ghost c = ms_chain_spec();
        let ghost ia_bytes = interface_bytes(acv, USB_AUDIO_CLASS, USB_AUDIOCONTROL_SUBCLASS, 0, 0);
        let ghost h = wire(ac_header_spec(msv));
        let ghost ms0 = interface_bytes(msv, USB_AUDIO_CLASS, USB_MIDISTREAMING_SUBCLASS, 0, 0);

        if let Err(e) = write_interface(writer, self.standard_ac, USB_AUDIO_CLASS, USB_AUDIOCONTROL_SUBCLASS, 0) {
            proof {
                assert(written_bytes(*writer).subrange(0, p as int) =~= b1);
                assert(written_bytes(*writer).subrange(p as int, p as int) =~= cfg0.take(0));
            }
            return Err(e);
        }
        assert(written_bytes(*writer) == b1 + ia_bytes);
        if let Err(e) = write_class(writer, &header) {
            proof {
                assert(written_bytes(*writer).subrange(0, p as int) =~= b1);
                assert(written_bytes(*writer).subrange(p as int, p as int + 9) =~= cfg0.take(9));
            }
            return Err(e);
        }
        assert(written_bytes(*writer) == b1 + ia_bytes + h);
        assert(b1 + ia_bytes + h == (b0 + ia_bytes + h).update(m as int, (b0[m as int] + 1) as u8));
        if let Err(e) = write_interface(writer, self.standard_mc, USB_AUDIO_CLASS, USB_MIDISTREAMING_SUBCLASS, 0) {
            proof {
                assert(written_bytes(*writer).subrange(0, p as int) =~= b2);
                assert(written_bytes(*writer).subrange(p as int, p as int + 18) =~= cfg0.take(18));
            }
            return Err(e);
        }
        let ghost acc = ia_bytes + h + ms0;
        assert(written_bytes(*writer) =~= b2 + acc);
        if let Err(e) = write_class(writer, &chain[0]) {
            proof {
                assert(written_bytes(*writer).subrange(0, p as int) =~= b2);
                assert(written_bytes(*writer).subrange(p as int, p as int + 27) =~= cfg0.take(27));
            }
            return Err(e);
        }
        let ghost acc = acc + wire(c[0]);
        assert(written_bytes(*writer) =~= b2 + acc);
        if let Err(e) = write_class(writer, &chain[1]) {
            proof {
                assert(written_bytes(*writer).subrange(0, p as int) =~= b2);
                assert(written_bytes(*writer).subrange(p as int, p as int + 34) =~= cfg0.take(34));
            }
            return Err(e);
        }
        let ghost acc = acc + wire(c[1]);
        assert(written_bytes(*writer) =~= b2 + acc);
        if let Err(e) = write_class(writer, &chain[2]) {
            proof {
                assert(written_bytes(*writer).subrange(0, p as int) =~= b2);
                assert(written_bytes(*writer).subrange(p as int, p as int + 40) =~= cfg0.take(40));
            }
            return Err(e);
        }
        let ghost acc = acc + wire(c[2]);
        assert(written_bytes(*writer) =~= b2 + acc);
        assert(acc.len() == 49 && acc[22] == 0);
        if let Err(e) = self.endpoints.write_out_descriptor(writer) {
            proof {
                assert(written_bytes(*writer).subrange(0, p as int) =~= b2);
                assert(written_bytes(*writer).subrange(p as int, p as int + 49) =~= cfg1.take(49));
            }
            return Err(e);
        }
        let ghost acc = acc.update(22, 1u8) + bulk_endpoint_bytes(oa);
        assert(written_bytes(*writer) =~= b2 + acc);
        if let Err(e) = write_class(writer, &chain[3]) {
            proof {
                assert(written_bytes(*writer).subrange(0, p as int) =~= b2);
                assert(written_bytes(*writer).subrange(p as int, p as int + 56) =~= cfg1.take(56));
            }
            return Err(e);
        }
        let ghost acc = acc + wire(c[3]);
        assert(written_bytes(*writer) =~= b2 + acc);
        if let Err(e) = self.endpoints.write_in_descriptor(writer) {
            proof {
                assert(written_bytes(*writer).subrange(0, p as int) =~= b2);
                assert(written_bytes(*writer).subrange(p as int, p as int + 61) =~= cfg2.take(61));
            }
            return Err(e);
        }
        let ghost acc = acc.update(22, 2u8) + bulk_endpoint_bytes(ia);
        assert(written_bytes(*writer) =~= b2 + acc);
        if let Err(e) = write_class(writer, &chain[4]) {
            proof {
                assert(written_bytes(*writer).subrange(0, p as int) =~= b2);
                assert(written_bytes(*writer).subrange(p as int, p as int + 68) =~= cfg2.take(68));
            }
            return Err(e);
        }
        proof {
            assert(written_bytes(*writer).subrange(0, p as int) =~= b2);
            assert(written_bytes(*writer).subrange(p as int, p as int + 73) =~= cfg2.take(73));
        }
        Ok(())
    }
}

} // verus!
