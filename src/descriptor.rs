//! Class-specific descriptors of the Audio-Control and MIDI-Streaming
//! interfaces, and the lengths that the standard descriptors add to them.
use vstd::prelude::*;

verus! {

/// Interface class code of USB Audio.
pub const USB_AUDIO_CLASS: u8 = 0x01;
/// Audio-Control interface subclass.
pub const USB_AUDIOCONTROL_SUBCLASS: u8 = 0x01;
/// MIDI-Streaming interface subclass.
pub const USB_MIDISTREAMING_SUBCLASS: u8 = 0x03;
/// Descriptor type of a class-specific interface descriptor.
pub const CS_INTERFACE: u8 = 0x24;
/// Descriptor type of a class-specific endpoint descriptor.
pub const CS_ENDPOINT: u8 = 0x25;
/// Subtype of the Audio-Control class-specific header.
pub const HEADER_SUBTYPE: u8 = 0x01;
/// Subtype of the MIDI-Streaming class-specific header.
pub const MS_HEADER_SUBTYPE: u8 = 0x01;
/// Subtype of a MIDI IN jack descriptor.
pub const MIDI_IN_JACK_SUBTYPE: u8 = 0x02;
/// Subtype of a MIDI OUT jack descriptor.
pub const MIDI_OUT_JACK_SUBTYPE: u8 = 0x03;
/// Subtype of a class-specific MIDI-Streaming endpoint descriptor.
pub const MS_GENERAL: u8 = 0x01;
/// Jack type: embedded.
pub const EMBEDDED: u8 = 0x01;
/// Identifier of the embedded IN jack.
pub const IN_JACK_ID: u8 = 0x01;
/// Identifier of the embedded OUT jack (its own namespace).
pub const OUT_JACK_ID: u8 = 0x01;
/// Length of a standard interface descriptor.
pub const INTERFACE_DESCRIPTOR_LEN: u64 = 9;
/// Length of the MIDI-Streaming class-specific header.
pub const MS_HEADER_LEN: u64 = 7;

/// A class-specific descriptor: its type, and the bytes that follow the length
/// and type bytes.
#[derive(Clone, Debug)]
pub struct ClassDescriptor {
    pub descriptor_type: u8,
    pub body: Vec<u8>,
}

impl View for ClassDescriptor {
    type V = (u8, Seq<u8>);

    open spec fn view(&self) -> (u8, Seq<u8>) {
        (self.descriptor_type, self.body@)
    }
}

/// Bytes that a descriptor takes on the wire: length, type, then its body.
pub open spec fn descriptor_len(d: (u8, Seq<u8>)) -> nat {
    d.1.len() + 2
}

/// Summed wire length of a sequence of descriptors.
pub open spec fn chain_len(s: Seq<(u8, Seq<u8>)>) -> nat
    decreases s.len(),
{
    if s.len() == 0 {
        0
    } else {
        chain_len(s.drop_last()) + descriptor_len(s.last())
    }
}

/// The views of a vector of descriptors.
pub open spec fn views(v: Seq<ClassDescriptor>) -> Seq<(u8, Seq<u8>)> {
    v.map_values(|d: ClassDescriptor| d@)
}

/// The Audio-Control class-specific header: revision 1.0, a total size of 9
/// bytes, one streaming interface, whose number is `ms_interface`.
pub open spec fn ac_header_spec(ms_interface: u8) -> (u8, Seq<u8>) {
    (CS_INTERFACE, seq![HEADER_SUBTYPE, 0x00, 0x01, 0x09, 0x00, 0x01, ms_interface])
}

/// The MIDI-Streaming class-specific header: revision 1.0 and a little-endian
/// total size.
pub open spec fn ms_header_spec(total: int) -> (u8, Seq<u8>) {
    (CS_INTERFACE, seq![MS_HEADER_SUBTYPE, 0x00, 0x01, (total % 256) as u8, (total / 256) as u8])
}

/// The value of the total-size field of a MIDI-Streaming header body.
pub open spec fn total_field(body: Seq<u8>) -> nat {
    body[3] as nat + 256 * body[4] as nat
}

/// The embedded IN jack: no pins.
pub open spec fn in_jack_spec() -> (u8, Seq<u8>) {
    (CS_INTERFACE, seq![MIDI_IN_JACK_SUBTYPE, EMBEDDED, IN_JACK_ID, 0x00])
}

/// The embedded OUT jack: one pin, sourced from pin 1 of the IN jack.
pub open spec fn out_jack_spec() -> (u8, Seq<u8>) {
    (CS_INTERFACE, seq![MIDI_OUT_JACK_SUBTYPE, EMBEDDED, OUT_JACK_ID, 0x01, IN_JACK_ID, 0x01, 0x00])
}

/// The class-specific part of a bulk endpoint bound to one embedded jack.
pub open spec fn endpoint_class_spec(jack: u8) -> (u8, Seq<u8>) {
    (CS_ENDPOINT, seq![MS_GENERAL, 0x01, jack])
}

/// The class-specific descriptors that follow the MIDI-Streaming header, in
/// the order they are written: the two jacks, then the extension of the bulk
/// OUT endpoint (bound to the IN jack) and of the bulk IN endpoint (bound to
/// the OUT jack).
pub open spec fn ms_elements_spec() -> Seq<(u8, Seq<u8>)> {
    seq![in_jack_spec(), out_jack_spec(), endpoint_class_spec(IN_JACK_ID), endpoint_class_spec(OUT_JACK_ID)]
}

/// A MIDI-Streaming header followed by `elements`, whose total-size field is
/// the wire length of the header and of every element.
pub open spec fn ms_chain_with(elements: Seq<(u8, Seq<u8>)>) -> Seq<(u8, Seq<u8>)> {
    seq![ms_header_spec(MS_HEADER_LEN + chain_len(elements))] + elements
}

/// The complete MIDI-Streaming class-specific chain of this device.
pub open spec fn ms_chain_spec() -> Seq<(u8, Seq<u8>)> {
    ms_chain_with(ms_elements_spec())
}

proof fn lemma_chain_len_push(s: Seq<(u8, Seq<u8>)>, d: (u8, Seq<u8>))
    ensures
        chain_len(s.push(d)) == chain_len(s) + descriptor_len(d),
{
    assert(s.push(d).drop_last() =~= s);
}

proof fn lemma_chain_len_prepend(d: (u8, Seq<u8>), s: Seq<(u8, Seq<u8>)>)
    ensures
        chain_len(seq![d] + s) == descriptor_len(d) + chain_len(s),
    decreases s.len(),
{
    if s.len() == 0 {
        assert((seq![d] + s).drop_last() =~= Seq::<(u8, Seq<u8>)>::empty());
        assert((seq![d] + s).last() == d);
        assert(chain_len(Seq::<(u8, Seq<u8>)>::empty()) == 0);
    } else {
        lemma_chain_len_prepend(d, s.drop_last());
        assert((seq![d] + s).drop_last() =~= seq![d] + s.drop_last());
        assert((seq![d] + s).last() == s.last());
    }
}

/// For any elements that follow a MIDI-Streaming header, the header's
/// total-size field equals the summed wire length of the header and of every
/// descriptor written after it.
pub proof fn lemma_ms_total_is_chain_len(elements: Seq<(u8, Seq<u8>)>)
    requires
        MS_HEADER_LEN + chain_len(elements) < 0x10000,
    ensures
        total_field(ms_chain_with(elements)[0].1) == chain_len(ms_chain_with(elements)),
        descriptor_len(ms_chain_with(elements)[0]) == MS_HEADER_LEN,
{
    let total = MS_HEADER_LEN + chain_len(elements);
    let h = ms_header_spec(total);
    lemma_chain_len_prepend(h, elements);
    assert(seq![h] + elements =~= ms_chain_with(elements));
    assert(total % 256 < 256 && total / 256 < 256);
    assert(total == total % 256 + 256 * (total / 256));
}

fn descriptor(descriptor_type: u8, body: Vec<u8>) -> (r: ClassDescriptor)
    ensures
        r@ == (descriptor_type, body@),
{
    ClassDescriptor { descriptor_type, body }
}

/// The Audio-Control class-specific header naming interface `ms_interface` as
/// its one MIDI-Streaming interface.
pub fn ac_header(ms_interface: u8) -> (r: ClassDescriptor)
    ensures
        r@ == ac_header_spec(ms_interface),
{
    let r = descriptor(CS_INTERFACE, vec![HEADER_SUBTYPE, 0x00, 0x01, 0x09, 0x00, 0x01, ms_interface]);
    assert(r@.1 =~= ac_header_spec(ms_interface).1);
    r
}

/// The class-specific descriptors that follow the MIDI-Streaming header.
pub fn ms_elements() -> (r: Vec<ClassDescriptor>)
    ensures
        views(r@) == ms_elements_spec(),
{
    let in_jack = descriptor(CS_INTERFACE, vec![MIDI_IN_JACK_SUBTYPE, EMBEDDED, IN_JACK_ID, 0x00]);
    let out_jack = descriptor(
        CS_INTERFACE,
        vec![MIDI_OUT_JACK_SUBTYPE, EMBEDDED, OUT_JACK_ID, 0x01, IN_JACK_ID, 0x01, 0x00],
    );
    let bulk_out = descriptor(CS_ENDPOINT, vec![MS_GENERAL, 0x01, IN_JACK_ID]);
    let bulk_in = descriptor(CS_ENDPOINT, vec![MS_GENERAL, 0x01, OUT_JACK_ID]);
    assert(in_jack@.1 =~= in_jack_spec().1);
    assert(out_jack@.1 =~= out_jack_spec().1);
    assert(bulk_out@.1 =~= endpoint_class_spec(IN_JACK_ID).1);
    assert(bulk_in@.1 =~= endpoint_class_spec(OUT_JACK_ID).1);
    let r = vec![in_jack, out_jack, bulk_out, bulk_in];
    assert(views(r@) =~= ms_elements_spec());
    r
}

/// Sums the wire lengths of `elements`, or `None` where the sum does not fit
/// in 64 bits.
pub fn elements_len(elements: &Vec<ClassDescriptor>) -> (r: Option<u64>)
    ensures
        match r {
            Some(n) => n == chain_len(views(elements@)),
            None => chain_len(views(elements@)) > u64::MAX,
        },
{
    let mut sum: u64 = 0;
    let mut i: usize = 0;
    while i < elements.len()
        invariant
            i <= elements.len(),
            sum == chain_len(views(elements@.subrange(0, i as int))),
        decreases elements.len() - i,
    {
        let d = &elements[i];
        proof {
            assert(elements@.subrange(0, i + 1) =~= elements@.subrange(0, i as int).push(*d));
            assert(views(elements@.subrange(0, i + 1)) =~= views(elements@.subrange(0, i as int)).push(d@));
            lemma_chain_len_push(views(elements@.subrange(0, i as int)), d@);
        }
        let n = d.body.len() as u64;
        if n > u64::MAX - 2 || sum > u64::MAX - 2 - n {
            proof {
                lemma_chain_len_prefix(views(elements@), i + 1);
                assert(views(elements@).subrange(0, i + 1) =~= views(elements@.subrange(0, i + 1)));
            }
            return None;
        }
        sum = sum + n + 2;
        i = i + 1;
    }
    assert(elements@.subrange(0, i as int) =~= elements@);
    Some(sum)
}

proof fn lemma_chain_len_prefix(s: Seq<(u8, Seq<u8>)>, k: int)
    requires
        0 <= k <= s.len(),
    ensures
        chain_len(s.subrange(0, k)) <= chain_len(s),
    decreases s.len() - k,
{
    if k < s.len() {
        lemma_chain_len_prefix(s, k + 1);
        assert(s.subrange(0, k + 1) =~= s.subrange(0, k).push(s[k]));
        lemma_chain_len_push(s.subrange(0, k), s[k]);
    } else {
        assert(s.subrange(0, k) =~= s);
    }
}

/// The MIDI-Streaming header for `elements`: its total size is computed from
/// the wire lengths of the header and of every element. `None` where that
/// total does not fit the two-byte field.
pub fn ms_header(elements: &Vec<ClassDescriptor>) -> (r: Option<ClassDescriptor>)
    ensures
        match r {
            Some(h) => MS_HEADER_LEN + chain_len(views(elements@)) < 0x10000
                && h@ == ms_header_spec(MS_HEADER_LEN + chain_len(views(elements@))),
            None => MS_HEADER_LEN + chain_len(views(elements@)) >= 0x10000,
        },
{
    match elements_len(elements) {
        None => None,
        Some(n) => {
            if n >= 0x10000 - MS_HEADER_LEN {
                None
            } else {
                let total: u64 = MS_HEADER_LEN + n;
                let h = descriptor(
                    CS_INTERFACE,
                    vec![MS_HEADER_SUBTYPE, 0x00, 0x01, (total % 256) as u8, (total / 256) as u8],
                );
                assert(h@.1 =~= ms_header_spec(total as int).1);
                Some(h)
            }
        },
    }
}

/// The complete MIDI-Streaming class-specific chain: the header, whose total
/// size is computed from what follows it, then the jacks and the endpoint
/// extensions.
pub fn ms_chain() -> (r: Vec<ClassDescriptor>)
    ensures
        views(r@) == ms_chain_spec(),
        total_field(r@[0].body@) == chain_len(views(r@)),
        chain_len(views(r@)) == 32,
{
    let elements = ms_elements();
    reveal_with_fuel(chain_len, 5);
    assert(chain_len(views(elements@)) == 25);
    let header = match ms_header(&elements) {
        Some(h) => h,
        None => {
            assert(false);
            descriptor(CS_INTERFACE, Vec::new())
        },
    };
    let mut r: Vec<ClassDescriptor> = Vec::new();
    r.push(header);
    let mut elements = elements;
    r.append(&mut elements);
    assert(views(r@) =~= ms_chain_spec());
    proof {
        lemma_ms_total_is_chain_len(ms_elements_spec());
        assert(views(r@)[0] == r@[0]@);
    }
    r
}

/// Every class-specific descriptor of the configuration, in the order they
/// are written: the Audio-Control header, then the MIDI-Streaming chain.
pub open spec fn class_chain_spec(ms_interface: u8) -> Seq<(u8, Seq<u8>)> {
    seq![ac_header_spec(ms_interface)] + ms_chain_spec()
}

/// Every class-specific descriptor of the configuration whose MIDI-Streaming
/// interface has number `ms_interface`, in the order they are written.
pub fn class_descriptors(ms_interface: u8) -> (r: Vec<ClassDescriptor>)
    ensures
        views(r@) == class_chain_spec(ms_interface),
{
    let mut r: Vec<ClassDescriptor> = Vec::new();
    r.push(ac_header(ms_interface));
    let mut chain = ms_chain();
    r.append(&mut chain);
    assert(views(r@) =~= class_chain_spec(ms_interface));
    r
}

} // verus!
