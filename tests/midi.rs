use std::cell::RefCell;
use std::rc::Rc;
use usb_device::bus::{InterfaceNumber, PollResult, UsbBus, UsbBusAllocator};
use usb_device::descriptor::DescriptorWriter;
use usb_device::endpoint::{EndpointAddress, EndpointType};
use usb_device::{UsbDirection, UsbError};
use usb_midi::descriptor::{
    ac_header, class_descriptors, elements_len, ms_chain, ms_elements, ms_header, ClassDescriptor,
};
use usb_midi::midi::{BulkEndpoints, MidiClass};
use usb_midi::packet::{note_off_packet, note_on_packet};
use usb_midi::usb::Error;

struct IdleBus;

impl UsbBus for IdleBus {
    fn alloc_ep(
        &mut self,
        ep_dir: UsbDirection,
        _ep_addr: Option<EndpointAddress>,
        _ep_type: EndpointType,
        _max_packet_size: u16,
        _interval: u8,
    ) -> usb_device::Result<EndpointAddress> {
        Ok(EndpointAddress::from_parts(1, ep_dir))
    }
    fn enable(&mut self) {}
    fn reset(&self) {}
    fn set_device_address(&self, _addr: u8) {}
    fn write(&self, _ep_addr: EndpointAddress, buf: &[u8]) -> usb_device::Result<usize> {
        Ok(buf.len())
    }
    fn read(&self, _ep_addr: EndpointAddress, _buf: &mut [u8]) -> usb_device::Result<usize> {
        Err(UsbError::WouldBlock)
    }
    fn set_stalled(&self, _ep_addr: EndpointAddress, _stalled: bool) {}
    fn is_stalled(&self, _ep_addr: EndpointAddress) -> bool {
        false
    }
    fn suspend(&self) {}
    fn resume(&self) {}
    fn poll(&self) -> PollResult {
        PollResult::None
    }
}

/// Bulk endpoints in memory: packets sent are recorded, and at most one
/// host packet waits to be read. Descriptors are not written through them;
/// tests/enumeration.rs covers those with usb-device's own endpoints.
struct MemoryEndpoints {
    sent: Rc<RefCell<Vec<[u8; 4]>>>,
    inbound: RefCell<Option<Vec<u8>>>,
    busy: bool,
}

impl MemoryEndpoints {
    fn new(inbound: Option<Vec<u8>>, busy: bool) -> MemoryEndpoints {
        MemoryEndpoints { sent: Rc::new(RefCell::new(Vec::new())), inbound: RefCell::new(inbound), busy }
    }
}

impl BulkEndpoints for MemoryEndpoints {
    fn out_address(&self) -> u8 {
        0x01
    }
    fn in_address(&self) -> u8 {
        0x81
    }
    // Predicates the library's proofs speak of; code never evaluates them.
    fn write_outcome(&self, _packet: [u8; 4], _r: Result<usize, Error>) -> bool {
        true
    }

    fn read_outcome(&self, _data: [u8; 64], _r: Result<usize, Error>) -> bool {
        true
    }

    fn write_packet(&self, packet: &[u8; 4]) -> Result<usize, Error> {
        if self.busy {
            return Err(Error::WouldBlock);
        }
        self.sent.borrow_mut().push(*packet);
        Ok(packet.len())
    }
    fn read_packet(&self, data: &mut [u8; 64]) -> Result<usize, Error> {
        match self.inbound.borrow_mut().take() {
            None => Err(Error::WouldBlock),
            Some(p) if p.len() > data.len() => Err(Error::BufferOverflow),
            Some(p) => {
                data[..p.len()].copy_from_slice(&p);
                Ok(p.len())
            }
        }
    }
    fn write_out_descriptor(&self, _writer: &mut DescriptorWriter) -> Result<(), Error> {
        Ok(())
    }
    fn write_in_descriptor(&self, _writer: &mut DescriptorWriter) -> Result<(), Error> {
        Ok(())
    }
}

fn interfaces() -> (InterfaceNumber, InterfaceNumber) {
    let alloc = UsbBusAllocator::new(IdleBus);
    (alloc.interface(), alloc.interface())
}

fn class(endpoints: MemoryEndpoints) -> MidiClass<MemoryEndpoints> {
    let (ac, ms) = interfaces();
    MidiClass::new(ac, ms, endpoints)
}

fn wire(d: &ClassDescriptor) -> Vec<u8> {
    let mut v = vec![(d.body.len() + 2) as u8, d.descriptor_type];
    v.extend_from_slice(&d.body);
    v
}

#[test]
fn note_on_masks_out_of_range_inputs() {
    assert_eq!(note_on_packet(16, 128, 255), [0x09, 0x90, 0x00, 0x7F]);
}

#[test]
fn note_off_packet_bytes() {
    assert_eq!(note_off_packet(1, 60, 100), [0x08, 0x81, 0x3C, 0x64]);
}

#[test]
fn note_on_packet_in_range() {
    assert_eq!(note_on_packet(15, 127, 127), [0x09, 0x9F, 0x7F, 0x7F]);
    assert_eq!(note_on_packet(3, 69, 64), [0x09, 0x93, 0x45, 0x40]);
}

#[test]
fn note_off_masks_out_of_range_inputs() {
    assert_eq!(note_off_packet(0xFF, 0xFF, 0x80), [0x08, 0x8F, 0x7F, 0x00]);
}

#[test]
fn class_sends_note_on_packet() {
    let mut midi = class(MemoryEndpoints::new(None, false));
    assert_eq!(midi.note_on(16, 128, 255), Ok(4));
    assert_eq!(midi.note_off(1, 60, 100), Ok(4));
}

#[test]
fn class_records_sent_packets() {
    let eps = MemoryEndpoints::new(None, false);
    let log = Rc::clone(&eps.sent);
    let mut midi = class(eps);
    midi.note_on(2, 64, 90).unwrap();
    midi.note_off(2, 64, 0).unwrap();
    midi.note_on(16, 128, 255).unwrap();
    assert_eq!(
        *log.borrow(),
        vec![[0x09, 0x92, 0x40, 0x5A], [0x08, 0x82, 0x40, 0x00], [0x09, 0x90, 0x00, 0x7F]]
    );
}

#[test]
fn note_on_surfaces_would_block() {
    let mut midi = class(MemoryEndpoints::new(None, true));
    assert_eq!(midi.note_on(0, 60, 100), Err(Error::WouldBlock));
}

#[test]
fn poll_without_data_would_block() {
    let mut midi = class(MemoryEndpoints::new(None, false));
    let mut data = [0u8; 64];
    assert_eq!(midi.poll(&mut data), Err(Error::WouldBlock));
}

#[test]
fn poll_oversized_packet_overflows() {
    let mut midi = class(MemoryEndpoints::new(Some(vec![0xAA; 65]), false));
    let mut data = [0u8; 64];
    assert_eq!(midi.poll(&mut data), Err(Error::BufferOverflow));
    assert_eq!(data, [0u8; 64]);
}

#[test]
fn poll_zero_length_packet() {
    let mut midi = class(MemoryEndpoints::new(Some(vec![]), false));
    let mut data = [0u8; 64];
    assert_eq!(midi.poll(&mut data), Ok(0));
}

#[test]
fn poll_reads_packet() {
    let mut midi = class(MemoryEndpoints::new(Some(vec![0x09, 0x90, 0x3C, 0x40]), false));
    let mut data = [0u8; 64];
    assert_eq!(midi.poll(&mut data), Ok(4));
    assert_eq!(&data[..4], &[0x09, 0x90, 0x3C, 0x40]);
    assert_eq!(midi.poll(&mut data), Err(Error::WouldBlock));
}

#[test]
fn ms_chain_bytes() {
    let chain = ms_chain();
    let bytes: Vec<Vec<u8>> = chain.iter().map(wire).collect();
    assert_eq!(
        bytes,
        vec![
            vec![0x07, 0x24, 0x01, 0x00, 0x01, 0x20, 0x00],
            vec![0x06, 0x24, 0x02, 0x01, 0x01, 0x00],
            vec![0x09, 0x24, 0x03, 0x01, 0x01, 0x01, 0x01, 0x01, 0x00],
            vec![0x05, 0x25, 0x01, 0x01, 0x01],
            vec![0x05, 0x25, 0x01, 0x01, 0x01],
        ]
    );
}

#[test]
fn ms_total_size_is_sum_of_chain() {
    let chain = ms_chain();
    let total: usize = chain.iter().map(|d| d.body.len() + 2).sum();
    let h = &chain[0].body;
    assert_eq!(h[3] as usize + 256 * h[4] as usize, total);
    assert_eq!(total, 32);
}

#[test]
fn ms_header_of_no_elements() {
    let h = ms_header(&Vec::new()).unwrap();
    assert_eq!(wire(&h), vec![0x07, 0x24, 0x01, 0x00, 0x01, 0x07, 0x00]);
}

#[test]
fn ms_header_two_byte_total() {
    let big = vec![ClassDescriptor { descriptor_type: 0x24, body: vec![0; 254] }; 2];
    let h = ms_header(&big).unwrap();
    assert_eq!(wire(&h), vec![0x07, 0x24, 0x01, 0x00, 0x01, 0x07, 0x02]);
}

#[test]
fn ms_header_total_too_large() {
    let big = vec![ClassDescriptor { descriptor_type: 0x24, body: vec![0; 254] }; 258];
    assert!(ms_header(&big).is_none());
}

#[test]
fn elements_len_sums_wire_lengths() {
    assert_eq!(elements_len(&ms_elements()), Some(25));
    assert_eq!(elements_len(&Vec::new()), Some(0));
}

#[test]
fn ac_header_names_streaming_interface() {
    assert_eq!(wire(&ac_header(1)), vec![0x09, 0x24, 0x01, 0x00, 0x01, 0x09, 0x00, 0x01, 0x01]);
    assert_eq!(wire(&ac_header(5)), vec![0x09, 0x24, 0x01, 0x00, 0x01, 0x09, 0x00, 0x01, 0x05]);
}

#[test]
fn emission_is_deterministic() {
    let a: Vec<Vec<u8>> = class_descriptors(1).iter().map(wire).collect();
    let b: Vec<Vec<u8>> = class_descriptors(1).iter().map(wire).collect();
    assert_eq!(a, b);
    assert_eq!(a.len(), 6);
}

#[test]
fn class_sends_masked_packets() {
    let eps = MemoryEndpoints::new(None, false);
    let log = Rc::clone(&eps.sent);
    let mut midi = class(eps);
    assert_eq!(midi.note_on(0, 60, 100), Ok(4));
    assert_eq!(midi.note_off(1, 60, 100), Ok(4));
    assert_eq!(midi.note_off(17, 188, 228), Ok(4));
    assert_eq!(
        *log.borrow(),
        vec![[0x09, 0x90, 0x3C, 0x64], [0x08, 0x81, 0x3C, 0x64], [0x08, 0x81, 0x3C, 0x64]]
    );
}

#[test]
fn note_off_mirrors_note_on() {
    for chan in [0u8, 5, 15, 16, 200] {
        let on = note_on_packet(chan, 70, 90);
        let off = note_off_packet(chan, 70, 90);
        assert_eq!(off[1], on[1] - 0x10);
        assert_eq!((off[0], off[2], off[3]), (0x08, on[2], on[3]));
    }
}
