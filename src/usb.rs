//! The parts of usb-device that the class uses: interface numbers, the
//! descriptor writer, and the transport's errors.
use vstd::prelude::*;
use usb_device::bus::InterfaceNumber;
use usb_device::descriptor::DescriptorWriter;
use usb_device::UsbError;
use crate::descriptor::ClassDescriptor;

verus! {

#[verifier::external_type_specification]
#[verifier::external_body]
pub struct ExInterfaceNumber(InterfaceNumber);

#[verifier::external_type_specification]
#[verifier::external_body]
pub struct ExDescriptorWriter<'a>(DescriptorWriter<'a>);

#[verifier::external_type_specification]
#[verifier::external_body]
pub struct ExUsbError(UsbError);

/// The transport's errors, one for one with usb-device's.
#[derive(Clone, Copy, Debug, PartialEq, Eq, Structural)]
pub enum Error {
    /// The operation cannot complete now: no packet queued, or the previous
    /// one not yet sent.
    WouldBlock,
    ParseError,
    /// A packet or descriptor does not fit the space given for it.
    BufferOverflow,
    EndpointOverflow,
    EndpointMemoryOverflow,
    InvalidEndpoint,
    Unsupported,
    InvalidState,
}

/// The bytes the descriptor writer holds so far: its buffer up to its
/// position.
pub uninterp spec fn written_bytes(w: DescriptorWriter) -> Seq<u8>;

/// Length of the descriptor writer's buffer.
pub uninterp spec fn buffer_len(w: DescriptorWriter) -> nat;

/// Where the interface count of the configuration descriptor being written
/// lies, if that descriptor has been written.
pub uninterp spec fn interface_mark(w: DescriptorWriter) -> Option<nat>;

/// Where the endpoint count of the interface descriptor last written lies,
/// if that descriptor has been written.
pub uninterp spec fn endpoint_mark(w: DescriptorWriter) -> Option<nat>;

/// The number an interface handle carries.
pub uninterp spec fn interface_value(n: InterfaceNumber) -> u8;

/// Whether a descriptor of `len` bytes, body included, fits after what `w`
/// holds: usb-device hands a descriptor body at most 254 bytes.
pub open spec fn fits(w: DescriptorWriter, len: nat) -> bool {
    written_bytes(w).len() + len <= buffer_len(w) && len <= 256
}

/// `b` with the count at `i` raised by one.
pub open spec fn bumped(b: Seq<u8>, i: nat) -> Seq<u8> {
    b.update(i as int, (b[i as int] + 1) as u8)
}

/// Whether `m` marks a count below 255 inside the bytes written.
pub open spec fn countable(w: DescriptorWriter, m: Option<nat>) -> bool {
    m is Some && m.unwrap() < written_bytes(w).len() && written_bytes(w)[m.unwrap() as int] < 255
}

/// A descriptor on the wire: its length, its type, then its body.
pub open spec fn wire(d: (u8, Seq<u8>)) -> Seq<u8> {
    seq![(d.1.len() + 2) as u8, d.0] + d.1
}

/// A standard interface descriptor of alternate setting 0, with no string.
pub open spec fn interface_bytes(number: u8, class: u8, subclass: u8, protocol: u8, endpoints: u8) -> Seq<u8> {
    seq![9, 4, number, 0, endpoints, class, subclass, protocol, 0]
}

/// The standard descriptor of a 64-byte bulk endpoint at `address`.
pub open spec fn bulk_endpoint_bytes(address: u8) -> Seq<u8> {
    seq![7, 5, address, 0x02, 64, 0, 0]
}

/// The failure of a descriptor write that does not fit.
pub open spec fn overflow() -> Result<(), Error> {
    Err(Error::BufferOverflow)
}

/// Converts usb-device's `UsbError` to the variant of the same name.
#[verifier::external_body]
pub(crate) fn transport_error(e: UsbError) -> (r: Error) {
    match e {
        UsbError::WouldBlock => Error::WouldBlock,
        UsbError::ParseError => Error::ParseError,
        UsbError::BufferOverflow => Error::BufferOverflow,
        UsbError::EndpointOverflow => Error::EndpointOverflow,
        UsbError::EndpointMemoryOverflow => Error::EndpointMemoryOverflow,
        UsbError::InvalidEndpoint => Error::InvalidEndpoint,
        UsbError::Unsupported => Error::Unsupported,
        UsbError::InvalidState => Error::InvalidState,
    }
}

/// Relies on `u8::from(InterfaceNumber)`: the interface's number.
#[verifier::external_body]
pub(crate) fn interface_number(n: InterfaceNumber) -> (r: u8)
    ensures
        r == interface_value(n),
{
    u8::from(n)
}

/// Relies on `DescriptorWriter::write`: appends the descriptor (length, type,
/// body), or fails with `BufferOverflow`, writing nothing, where it does not
/// fit.
#[verifier::external_body]
pub(crate) fn write_class(w: &mut DescriptorWriter, d: &ClassDescriptor) -> (r: Result<(), Error>)
    ensures
        buffer_len(*final(w)) == buffer_len(*old(w)),
        interface_mark(*old(w)) is Some ==> interface_mark(*final(w)) == interface_mark(*old(w)),
        endpoint_mark(*old(w)) is Some ==> endpoint_mark(*final(w)) == endpoint_mark(*old(w)),
        fits(*old(w), d.body@.len() + 2) ==> r is Ok && written_bytes(*final(w)) == written_bytes(*old(w)) + wire(d@),
        !fits(*old(w), d.body@.len() + 2) ==> r == overflow() && written_bytes(*final(w)) == written_bytes(*old(w)),
{
    w.write(d.descriptor_type, d.body.as_slice()).map_err(transport_error)
}

/// Relies on `DescriptorWriter::interface`: raises the configuration's
/// interface count, then appends an interface descriptor with no endpoints
/// yet, or fails with `BufferOverflow` where it does not fit.
#[verifier::external_body]
pub(crate) fn write_interface(w: &mut DescriptorWriter, number: InterfaceNumber, class: u8, subclass: u8, protocol: u8) -> (r: Result<(), Error>)
    requires
        countable(*old(w), interface_mark(*old(w))),
    ensures
        buffer_len(*final(w)) == buffer_len(*old(w)),
        interface_mark(*final(w)) == interface_mark(*old(w)),
        fits(*old(w), 9) ==> r is Ok
            && written_bytes(*final(w)) == bumped(written_bytes(*old(w)), interface_mark(*old(w)).unwrap())
                + interface_bytes(interface_value(number), class, subclass, protocol, 0)
            && endpoint_mark(*final(w)) == Some((written_bytes(*old(w)).len() + 4) as nat),
        !fits(*old(w), 9) ==> r == overflow()
            && written_bytes(*final(w)) == bumped(written_bytes(*old(w)), interface_mark(*old(w)).unwrap()),
{
    w.interface(number, class, subclass, protocol).map_err(transport_error)
}

} // verus!
