//! A USB Audio / MIDI-Streaming device class: the class-specific descriptor
//! chain, the USB-MIDI event packet codec, and the class that drives a pair of
//! bulk endpoints.
pub mod packet;
pub mod descriptor;
pub mod usb;
pub mod midi;
