/// Command line options and the settings a session is started with.
pub mod cmdline;
/// Lookups in the disc image: the boot descriptor and file request paths.
pub mod image;
/// Reassembly of file requests read off the wire.
pub mod request;
/// The transfer session: what each state asks of the link, and how it moves on.
pub mod session;
/// The protocol's states, acknowledgements, and packets.
pub mod transfer;
