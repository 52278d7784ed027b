use vstd::prelude::*;

verus! {

/// One flow or session, as it stands when it is logged.
///
/// The two fields that hold seconds (`duration` and `inter_arrivals`) keep
/// each value as the JSON number text that stands for it in the log.
#[derive(Clone, Debug)]
pub struct VstpLog {
    pub timestamp: String,
    pub flow_id: String,
    pub src_ip: String,
    pub dst_ip: String,
    pub src_port: u16,
    pub dst_port: u16,
    pub protocol: String,
    pub packets: u32,
    pub bytes: u64,
    pub duration: String,
    pub checksum_errors: u32,
    pub dropped_packets: u32,
    pub retransmissions: u32,
    pub flags: Vec<String>,
    pub packet_sizes: Option<Vec<u32>>,
    pub inter_arrivals: Option<Vec<String>>,
}

/// A record could not be written to the log: the file could not be opened
/// or created, or the record could not be serialized or written.
#[derive(Clone, Copy, Debug, PartialEq, Eq, Structural)]
pub struct PersistenceFailure;

} // verus!
