//! The far end of the optical link, as a front end sets it up and watches it.

use vstd::prelude::*;

use crate::mcp::handler::{
    HexValue, OltConfigParams, OltConfigResult, OltFrameLogEntry, OltFrameLogParams,
    OltFrameLogResult, OltStateResult,
};
use crate::mcp::hex::{bytes_to_hex, format_mac, parse_mac_str};

verus! {

/// How the far end is set up.
#[derive(Clone, Copy, Debug)]
pub struct OltConfig {
    pub mac: [u8; 6],
    pub llid_start: u16,
    pub oam_interval_ticks: u64,
    pub gate_interval_ticks: u64,
}

/// Whether an answer shows a setup.
pub open spec fn shows_config(r: OltConfigResult, cfg: OltConfig) -> bool {
    &&& r.mac@ == crate::mcp::hex::mac_text(cfg.mac@)
    &&& r.llid_start == cfg.llid_start
    &&& r.oam_interval_ticks == cfg.oam_interval_ticks
    &&& r.gate_interval_ticks == cfg.gate_interval_ticks
}

/// Show the setup of the far end.
pub fn olt_get_config(cfg: &OltConfig) -> (r: OltConfigResult)
    ensures
        shows_config(r, *cfg),
{
    OltConfigResult {
        mac: format_mac(&cfg.mac),
        llid_start: cfg.llid_start,
        oam_interval_ticks: cfg.oam_interval_ticks,
        gate_interval_ticks: cfg.gate_interval_ticks,
    }
}

/// The hardware address a text stands for, if it stands for one.
pub open spec fn mac_in(text: Option<Seq<char>>) -> Option<Seq<u8>> {
    match text {
        Some(t) => crate::mcp::hex::mac_of(crate::mcp::hex::colon_parts(t)),
        None => None,
    }
}

/// Change what a request names of the setup. A hardware address that is none
/// changes nothing.
pub fn olt_set_config(cfg: &mut OltConfig, params: &OltConfigParams) -> (r: OltConfigResult)
    ensures
        final(cfg).mac@ == (match mac_in(crate::text::opt_text(params.mac)) {
            Some(mac) => mac,
            None => old(cfg).mac@,
        }),
        final(cfg).llid_start == (match params.llid_start {
            Some(v) => v,
            None => old(cfg).llid_start,
        }),
        final(cfg).oam_interval_ticks == (match params.oam_interval_ticks {
            Some(v) => v,
            None => old(cfg).oam_interval_ticks,
        }),
        final(cfg).gate_interval_ticks == (match params.gate_interval_ticks {
            Some(v) => v,
            None => old(cfg).gate_interval_ticks,
        }),
        shows_config(r, *final(cfg)),
{
    if let Some(text) = &params.mac {
        if let Some(mac) = parse_mac_str(text.as_str()) {
            cfg.mac = mac;
        }
    }
    if let Some(v) = params.llid_start {
        cfg.llid_start = v;
    }
    if let Some(v) = params.oam_interval_ticks {
        cfg.oam_interval_ticks = v;
    }
    if let Some(v) = params.gate_interval_ticks {
        cfg.gate_interval_ticks = v;
    }
    olt_get_config(cfg)
}

/// The far end at one moment.
#[derive(Clone, Debug)]
pub struct OltSnapshot {
    pub enabled: bool,
    pub mpcp_state: String,
    pub olt_mac: String,
    pub onu_mac: String,
    pub assigned_llid: u16,
    pub mpcp_timestamp: u32,
    pub tx_frame_count: usize,
    pub rx_frame_count: usize,
    pub oam_keepalive_count: u64,
    pub gate_count: u64,
}

/// Show the state of the far end; where there is none, a link that is down.
pub fn olt_get_state(snap: Option<&OltSnapshot>) -> (r: OltStateResult)
    ensures
        match snap {
            Some(s) => {
                &&& r.enabled == s.enabled
                &&& r.mpcp_state@ == s.mpcp_state@
                &&& r.olt_mac@ == s.olt_mac@
                &&& r.onu_mac@ == s.onu_mac@
                &&& r.assigned_llid == s.assigned_llid
                &&& r.mpcp_timestamp.0 == s.mpcp_timestamp
                &&& r.tx_frame_count == s.tx_frame_count
                &&& r.rx_frame_count == s.rx_frame_count
                &&& r.oam_keepalive_count == s.oam_keepalive_count
                &&& r.gate_count == s.gate_count
            },
            None => {
                &&& !r.enabled
                &&& r.mpcp_state@ == "unknown"@
                &&& r.olt_mac@ == "00:00:00:00:00:00"@
                &&& r.onu_mac@ == "00:00:00:00:00:00"@
                &&& r.assigned_llid == 0
                &&& r.mpcp_timestamp.0 == 0
                &&& r.tx_frame_count == 0
                &&& r.rx_frame_count == 0
                &&& r.oam_keepalive_count == 0
                &&& r.gate_count == 0
            },
        },
{
    match snap {
        Some(s) => OltStateResult {
            enabled: s.enabled,
            mpcp_state: s.mpcp_state.clone(),
            olt_mac: s.olt_mac.clone(),
            onu_mac: s.onu_mac.clone(),
            assigned_llid: s.assigned_llid,
            mpcp_timestamp: HexValue(s.mpcp_timestamp),
            tx_frame_count: s.tx_frame_count,
            rx_frame_count: s.rx_frame_count,
            oam_keepalive_count: s.oam_keepalive_count,
            gate_count: s.gate_count,
        },
        None => OltStateResult {
            enabled: false,
            mpcp_state: String::from_str("unknown"),
            olt_mac: String::from_str("00:00:00:00:00:00"),
            onu_mac: String::from_str("00:00:00:00:00:00"),
            assigned_llid: 0,
            mpcp_timestamp: HexValue(0),
            tx_frame_count: 0,
            rx_frame_count: 0,
            oam_keepalive_count: 0,
            gate_count: 0,
        },
    }
}

/// A frame the far end saw.
#[derive(Clone, Debug)]
pub struct OltFrame {
    pub tick: u64,
    pub description: String,
    pub data: Vec<u8>,
}

/// Frames shown where a request does not say how many.
pub const FRAME_LOG_LAST: usize = 50;

/// Whether an entry shows a frame.
pub open spec fn shows_frame(e: OltFrameLogEntry, f: OltFrame) -> bool {
    &&& e.tick == f.tick
    &&& e.description@ == f.description@
    &&& e.hex@ == crate::mcp::hex::hex_of(f.data@)
    &&& e.length == f.data@.len()
}

/// Show the newest frames of a log, the oldest of them first.
pub fn olt_frame_log(log: &Vec<OltFrame>, params: &OltFrameLogParams) -> (r: OltFrameLogResult)
    ensures
        r.total == log@.len(),
        ({
            let shown = crate::mcp::bus::tail(
                log@,
                match params.last {
                    Some(n) => n as int,
                    None => FRAME_LOG_LAST as int,
                },
            );
            &&& r.entries@.len() == shown.len()
            &&& forall|i: int|
                0 <= i < shown.len() ==> shows_frame(#[trigger] r.entries@[i], shown[i])
        }),
{
    let total: usize = log.len();
    let last: usize = match params.last {
        Some(n) => n,
        None => FRAME_LOG_LAST,
    };
    let start: usize = if total > last {
        total - last
    } else {
        0
    };
    let ghost shown = crate::mcp::bus::tail(log@, last as int);
    assert(shown =~= log@.skip(start as int));
    let mut out: Vec<OltFrameLogEntry> = Vec::new();
    for i in start..total
        invariant
            total == log@.len(),
            start <= i <= total,
            out@.len() == i - start,
            forall|k: int|
                0 <= k < i - start ==> shows_frame(#[trigger] out@[k], log@[start + k]),
    {
        out.push(
            OltFrameLogEntry {
                tick: log[i].tick,
                description: log[i].description.clone(),
                hex: bytes_to_hex(log[i].data.as_slice()),
                length: log[i].data.len(),
            },
        );
    }
    OltFrameLogResult { total, entries: out }
}

/// An answer that shows a setup names each of its settings under that setting,
/// and the hardware address it shows reads back as the one set.
pub proof fn law_shown_setup_reads_back(r: OltConfigResult, cfg: OltConfig)
    requires
        shows_config(r, cfg),
    ensures
        mac_in(Some(r.mac@)) == Some(cfg.mac@),
        cfg.llid_start == r.llid_start,
        cfg.oam_interval_ticks == r.oam_interval_ticks,
        cfg.gate_interval_ticks == r.gate_interval_ticks,
{
    crate::mcp::hex::law_mac_reads_back(cfg.mac@);
}

/// An entry that shows a frame names its tick, its text and its length, and the
/// digits it shows read back as the frame's bytes. Where a request does not say,
/// fifty frames are shown.
pub proof fn law_shown_frame_reads_back(e: OltFrameLogEntry, f: OltFrame)
    requires
        shows_frame(e, f),
    ensures
        f.tick == e.tick,
        f.description@ == e.description@,
        crate::mcp::hex::hex_bytes(e.hex@) == Some(f.data@),
        f.data@.len() == e.length,
        FRAME_LOG_LAST == 50,
{
    crate::mcp::hex::law_hex_reads_back(f.data@);
}

} // verus!
