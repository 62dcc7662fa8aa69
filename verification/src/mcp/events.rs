//! Events a front end injects, and the watchpoints it asks for.

use vstd::prelude::*;

use crate::mcp::handler::{EventParams, InjectPeripheralEventParams, OkResult};
use crate::mcp::json::{node_bool, node_number, read_json, read_member, JsonNode, JsonView};
use crate::soc::bank::PeripheralBank;
use crate::soc::peripheral::{
    AlarmEvent, FatalFilterEvent, PeripheralEvent, SerDesEvent, UartEvent,
};
use crate::text::same_text;

pub use crate::soc::scenario::MmioWatchMode;

verus! {

/// What an event carries, read from JSON.
pub open spec fn params_in(v: Result<JsonView, Seq<char>>) -> EventParams {
    match v {
        Ok(JsonView::Object(m)) => EventParams {
            opcode: crate::mcp::json::number_in(crate::mcp::json::member_view(m, "opcode"@)),
            lane: crate::mcp::json::number_in(crate::mcp::json::member_view(m, "lane"@)),
            state: crate::mcp::json::bool_in(crate::mcp::json::member_view(m, "state"@)),
            mask: crate::mcp::json::number_in(crate::mcp::json::member_view(m, "mask"@)),
        },
        _ => EventParams { opcode: None, lane: None, state: None, mask: None },
    }
}

/// What an event carries, from JSON that was read.
pub fn event_params_of(v: Result<JsonNode, String>) -> (r: EventParams)
    ensures
        r == params_in(crate::mcp::json::outcome(v)),
{
    match v {
        Ok(JsonNode::Object(m)) => EventParams {
            opcode: node_number(&read_member(&m, "opcode")),
            lane: node_number(&read_member(&m, "lane")),
            state: node_bool(&read_member(&m, "state")),
            mask: node_number(&read_member(&m, "mask")),
        },
        _ => EventParams { opcode: None, lane: None, state: None, mask: None },
    }
}

/// What an event carries, from JSON text.
pub fn read_event_params(json: &str) -> (r: EventParams)
    ensures
        r == params_in(crate::mcp::json::json_view(json@)),
{
    event_params_of(read_json(json))
}

/// The event a request asks for, if there is such an event and the request
/// carries what it needs. Numbers are cut down to what the event holds.
pub open spec fn asked_event(p: InjectPeripheralEventParams) -> Option<PeripheralEvent> {
    let of = p.peripheral@;
    let what = p.event@;
    if of == "alarm"@ && what == "ForcePending"@ {
        match p.params.opcode {
            Some(op) => Some(PeripheralEvent::Alarm(AlarmEvent::ForcePending(op as u16))),
            None => None,
        }
    } else if of == "alarm"@ && what == "ClearPending"@ {
        match p.params.opcode {
            Some(op) => Some(PeripheralEvent::Alarm(AlarmEvent::ClearPending(op as u16))),
            None => None,
        }
    } else if of == "alarm"@ && what == "ClearAll"@ {
        Some(PeripheralEvent::Alarm(AlarmEvent::ClearAll))
    } else if of == "serdes"@ && what == "InjectRxLos"@ {
        match (p.params.lane, p.params.state) {
            (Some(lane), Some(state)) => Some(
                PeripheralEvent::SerDes(SerDesEvent::InjectRxLos(lane as u8, state)),
            ),
            _ => None,
        }
    } else if of == "uart"@ && what == "ClearTxLog"@ {
        Some(PeripheralEvent::Uart(UartEvent::ClearTxLog))
    } else if of == "fatal_filter"@ && what == "InjectFatal"@ {
        match p.params.mask {
            Some(mask) => Some(
                PeripheralEvent::FatalFilter(FatalFilterEvent::InjectFatal(mask as u32)),
            ),
            None => None,
        }
    } else if of == "fatal_filter"@ && what == "ClearFatal"@ {
        Some(PeripheralEvent::FatalFilter(FatalFilterEvent::ClearFatal))
    } else {
        None
    }
}

/// Build the event a request asks for.
pub fn build_peripheral_event(p: &InjectPeripheralEventParams) -> (r: Option<PeripheralEvent>)
    ensures
        r == asked_event(*p),
{
    let of = p.peripheral.as_str();
    let what = p.event.as_str();
    if same_text(of, "alarm") && same_text(what, "ForcePending") {
        match p.params.opcode {
            Some(op) => Some(
                PeripheralEvent::Alarm(
                    AlarmEvent::ForcePending(#[verifier::truncate] (op as u16)),
                ),
            ),
            None => None,
        }
    } else if same_text(of, "alarm") && same_text(what, "ClearPending") {
        match p.params.opcode {
            Some(op) => Some(
                PeripheralEvent::Alarm(
                    AlarmEvent::ClearPending(#[verifier::truncate] (op as u16)),
                ),
            ),
            None => None,
        }
    } else if same_text(of, "alarm") && same_text(what, "ClearAll") {
        Some(PeripheralEvent::Alarm(AlarmEvent::ClearAll))
    } else if same_text(of, "serdes") && same_text(what, "InjectRxLos") {
        match (p.params.lane, p.params.state) {
            (Some(lane), Some(state)) => Some(
                PeripheralEvent::SerDes(
                    SerDesEvent::InjectRxLos(#[verifier::truncate] (lane as u8), state),
                ),
            ),
            _ => None,
        }
    } else if same_text(of, "uart") && same_text(what, "ClearTxLog") {
        Some(PeripheralEvent::Uart(UartEvent::ClearTxLog))
    } else if same_text(of, "fatal_filter") && same_text(what, "InjectFatal") {
        match p.params.mask {
            Some(mask) => Some(
                PeripheralEvent::FatalFilter(
                    FatalFilterEvent::InjectFatal(#[verifier::truncate] (mask as u32)),
                ),
            ),
            None => None,
        }
    } else if same_text(of, "fatal_filter") && same_text(what, "ClearFatal") {
        Some(PeripheralEvent::FatalFilter(FatalFilterEvent::ClearFatal))
    } else {
        None
    }
}

/// Hand the event a request asks for to the bank. It went well where there is
/// such an event.
pub fn inject_peripheral_event(bank: &mut PeripheralBank, p: &InjectPeripheralEventParams) -> (r:
    OkResult)
    requires
        old(bank).wf(),
        asked_event(*p) matches Some(e) ==> crate::soc::bank::inspect::event_in_range(e),
    ensures
        final(bank).wf(),
        r.ok == asked_event(*p) is Some,
        final(bank)@ == (match asked_event(*p) {
            Some(e) => old(bank)@.with_dev(old(bank)@.dev.after_event(e)),
            None => old(bank)@,
        }),
{
    match build_peripheral_event(p) {
        Some(event) => OkResult { ok: bank.inject_event(&event) },
        None => OkResult { ok: false },
    }
}

/// The accesses a text stands for, if it stands for any.
pub open spec fn watch_mode_in(text: Seq<char>) -> Option<MmioWatchMode> {
    if text == "read"@ || text == "r"@ {
        Some(MmioWatchMode::Read)
    } else if text == "write"@ || text == "w"@ {
        Some(MmioWatchMode::Write)
    } else if text == "rw"@ || text == "readwrite"@ {
        Some(MmioWatchMode::ReadWrite)
    } else {
        None
    }
}

/// The text of a watchpoint's accesses.
pub open spec fn watch_mode_text(mode: MmioWatchMode) -> Seq<char> {
    match mode {
        MmioWatchMode::Read => "read"@,
        MmioWatchMode::Write => "write"@,
        MmioWatchMode::ReadWrite => "rw"@,
    }
}

pub fn mmio_watch_mode_of(text: &str) -> (r: Option<MmioWatchMode>)
    ensures
        r == watch_mode_in(text@),
{
    if same_text(text, "read") || same_text(text, "r") {
        Some(MmioWatchMode::Read)
    } else if same_text(text, "write") || same_text(text, "w") {
        Some(MmioWatchMode::Write)
    } else if same_text(text, "rw") || same_text(text, "readwrite") {
        Some(MmioWatchMode::ReadWrite)
    } else {
        None
    }
}

pub fn mmio_watch_mode_name(mode: MmioWatchMode) -> (r: &'static str)
    ensures
        r@ == watch_mode_text(mode),
{
    match mode {
        MmioWatchMode::Read => "read",
        MmioWatchMode::Write => "write",
        MmioWatchMode::ReadWrite => "rw",
    }
}

/// The text shown for a watchpoint's accesses asks for the same ones.
pub proof fn law_watch_mode_reads_back(mode: MmioWatchMode)
    ensures
        watch_mode_in(watch_mode_text(mode)) == Some(mode),
{
    reveal_strlit("read");
    reveal_strlit("r");
    reveal_strlit("write");
    reveal_strlit("w");
    reveal_strlit("rw");
    reveal_strlit("readwrite");
    assert("write"@.len() == 5 && "read"@.len() == 4 && "r"@.len() == 1 && "rw"@.len() == 2
        && "w"@.len() == 1);
}

/// The texts that stand for the accesses of a watchpoint, long and short, and no
/// others.
pub proof fn law_watch_modes_by_name(text: Seq<char>)
    ensures
        watch_mode_in("read"@) == Some(MmioWatchMode::Read),
        watch_mode_in("r"@) == Some(MmioWatchMode::Read),
        watch_mode_in("write"@) == Some(MmioWatchMode::Write),
        watch_mode_in("w"@) == Some(MmioWatchMode::Write),
        watch_mode_in("rw"@) == Some(MmioWatchMode::ReadWrite),
        watch_mode_in("readwrite"@) == Some(MmioWatchMode::ReadWrite),
        watch_mode_in(text) is Some ==> text == "read"@ || text == "r"@ || text == "write"@ || text
            == "w"@ || text == "rw"@ || text == "readwrite"@,
{
    reveal_strlit("read");
    reveal_strlit("r");
    reveal_strlit("write");
    reveal_strlit("w");
    reveal_strlit("rw");
    reveal_strlit("readwrite");
    assert("write"@.len() == 5 && "read"@.len() == 4 && "r"@.len() == 1 && "rw"@.len() == 2
        && "w"@.len() == 1 && "readwrite"@.len() == 9);
    assert("r"@[0] == 'r' && "w"@[0] == 'w');
}

/// The events a request can ask for, each of its peripheral, with what it
/// carries.
pub proof fn law_events_by_name(p: InjectPeripheralEventParams)
    ensures
        p.peripheral@ == "alarm"@ && p.event@ == "ForcePending"@ ==> (p.params.opcode matches Some(
            op,
        ) ==> (op <= 0xFFFF ==> asked_event(p) == Some(
            PeripheralEvent::Alarm(AlarmEvent::ForcePending(op as u16)),
        ))),
        p.peripheral@ == "alarm"@ && p.event@ == "ClearPending"@ ==> (p.params.opcode matches Some(
            op,
        ) ==> (op <= 0xFFFF ==> asked_event(p) == Some(
            PeripheralEvent::Alarm(AlarmEvent::ClearPending(op as u16)),
        ))),
        p.peripheral@ == "alarm"@ && p.event@ == "ClearAll"@ ==> asked_event(p) == Some(
            PeripheralEvent::Alarm(AlarmEvent::ClearAll),
        ),
        p.peripheral@ == "uart"@ && p.event@ == "ClearTxLog"@ ==> asked_event(p) == Some(
            PeripheralEvent::Uart(UartEvent::ClearTxLog),
        ),
        p.peripheral@ == "fatal_filter"@ && p.event@ == "ClearFatal"@ ==> asked_event(p) == Some(
            PeripheralEvent::FatalFilter(FatalFilterEvent::ClearFatal),
        ),
        p.peripheral@ == "fatal_filter"@ && p.event@ == "InjectFatal"@ ==> (
        p.params.mask matches Some(mask) ==> (mask <= 0xFFFF_FFFF ==> asked_event(p) == Some(
            PeripheralEvent::FatalFilter(FatalFilterEvent::InjectFatal(mask as u32)),
        ))),
        p.peripheral@ == "serdes"@ && p.event@ == "InjectRxLos"@ && p.params.lane is Some
            && p.params.state is Some && p.params.lane->0 <= 0xFF ==> asked_event(p) == Some(
            PeripheralEvent::SerDes(
                SerDesEvent::InjectRxLos(p.params.lane->0 as u8, p.params.state->0),
            ),
        ),
        p.peripheral@ != "alarm"@ && p.peripheral@ != "uart"@ && p.peripheral@ != "fatal_filter"@
            && p.peripheral@ != "serdes"@ ==> asked_event(p) is None,
{
    reveal_strlit("alarm");
    reveal_strlit("uart");
    reveal_strlit("fatal_filter");
    reveal_strlit("serdes");
    reveal_strlit("ForcePending");
    reveal_strlit("ClearPending");
    reveal_strlit("ClearAll");
    reveal_strlit("ClearFatal");
    reveal_strlit("InjectFatal");
    assert("alarm"@.len() == 5 && "uart"@.len() == 4 && "fatal_filter"@.len() == 12
        && "serdes"@.len() == 6);
    assert("ForcePending"@[0] == 'F' && "ClearPending"@[0] == 'C' && "ClearAll"@.len() == 8
        && "ClearPending"@.len() == 12 && "ForcePending"@.len() == 12);
    assert("ClearFatal"@.len() == 10 && "InjectFatal"@.len() == 11);
}

} // verus!
