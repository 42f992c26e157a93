//! Log records that guests emit.
use vstd::prelude::*;

use crate::otel::convert::clock_reply;
use crate::otel::convert::clock_says;
use crate::otel::convert::is_epoch;
use crate::otel::convert::read_span_id;
use crate::otel::convert::read_trace_id;
use crate::otel::types::Datetime;
use crate::otel::types::KeyValue;
use crate::propagation::pairs;
use crate::propagation::span_id_of;
use crate::propagation::trace_id_of;
use crate::text::hex_numeral;
use crate::text::optional_text;

verus! {

/// A log record as a guest hands it in.
#[derive(Debug, PartialEq, Eq)]
pub struct WasiLogRecord {
    pub timestamp: Option<Datetime>,
    pub observed_timestamp: Option<Datetime>,
    pub severity_number: Option<u8>,
    pub body: Option<String>,
    pub attributes: Option<Vec<KeyValue>>,
    pub trace_id: Option<String>,
    pub span_id: Option<String>,
    /// The sampling flag, if there are flags.
    pub sampled: Option<bool>,
}

/// How severe what is logged is.
#[derive(Clone, Copy, Debug, PartialEq, Eq, Structural)]
pub enum Severity {
    Trace,
    Debug,
    Info,
    Warn,
    Error,
    Fatal,
}

/// The span in which something was logged. An id of zero is none.
#[derive(Clone, Copy, Debug, PartialEq, Eq, Structural)]
pub struct LogTrace {
    pub trace_id: u128,
    pub span_id: u64,
    pub sampled: bool,
}

/// A log record as it is exported.
#[derive(Debug, PartialEq, Eq)]
pub struct ExportedLog {
    pub timestamp: Option<Datetime>,
    pub observed_timestamp: Option<Datetime>,
    pub severity: Option<Severity>,
    pub body: Option<String>,
    pub attributes: Vec<(String, String)>,
    pub trace: Option<LogTrace>,
}

/// The severity for a number: four numbers each, from trace to fatal; any other number counts as
/// info.
pub open spec fn severity_of(number: u8) -> Severity {
    if 1 <= number <= 4 {
        Severity::Trace
    } else if 5 <= number <= 8 {
        Severity::Debug
    } else if 9 <= number <= 12 {
        Severity::Info
    } else if 13 <= number <= 16 {
        Severity::Warn
    } else if 17 <= number <= 20 {
        Severity::Error
    } else if 21 <= number <= 24 {
        Severity::Fatal
    } else {
        Severity::Info
    }
}

/// The severity for a number.
pub fn severity(number: u8) -> (out: Severity)
    ensures
        out == severity_of(number),
{
    match number {
        1..=4 => Severity::Trace,
        5..=8 => Severity::Debug,
        9..=12 => Severity::Info,
        13..=16 => Severity::Warn,
        17..=20 => Severity::Error,
        21..=24 => Severity::Fatal,
        _ => Severity::Info,
    }
}

/// A time with its whole seconds of nanoseconds carried over.
pub open spec fn carried_over(time: Datetime) -> Datetime {
    Datetime {
        seconds: (time.seconds + time.nanoseconds / 1_000_000_000u32) as u64,
        nanoseconds: (time.nanoseconds % 1_000_000_000u32) as u32,
    }
}

/// Whether the seconds of a time can take the nanoseconds that are carried over.
pub open spec fn carries(time: Option<Datetime>) -> bool {
    time matches Some(time) ==> time.seconds + time.nanoseconds / 1_000_000_000u32 <= u64::MAX
}

/// The time of a record, when it is known whether the clock holds it: none where it does not.
pub open spec fn log_time(time: Option<Datetime>, holds: bool) -> Option<Datetime> {
    match time {
        Some(time) => if holds {
            Some(carried_over(time))
        } else {
            None
        },
        None => None,
    }
}

fn time_in_log(time: Option<Datetime>, holds: bool) -> (out: Option<Datetime>)
    requires
        carries(time),
    ensures
        out == log_time(time, holds),
{
    match time {
        Some(time) => {
            if holds {
                Some(
                    Datetime {
                        seconds: time.seconds + (time.nanoseconds / 1_000_000_000) as u64,
                        nanoseconds: time.nanoseconds % 1_000_000_000,
                    },
                )
            } else {
                None
            }
        },
        None => None,
    }
}

/// An id as a log record has it: zero where it is missing or malformed.
pub open spec fn log_trace_id(hex: Option<Seq<char>>) -> u128 {
    match hex {
        Some(hex) => match trace_id_of(hex) {
            Some(id) => id,
            None => 0,
        },
        None => 0,
    }
}

/// An id as a log record has it: zero where it is missing or malformed.
pub open spec fn log_span_id(hex: Option<Seq<char>>) -> u64 {
    match hex {
        Some(hex) => match span_id_of(hex) {
            Some(id) => id,
            None => 0,
        },
        None => 0,
    }
}

/// The span in which a record was logged: none where it names neither a trace nor a span.
pub open spec fn log_trace(
    trace_id: Option<Seq<char>>,
    span_id: Option<Seq<char>>,
    sampled: Option<bool>,
) -> Option<LogTrace> {
    if trace_id is Some || span_id is Some {
        Some(
            LogTrace {
                trace_id: log_trace_id(trace_id),
                span_id: log_span_id(span_id),
                sampled: sampled == Some(true),
            },
        )
    } else {
        None
    }
}

/// The attributes of a record: the name of the service first, and then its own, as they stand.
pub open spec fn log_attributes(
    service_name: Seq<char>,
    attributes: Option<Vec<KeyValue>>,
) -> Seq<(Seq<char>, Seq<char>)> {
    let first = seq![("resource.service.name"@, service_name)];
    match attributes {
        Some(list) => first + list@.map_values(|kv: KeyValue| (kv.key@, kv.value@)),
        None => first,
    }
}

/// Whether a record is what another comes to, when it is known which of its times the clock
/// holds.
pub open spec fn logged(
    record: WasiLogRecord,
    service_name: Seq<char>,
    timestamp_holds: bool,
    observed_holds: bool,
    out: ExportedLog,
) -> bool {
    &&& out.timestamp == log_time(record.timestamp, timestamp_holds)
    &&& out.observed_timestamp == log_time(record.observed_timestamp, observed_holds)
    &&& out.severity == (match record.severity_number {
        Some(number) => Some(severity_of(number)),
        None => None,
    })
    &&& optional_text(out.body) == optional_text(record.body)
    &&& pairs(out.attributes@) == log_attributes(service_name, record.attributes)
    &&& out.trace == log_trace(
        optional_text(record.trace_id),
        optional_text(record.span_id),
        record.sampled,
    )
}

/// What a guest's log record comes to, when it is known which of its times the clock holds.
pub fn log_record_from(
    record: WasiLogRecord,
    service_name: &str,
    timestamp_holds: bool,
    observed_holds: bool,
) -> (out: ExportedLog)
    requires
        carries(record.timestamp),
        carries(record.observed_timestamp),
    ensures
        logged(record, service_name@, timestamp_holds, observed_holds, out),
{
    let ghost given = record;
    let mut attributes: Vec<(String, String)> = Vec::new();
    attributes.push(("resource.service.name".to_string(), service_name.to_string()));
    let ghost first = seq![("resource.service.name"@, service_name@)];
    assert(pairs(attributes@) =~= first);
    if let Some(list) = &record.attributes {
        let n: usize = list.len();
        let ghost all = list@.map_values(|kv: KeyValue| (kv.key@, kv.value@));
        assert(first + all.take(0) =~= first);
        for i in 0..n
            invariant
                n == list@.len(),
                all == list@.map_values(|kv: KeyValue| (kv.key@, kv.value@)),
                pairs(attributes@) == first + all.take(i as int),
        {
            let ghost before = pairs(attributes@);
            let entry = (list[i].key.clone(), list[i].value.clone());
            attributes.push(entry);
            proof {
                assert(pairs(attributes@) =~= before.push((entry.0@, entry.1@)));
                assert(all[i as int] == (entry.0@, entry.1@));
                assert(first + all.take(i + 1) =~= before.push(all[i as int]));
            }
        }
        assert(all.take(n as int) =~= all);
    }
    let trace = if record.trace_id.is_some() || record.span_id.is_some() {
        let trace_id: u128 = match &record.trace_id {
            Some(hex) => match read_trace_id(hex.as_str()) {
                Some(id) => id,
                None => 0,
            },
            None => 0,
        };
        let span_id: u64 = match &record.span_id {
            Some(hex) => match read_span_id(hex.as_str()) {
                Some(id) => id,
                None => 0,
            },
            None => 0,
        };
        let sampled = match record.sampled {
            Some(flag) => flag,
            None => false,
        };
        Some(LogTrace { trace_id, span_id, sampled })
    } else {
        None
    };
    ExportedLog {
        timestamp: time_in_log(record.timestamp, timestamp_holds),
        observed_timestamp: time_in_log(record.observed_timestamp, observed_holds),
        severity: match record.severity_number {
            Some(number) => Some(severity(number)),
            None => None,
        },
        body: record.body,
        attributes,
        trace,
    }
}

/// What a guest's log record comes to on this machine: a time that its clock does not hold is left
/// out. Every clock holds the beginning of 1970.
pub fn convert_wasi_log_record(record: WasiLogRecord, service_name: &str) -> (out: ExportedLog)
    requires
        carries(record.timestamp),
        carries(record.observed_timestamp),
    ensures
        exists|timestamp_holds: bool, observed_holds: bool|
            {
                &&& record.timestamp matches Some(time) ==> is_epoch(time) ==> timestamp_holds
                &&& record.observed_timestamp matches Some(time) ==> is_epoch(time)
                    ==> observed_holds
                &&& record.timestamp matches Some(time) ==> clock_says(time, timestamp_holds)
                &&& record.observed_timestamp matches Some(time) ==> clock_says(
                    time,
                    observed_holds,
                )
                &&& #[trigger] logged(record, service_name@, timestamp_holds, observed_holds, out)
            },
{
    let timestamp_holds = match record.timestamp {
        Some(time) => clock_reply(time),
        None => false,
    };
    let observed_holds = match record.observed_timestamp {
        Some(time) => clock_reply(time),
        None => false,
    };
    log_record_from(record, service_name, timestamp_holds, observed_holds)
}

/// The place of a severity in the order from trace to fatal.
pub open spec fn severity_rank(severity: Severity) -> nat {
    match severity {
        Severity::Trace => 0,
        Severity::Debug => 1,
        Severity::Info => 2,
        Severity::Warn => 3,
        Severity::Error => 4,
        Severity::Fatal => 5,
    }
}

/// The numbers from 1 to 24 rise through the severities, four to each: 1 is trace, 5 debug, 9 info,
/// 13 a warning, 17 an error and 21 fatal, and so are the three numbers behind each. Any other
/// number is no severity of its own and counts as info.
pub proof fn law_severities_have_four_numbers_each(number: u8, other: u8)
    ensures
        1 <= number <= 24 ==> severity_rank(severity_of(number)) == (number - 1) / 4,
        !(1 <= number <= 24) ==> severity_of(number) == Severity::Info,
        1 <= number <= other <= 24 ==> severity_rank(severity_of(number)) <= severity_rank(
            severity_of(other),
        ),
        severity_rank(Severity::Trace) == 0,
        severity_rank(Severity::Debug) == 1,
        severity_rank(Severity::Info) == 2,
        severity_rank(Severity::Warn) == 3,
        severity_rank(Severity::Error) == 4,
        severity_rank(Severity::Fatal) == 5,
{
}

/// A record is exported with all that it says: its severity, where it has a number, is the one of
/// that number, its body stays, its attributes follow the name of the service, each with its own
/// key and value, in order, and its ids and its sampling flag go along where it names a trace or a
/// span.
pub proof fn law_records_keep_what_they_say(
    record: WasiLogRecord,
    service_name: Seq<char>,
    timestamp_holds: bool,
    observed_holds: bool,
    out: ExportedLog,
)
    requires
        logged(record, service_name, timestamp_holds, observed_holds, out),
    ensures
        out.severity is Some == record.severity_number is Some,
        record.severity_number matches Some(number) && 1 <= number <= 24 ==> severity_rank(
            out.severity->0,
        ) == (record.severity_number->0 - 1) / 4,
        record.severity_number matches Some(number) && !(1 <= number <= 24) ==> out.severity == Some(
            Severity::Info,
        ),
        out.body is Some == record.body is Some,
        record.body matches Some(body) ==> out.body->0@ == body@,
        out.attributes@.len() == 1 + (match record.attributes {
            Some(list) => list@.len(),
            None => 0,
        }),
        out.attributes@[0].0@ == "resource.service.name"@,
        out.attributes@[0].1@ == service_name,
        record.attributes matches Some(list) ==> forall|i: int|
            0 <= i < list@.len() ==> (#[trigger] out.attributes@[i + 1]).0@ == list@[i].key@
                && out.attributes@[i + 1].1@ == list@[i].value@,
        out.trace is Some == (record.trace_id is Some || record.span_id is Some),
        out.trace is Some ==> out.trace->0.sampled == (record.sampled == Some(true)),
        (record.trace_id matches Some(hex) && hex_numeral(hex@) is Some) && hex_numeral(
            record.trace_id->0@,
        )->0 <= u128::MAX ==> out.trace->0.trace_id == hex_numeral(record.trace_id->0@)->0,
        (record.span_id matches Some(hex) && hex_numeral(hex@) is Some) && hex_numeral(
            record.span_id->0@,
        )->0 <= u64::MAX ==> out.trace->0.span_id == hex_numeral(record.span_id->0@)->0,
        (record.trace_id matches Some(hex) ==> hex_numeral(hex@) is None) && out.trace is Some
            ==> out.trace->0.trace_id == 0,
        (record.span_id matches Some(hex) ==> hex_numeral(hex@) is None) && out.trace is Some
            ==> out.trace->0.span_id == 0,
{
    let list = pairs(out.attributes@);
    assert(list.len() == out.attributes@.len());
    assert(list[0] == (out.attributes@[0].0@, out.attributes@[0].1@));
    if let Some(attributes) = record.attributes {
        assert forall|i: int| 0 <= i < attributes@.len() implies (
        #[trigger] out.attributes@[i + 1]).0@ == attributes@[i].key@ && out.attributes@[i + 1].1@
            == attributes@[i].value@ by {
            assert(list[i + 1] == (out.attributes@[i + 1].0@, out.attributes@[i + 1].1@));
        }
    }
}

/// The times of a record stay, with whole seconds of nanoseconds carried over, where the clock
/// holds them, and are left out where it does not.
pub proof fn law_records_keep_their_times(
    record: WasiLogRecord,
    service_name: Seq<char>,
    timestamp_holds: bool,
    observed_holds: bool,
    out: ExportedLog,
)
    requires
        logged(record, service_name, timestamp_holds, observed_holds, out),
        carries(record.timestamp),
        carries(record.observed_timestamp),
    ensures
        out.timestamp is Some == (record.timestamp is Some && timestamp_holds),
        out.observed_timestamp is Some == (record.observed_timestamp is Some && observed_holds),
        out.timestamp is Some ==> out.timestamp->0.nanoseconds < 1_000_000_000
            && out.timestamp->0.seconds * 1_000_000_000 + out.timestamp->0.nanoseconds
            == record.timestamp->0.seconds * 1_000_000_000 + record.timestamp->0.nanoseconds,
        out.observed_timestamp is Some ==> out.observed_timestamp->0.nanoseconds < 1_000_000_000
            && out.observed_timestamp->0.seconds * 1_000_000_000
            + out.observed_timestamp->0.nanoseconds == record.observed_timestamp->0.seconds
            * 1_000_000_000 + record.observed_timestamp->0.nanoseconds,
{
}

/// Every record says which service it is of, before anything that it says itself.
pub proof fn law_records_name_their_service(
    record: WasiLogRecord,
    service_name: Seq<char>,
    timestamp_holds: bool,
    observed_holds: bool,
    out: ExportedLog,
)
    requires
        logged(record, service_name, timestamp_holds, observed_holds, out),
    ensures
        pairs(out.attributes@).len() > 0,
        pairs(out.attributes@)[0] == ("resource.service.name"@, service_name),
{
}

} // verus!
