//! Breakpoint attachment: the logical breakpoint selector, the kernel
//! event-descriptor it maps to, the version-dependent precision settings,
//! and the per-CPU fan-out plan.

use vstd::prelude::*;
use crate::utils::TopologyError;
use crate::utils::cpu_list_of;
use crate::utils::parse_cpu_list;

verus! {

// ---------------------------------------------------------------------------
// ABI constants
// ---------------------------------------------------------------------------

/// Event type tag of a hardware breakpoint event.
pub const EVENT_TYPE_BREAKPOINT: u32 = 5;

/// Breakpoint access types: read, write, read-or-write, execute.
pub const HW_BP_READ: u32 = 1;

pub const HW_BP_WRITE: u32 = 2;

pub const HW_BP_READ_WRITE: u32 = 3;

pub const HW_BP_EXECUTE: u32 = 4;

/// Sample-data kind requesting a call chain with each sample.
pub const SAMPLE_CALLCHAIN: u64 = 32;

/// Byte size of the kernel event-descriptor structure in the ABI in use.
pub const ATTR_BYTE_SIZE: u32 = 144;

/// Close-on-exec flag for the event file descriptor.
pub const FLAG_CLOEXEC: u64 = 8;

/// Relies on perf_event_open_sys::bindings::PERF_TYPE_BREAKPOINT being 5.
#[verifier::external_body]
fn perf_type_breakpoint() -> (r: u32)
    ensures
        r == EVENT_TYPE_BREAKPOINT,
{
    perf_event_open_sys::bindings::PERF_TYPE_BREAKPOINT
}

/// Relies on perf_event_open_sys::bindings::HW_BREAKPOINT_R being 1.
#[verifier::external_body]
fn hw_breakpoint_read() -> (r: u32)
    ensures
        r == HW_BP_READ,
{
    perf_event_open_sys::bindings::HW_BREAKPOINT_R
}

/// Relies on perf_event_open_sys::bindings::HW_BREAKPOINT_W being 2.
#[verifier::external_body]
fn hw_breakpoint_write() -> (r: u32)
    ensures
        r == HW_BP_WRITE,
{
    perf_event_open_sys::bindings::HW_BREAKPOINT_W
}

/// Relies on perf_event_open_sys::bindings::HW_BREAKPOINT_RW being 3.
#[verifier::external_body]
fn hw_breakpoint_read_write() -> (r: u32)
    ensures
        r == HW_BP_READ_WRITE,
{
    perf_event_open_sys::bindings::HW_BREAKPOINT_RW
}

/// Relies on perf_event_open_sys::bindings::HW_BREAKPOINT_X being 4.
#[verifier::external_body]
fn hw_breakpoint_execute() -> (r: u32)
    ensures
        r == HW_BP_EXECUTE,
{
    perf_event_open_sys::bindings::HW_BREAKPOINT_X
}

/// Relies on perf_event_open_sys::bindings::PERF_SAMPLE_CALLCHAIN being 32.
#[verifier::external_body]
fn sample_format_callchain() -> (r: u64)
    ensures
        r == SAMPLE_CALLCHAIN,
{
    perf_event_open_sys::bindings::PERF_SAMPLE_CALLCHAIN as u64
}

/// Relies on perf_event_open_sys::bindings::perf_event_attr being 144 bytes
/// in the ABI version built against.
#[verifier::external_body]
fn perf_attr_byte_size() -> (r: u32)
    ensures
        r == ATTR_BYTE_SIZE,
{
    core::mem::size_of::<perf_event_open_sys::bindings::perf_event_attr>() as u32
}

/// Relies on perf_event_open_sys::bindings::PERF_FLAG_FD_CLOEXEC being 8.
#[verifier::external_body]
fn perf_flag_cloexec() -> (r: u64)
    ensures
        r == FLAG_CLOEXEC,
{
    perf_event_open_sys::bindings::PERF_FLAG_FD_CLOEXEC as u64
}

// ---------------------------------------------------------------------------
// Breakpoint selectors
// ---------------------------------------------------------------------------

/// A logical breakpoint request: access kind (read, write, read-or-write,
/// execute) and watched width in bytes (1, 2, 4 or 8).
#[derive(Clone, Copy, PartialEq, Eq, Structural, Debug)]
pub enum BpType {
    R1,
    W1,
    RW1,
    X1,
    R2,
    W2,
    RW2,
    X2,
    R4,
    W4,
    RW4,
    X4,
    R8,
    W8,
    RW8,
    X8,
}

/// The breakpoint length (watched width in bytes) a selector stands for.
pub open spec fn spec_bp_len(bp: BpType) -> u64 {
    match bp {
        BpType::R1 | BpType::W1 | BpType::RW1 | BpType::X1 => 1,
        BpType::R2 | BpType::W2 | BpType::RW2 | BpType::X2 => 2,
        BpType::R4 | BpType::W4 | BpType::RW4 | BpType::X4 => 4,
        BpType::R8 | BpType::W8 | BpType::RW8 | BpType::X8 => 8,
    }
}

/// The breakpoint access type a selector stands for.
pub open spec fn spec_bp_access(bp: BpType) -> u32 {
    match bp {
        BpType::R1 | BpType::R2 | BpType::R4 | BpType::R8 => HW_BP_READ,
        BpType::W1 | BpType::W2 | BpType::W4 | BpType::W8 => HW_BP_WRITE,
        BpType::RW1 | BpType::RW2 | BpType::RW4 | BpType::RW8 => HW_BP_READ_WRITE,
        BpType::X1 | BpType::X2 | BpType::X4 | BpType::X8 => HW_BP_EXECUTE,
    }
}

/// Maps a selector to its breakpoint length.
pub fn bp_len(bp: &BpType) -> (r: u64)
    ensures
        r == spec_bp_len(*bp),
{
    match bp {
        BpType::R1 | BpType::W1 | BpType::RW1 | BpType::X1 => 1,
        BpType::R2 | BpType::W2 | BpType::RW2 | BpType::X2 => 2,
        BpType::R4 | BpType::W4 | BpType::RW4 | BpType::X4 => 4,
        BpType::R8 | BpType::W8 | BpType::RW8 | BpType::X8 => 8,
    }
}

/// Maps a selector to its breakpoint access type.
pub fn bp_access(bp: &BpType) -> (r: u32)
    ensures
        r == spec_bp_access(*bp),
{
    match bp {
        BpType::R1 | BpType::R2 | BpType::R4 | BpType::R8 => hw_breakpoint_read(),
        BpType::W1 | BpType::W2 | BpType::W4 | BpType::W8 => hw_breakpoint_write(),
        BpType::RW1 | BpType::RW2 | BpType::RW4 | BpType::RW8 => hw_breakpoint_read_write(),
        BpType::X1 | BpType::X2 | BpType::X4 | BpType::X8 => hw_breakpoint_execute(),
    }
}

/// Each of the sixteen selectors maps to a distinct (length, access) pair.
pub proof fn lemma_bp_mapping_injective(a: BpType, b: BpType)
    requires
        spec_bp_len(a) == spec_bp_len(b),
        spec_bp_access(a) == spec_bp_access(b),
    ensures
        a == b,
{
}

// ---------------------------------------------------------------------------
// Version-dependent precision settings
// ---------------------------------------------------------------------------

/// True when the running kernel needs the legacy precision setting:
/// versions up to and including 6.0 cannot retrieve a call stack from a
/// breakpoint event opened with strict instruction-pointer precision.
pub open spec fn legacy_precision(major: u32, minor: u32) -> bool {
    major < 6 || (major == 6 && minor == 0)
}

/// Version threshold for the precision workaround: inclusive at 6.0.
pub fn uses_legacy_precision(major: u32, minor: u32) -> (r: bool)
    ensures
        r == legacy_precision(major, minor),
{
    major < 6 || (major == 6 && minor == 0)
}

/// The precision settings a request gets are decided solely by the version
/// threshold: at or below 6.0 the descriptor keeps the least-strict
/// precision and no callchain sampling; above it, strict synchronous
/// precision together with callchain samples.
pub proof fn lemma_precision_threshold(symbol_addr: usize, bp: BpType, major: u32, minor: u32)
    ensures
        ({
            let d = spec_descriptor(symbol_addr, bp, major, minor);
            if legacy_precision(major, minor) {
                d.precise_ip == 0 && d.sample_type == 0
            } else {
                d.precise_ip == 2 && d.sample_type == SAMPLE_CALLCHAIN
            }
        }),
{
}

// ---------------------------------------------------------------------------
// The event descriptor
// ---------------------------------------------------------------------------

/// The kernel event-descriptor for one hardware breakpoint, as plain
/// fields. The adapter that performs the open copies them into the binary
/// ABI structure whose byte size `size` records.
#[derive(Clone, Copy, PartialEq, Eq, Structural, Debug)]
pub struct EventDescriptor {
    /// Byte size of the ABI structure; must equal the exact size the
    /// kernel expects, or it misreads the rest.
    pub size: u32,
    /// Event type tag; always the hardware-breakpoint type here.
    pub event_type: u32,
    /// Address being watched.
    pub bp_addr: u64,
    /// Watched width in bytes.
    pub bp_len: u64,
    /// Access type that fires the breakpoint.
    pub bp_type: u32,
    /// Fire on every matching access.
    pub sample_period: u64,
    /// Wake the consumer on every event, no batching.
    pub wakeup_events: u32,
    /// Instruction-pointer precision mode.
    pub precise_ip: u64,
    /// Sample-data kinds attached to each event.
    pub sample_type: u64,
}

/// The descriptor a request maps to: breakpoint type, address, width and
/// access kind from the selector, sampling on every access, and the
/// precision settings the kernel version calls for.
pub open spec fn spec_descriptor(symbol_addr: usize, bp: BpType, major: u32, minor: u32) -> EventDescriptor {
    EventDescriptor {
        size: ATTR_BYTE_SIZE,
        event_type: EVENT_TYPE_BREAKPOINT,
        bp_addr: symbol_addr as u64,
        bp_len: spec_bp_len(bp),
        bp_type: spec_bp_access(bp),
        sample_period: 1,
        wakeup_events: 1,
        precise_ip: if legacy_precision(major, minor) {
            0
        } else {
            2
        },
        sample_type: if legacy_precision(major, minor) {
            0
        } else {
            SAMPLE_CALLCHAIN
        },
    }
}

/// Builds the event descriptor for one breakpoint request against the
/// running kernel version.
pub fn build_event_descriptor(symbol_addr: usize, bp: &BpType, major: u32, minor: u32) -> (d:
    EventDescriptor)
    ensures
        d == spec_descriptor(symbol_addr, *bp, major, minor),
{
    let legacy = uses_legacy_precision(major, minor);
    EventDescriptor {
        size: perf_attr_byte_size(),
        event_type: perf_type_breakpoint(),
        bp_addr: symbol_addr as u64,
        bp_len: bp_len(bp),
        bp_type: bp_access(bp),
        sample_period: 1,
        wakeup_events: 1,
        precise_ip: if legacy {
            0
        } else {
            2
        },
        sample_type: if legacy {
            0
        } else {
            sample_format_callchain()
        },
    }
}

// ---------------------------------------------------------------------------
// The per-CPU fan-out plan
// ---------------------------------------------------------------------------

/// Everything one breakpoint request needs: the descriptor to hand to each
/// per-CPU open, the CPUs to open on in order, and the fixed open
/// parameters (all processes, no grouping, close-on-exec).
pub struct AttachRequest {
    pub descriptor: EventDescriptor,
    pub cpus: Vec<i32>,
    pub pid: i32,
    pub group_fd: i32,
    pub flags: u64,
}

/// Plans one breakpoint request: builds the descriptor and the ordered
/// online-CPU list it must be opened on.
pub fn plan_breakpoint(
    symbol_addr: usize,
    bp: &BpType,
    major: u32,
    minor: u32,
    online_cpus: &str,
) -> (r: Result<AttachRequest, TopologyError>)
    ensures
        match r {
            Ok(req) => {
                &&& req.descriptor == spec_descriptor(symbol_addr, *bp, major, minor)
                &&& Some(req.cpus@) == cpu_list_of(online_cpus@)
                &&& req.pid == -1i32
                &&& req.group_fd == -1i32
                &&& req.flags == FLAG_CLOEXEC
            },
            Err(_) => cpu_list_of(online_cpus@) is None,
        },
{
    let cpus = match parse_cpu_list(online_cpus) {
        Ok(v) => v,
        Err(e) => {
            return Err(e);
        },
    };
    Ok(
        AttachRequest {
            descriptor: build_event_descriptor(symbol_addr, bp, major, minor),
            cpus,
            pid: -1,
            group_fd: -1,
            flags: perf_flag_cloexec(),
        },
    )
}

// ---------------------------------------------------------------------------
// The fan-out session
// ---------------------------------------------------------------------------

/// Progress of one request's per-CPU fan-out. The driver asks for the next
/// CPU, performs the open and attach outside, and records the outcome;
/// one failure aborts the whole request.
pub struct AttachSession {
    cpus: Vec<i32>,
    opened: usize,
    failed: bool,
}

impl AttachSession {
    /// The CPUs this session fans out over, in open order.
    pub closed spec fn cpus_seq(&self) -> Seq<i32> {
        self.cpus@
    }

    pub open spec fn cpu_count(&self) -> nat {
        self.cpus_seq().len()
    }

    /// How many per-CPU opens have succeeded so far.
    pub closed spec fn count_opened(&self) -> nat {
        self.opened as nat
    }

    /// Whether any per-CPU open or attach has failed.
    pub closed spec fn has_failed(&self) -> bool {
        self.failed
    }

    /// A complete attachment: every online CPU opened, nothing failed.
    pub open spec fn complete(&self) -> bool {
        !self.has_failed() && self.count_opened() == self.cpu_count()
    }

    /// The CPU the next open must target: the first CPU not yet covered,
    /// in topology order; none once all are covered or anything failed.
    pub open spec fn next_cpu_spec(&self) -> Option<i32> {
        if !self.has_failed() && self.count_opened() < self.cpu_count() {
            Some(self.cpus_seq()[self.count_opened() as int])
        } else {
            None
        }
    }

    /// Starts the fan-out for the given ordered CPU list.
    pub fn new(cpus: Vec<i32>) -> (s: Self)
        ensures
            s.cpus_seq() == cpus@,
            s.count_opened() == 0,
            !s.has_failed(),
    {
        AttachSession { cpus, opened: 0, failed: false }
    }

    /// The CPU to open next, or none when the session is done or aborted.
    pub fn next_cpu(&self) -> (r: Option<i32>)
        ensures
            r == self.next_cpu_spec(),
    {
        if !self.failed && self.opened < self.cpus.len() {
            Some(self.cpus[self.opened])
        } else {
            None
        }
    }

    /// Records that the prescribed open and attach succeeded.
    pub fn record_success(&mut self)
        ensures
            final(self).cpus_seq() == old(self).cpus_seq(),
            final(self).has_failed() == old(self).has_failed(),
            final(self).count_opened() == if old(self).count_opened() < old(self).cpu_count() {
                old(self).count_opened() + 1
            } else {
                old(self).count_opened()
            },
    {
        if self.opened < self.cpus.len() {
            self.opened = self.opened + 1;
        }
    }

    /// Records that an open or attach failed: the whole request aborts.
    pub fn record_failure(&mut self)
        ensures
            final(self).cpus_seq() == old(self).cpus_seq(),
            final(self).has_failed(),
            final(self).count_opened() == old(self).count_opened(),
    {
        self.failed = true;
    }

    /// Whether the request is fully attached on every CPU.
    pub fn is_complete(&self) -> (r: bool)
        ensures
            r == self.complete(),
    {
        !self.failed && self.opened == self.cpus.len()
    }

    /// How many per-CPU handles a driver holding this session has collected.
    pub fn opened_count(&self) -> (r: usize)
        ensures
            r == self.count_opened(),
    {
        self.opened
    }
}

/// All-or-nothing: once any per-CPU open or attach has failed, the session
/// never reports a complete attachment and prescribes no further opens, so
/// no handle from the request remains in use.
pub proof fn lemma_failed_session_aborts(s: AttachSession)
    requires
        s.has_failed(),
    ensures
        !s.complete(),
        s.next_cpu_spec() is None,
{
}

/// A complete attachment holds exactly one handle per online CPU, and each
/// open was prescribed for the CPUs in topology order.
pub proof fn lemma_complete_session_covers_all_cpus(s: AttachSession)
    requires
        s.complete(),
    ensures
        s.count_opened() == s.cpu_count(),
{
}

/// Fan-out order: while nothing has failed, the k-th open is prescribed
/// for the k-th CPU of the topology list.
pub proof fn lemma_fanout_in_topology_order(s: AttachSession)
    requires
        !s.has_failed(),
        s.count_opened() < s.cpu_count(),
    ensures
        s.next_cpu_spec() == Some(s.cpus_seq()[s.count_opened() as int]),
{
}

} // verus!
