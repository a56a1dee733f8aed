//! Scheduling hints that a client attaches to a request.
use vstd::prelude::*;

verus! {

/// What a client says about how urgent a request is.
#[derive(Debug, Clone, Copy, PartialEq, Eq)]
pub struct AgentHints {
    pub priority: Option<i32>,
    /// The IEEE 754 binary64 bit pattern of the sensitivity.
    pub latency_sensitivity: Option<u64>,
    pub strict_priority: Option<u32>,
}

/// The extension part of a request, as far as routing reads it.
#[derive(Debug, Clone, Copy, PartialEq, Eq)]
pub struct NvExt {
    pub agent_hints: Option<AgentHints>,
}

/// How far a request may jump ahead in the queue.
#[derive(Debug, Clone, Copy, PartialEq, Eq)]
pub enum PriorityJump {
    /// A whole number.
    Level(u32),
    /// The number with this IEEE 754 binary64 bit pattern.
    Sensitivity(u64),
}

/// The hints of a request, where it has any.
pub open spec fn hints_of(nvext: Option<NvExt>) -> Option<AgentHints> {
    match nvext {
        Some(ext) => ext.agent_hints,
        None => None,
    }
}

/// A priority decides, with negative ones counting as zero; without one the
/// latency sensitivity does; without either there is no jump.
pub open spec fn priority_jump_of(nvext: Option<NvExt>) -> PriorityJump {
    match hints_of(nvext) {
        Some(hints) => match hints.priority {
            Some(priority) => PriorityJump::Level(
                if priority > 0 {
                    priority as u32
                } else {
                    0
                },
            ),
            None => match hints.latency_sensitivity {
                Some(bits) => PriorityJump::Sensitivity(bits),
                None => PriorityJump::Level(0),
            },
        },
        None => PriorityJump::Level(0),
    }
}

/// The strict priority of a request, zero where it names none.
pub open spec fn strict_priority_of(nvext: Option<NvExt>) -> u32 {
    match hints_of(nvext) {
        Some(hints) => match hints.strict_priority {
            Some(priority) => priority,
            None => 0,
        },
        None => 0,
    }
}

/// Whether a jump is greater than zero. The bit patterns of the positive
/// numbers, infinity included, are those above positive zero and up to the
/// pattern of infinity; what lies beyond is not a number or carries the sign.
pub open spec fn is_jump(jump: PriorityJump) -> bool {
    match jump {
        PriorityJump::Level(level) => level > 0,
        PriorityJump::Sensitivity(bits) => 0 < bits <= 0x7ff0_0000_0000_0000,
    }
}

/// The jump to ask for: none unless it is greater than zero.
pub open spec fn requested_jump(jump: PriorityJump) -> Option<PriorityJump> {
    if is_jump(jump) {
        Some(jump)
    } else {
        None
    }
}

/// The strict priority to ask for: none unless it is greater than zero.
pub open spec fn requested_strict_priority(priority: u32) -> Option<u32> {
    if priority > 0 {
        Some(priority)
    } else {
        None
    }
}

/// Reads the priority jump off a request's hints.
pub fn extract_priority_jump(nvext: &Option<NvExt>) -> (r: PriorityJump)
    ensures
        r == priority_jump_of(*nvext),
{
    match nvext {
        Some(NvExt { agent_hints: Some(hints) }) => match hints.priority {
            Some(priority) => {
                if priority > 0 {
                    PriorityJump::Level(priority as u32)
                } else {
                    PriorityJump::Level(0)
                }
            },
            None => match hints.latency_sensitivity {
                Some(bits) => PriorityJump::Sensitivity(bits),
                None => PriorityJump::Level(0),
            },
        },
        _ => PriorityJump::Level(0),
    }
}

/// Reads the strict priority off a request's hints.
pub fn extract_strict_priority(nvext: &Option<NvExt>) -> (r: u32)
    ensures
        r == strict_priority_of(*nvext),
{
    match nvext {
        Some(NvExt { agent_hints: Some(hints) }) => match hints.strict_priority {
            Some(priority) => priority,
            None => 0,
        },
        _ => 0,
    }
}

/// Keeps a jump only where it is greater than zero.
pub fn positive_jump(jump: PriorityJump) -> (r: Option<PriorityJump>)
    ensures
        r == requested_jump(jump),
{
    let positive = match jump {
        PriorityJump::Level(level) => level > 0,
        PriorityJump::Sensitivity(bits) => 0 < bits && bits <= 0x7ff0_0000_0000_0000,
    };
    if positive {
        Some(jump)
    } else {
        None
    }
}

/// Keeps a strict priority only where it is greater than zero.
pub fn positive_strict_priority(priority: u32) -> (r: Option<u32>)
    ensures
        r == requested_strict_priority(priority),
{
    if priority > 0 {
        Some(priority)
    } else {
        None
    }
}

/// A request without hints asks for no priority of either kind.
pub proof fn law_no_hints_no_priority(nvext: Option<NvExt>)
    requires
        hints_of(nvext) is None,
    ensures
        requested_jump(priority_jump_of(nvext)) is None,
        requested_strict_priority(strict_priority_of(nvext)) is None,
{
}

/// A priority overrides the latency sensitivity, whatever the latter is, and a
/// negative priority asks for no jump.
pub proof fn law_priority_overrides_sensitivity(hints: AgentHints, sensitivity: Option<u64>)
    requires
        hints.priority is Some,
    ensures
        priority_jump_of(Some(NvExt { agent_hints: Some(hints) })) == priority_jump_of(
            Some(
                NvExt {
                    agent_hints: Some(AgentHints { latency_sensitivity: sensitivity, ..hints }),
                },
            ),
        ),
        hints.priority->0 <= 0 ==> requested_jump(
            priority_jump_of(Some(NvExt { agent_hints: Some(hints) })),
        ) is None,
        hints.priority->0 > 0 ==> requested_jump(
            priority_jump_of(Some(NvExt { agent_hints: Some(hints) })),
        ) == Some(PriorityJump::Level(hints.priority->0 as u32)),
{
}

/// A number greater than zero, by the parts of its IEEE 754 binary64 pattern:
/// no sign, not all else zero, and not a NaN, whose exponent is all ones and
/// whose fraction is not zero.
pub open spec fn positive_number(bits: u64) -> bool {
    let sign = bits as nat / 0x8000_0000_0000_0000;
    let exponent = (bits as nat / 0x10_0000_0000_0000) % 0x800;
    let fraction = bits as nat % 0x10_0000_0000_0000;
    &&& sign == 0
    &&& exponent > 0 || fraction > 0
    &&& exponent < 0x7ff || fraction == 0
}

/// The jump that is read off hints is the client's own: its priority, where it
/// names one, raised to zero at least; else its sensitivity as it stands; else
/// zero. The strict priority is the client's own too, or zero.
pub proof fn law_hints_are_read(
    nvext: Option<NvExt>,
    hints: AgentHints,
    jump: PriorityJump,
    strict: u32,
)
    requires
        nvext == Some(NvExt { agent_hints: Some(hints) }),
        call_ensures(extract_priority_jump, (&nvext,), jump),
        call_ensures(extract_strict_priority, (&nvext,), strict),
    ensures
        hints.priority matches Some(priority) ==> jump is Level && jump->Level_0 >= priority
            && jump->Level_0 >= 0 && (jump->Level_0 == priority || jump->Level_0 == 0),
        hints.priority is None ==> (hints.latency_sensitivity matches Some(bits) ==> jump
            == PriorityJump::Sensitivity(bits)),
        hints.priority is None && hints.latency_sensitivity is None ==> jump
            == PriorityJump::Level(0),
        hints.strict_priority matches Some(priority) ==> strict == priority,
        hints.strict_priority is None ==> strict == 0,
{
}

/// Without hints both priorities read as zero.
pub proof fn law_no_hints_read_as_zero(nvext: Option<NvExt>, jump: PriorityJump, strict: u32)
    requires
        nvext is None || nvext->0.agent_hints is None,
        call_ensures(extract_priority_jump, (&nvext,), jump),
        call_ensures(extract_strict_priority, (&nvext,), strict),
    ensures
        jump == PriorityJump::Level(0),
        strict == 0,
{
}

/// A priority is kept as it is or not at all, and it is kept exactly where it is
/// greater than zero.
pub proof fn law_only_positive_priorities_are_kept(
    jump: PriorityJump,
    kept_jump: Option<PriorityJump>,
    strict: u32,
    kept_strict: Option<u32>,
)
    requires
        call_ensures(positive_jump, (jump,), kept_jump),
        call_ensures(positive_strict_priority, (strict,), kept_strict),
    ensures
        kept_jump is Some ==> kept_jump->0 == jump,
        jump matches PriorityJump::Level(level) ==> (kept_jump is Some <==> level > 0),
        jump matches PriorityJump::Sensitivity(bits) ==> (kept_jump is Some <==> positive_number(
            bits,
        )),
        kept_strict is Some ==> kept_strict->0 == strict,
        kept_strict is Some <==> strict > 0,
{
}

} // verus!
