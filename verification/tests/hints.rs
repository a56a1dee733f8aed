use epp_router::hints::{
    extract_priority_jump, extract_strict_priority, positive_jump, positive_strict_priority,
    AgentHints, NvExt, PriorityJump,
};

fn hints(priority: Option<i32>, sensitivity: Option<f64>, strict: Option<u32>) -> Option<NvExt> {
    Some(NvExt {
        agent_hints: Some(AgentHints {
            priority,
            latency_sensitivity: sensitivity.map(f64::to_bits),
            strict_priority: strict,
        }),
    })
}

#[test]
fn no_hints_ask_for_no_priority() {
    for nvext in [None, Some(NvExt { agent_hints: None }), hints(None, None, None)] {
        let jump = extract_priority_jump(&nvext);
        assert_eq!(jump, PriorityJump::Level(0));
        assert_eq!(positive_jump(jump), None);
        let strict = extract_strict_priority(&nvext);
        assert_eq!(strict, 0);
        assert_eq!(positive_strict_priority(strict), None);
    }
}

#[test]
fn priority_overrides_latency_sensitivity() {
    let jump = extract_priority_jump(&hints(Some(7), Some(0.5), None));
    assert_eq!(jump, PriorityJump::Level(7));
    assert_eq!(positive_jump(jump), Some(PriorityJump::Level(7)));
    let jump = extract_priority_jump(&hints(Some(i32::MAX), None, None));
    assert_eq!(jump, PriorityJump::Level(2147483647));
}

#[test]
fn negative_priority_counts_as_zero_and_still_overrides() {
    for priority in [0, -1, i32::MIN] {
        let jump = extract_priority_jump(&hints(Some(priority), Some(9.0), None));
        assert_eq!(jump, PriorityJump::Level(0));
        assert_eq!(positive_jump(jump), None);
    }
}

#[test]
fn latency_sensitivity_decides_without_a_priority() {
    let jump = extract_priority_jump(&hints(None, Some(1.5), None));
    assert_eq!(jump, PriorityJump::Sensitivity(1.5f64.to_bits()));
    assert_eq!(positive_jump(jump), Some(jump));
}

#[test]
fn only_positive_sensitivities_are_jumps() {
    for x in [
        0.0,
        -0.0,
        1.0,
        -1.0,
        f64::MIN_POSITIVE,
        -f64::MIN_POSITIVE,
        f64::from_bits(1),
        -f64::from_bits(1),
        f64::MAX,
        f64::MIN,
        f64::INFINITY,
        f64::NEG_INFINITY,
        f64::NAN,
        -f64::NAN,
        f64::from_bits(0x7ff0_0000_0000_0001),
        f64::from_bits(u64::MAX),
    ] {
        let jump = PriorityJump::Sensitivity(x.to_bits());
        assert_eq!(positive_jump(jump).is_some(), x > 0.0, "{x:?}");
    }
}

#[test]
fn strict_priority_is_read_off_the_hints() {
    let strict = extract_strict_priority(&hints(None, None, Some(4)));
    assert_eq!(strict, 4);
    assert_eq!(positive_strict_priority(strict), Some(4));
    assert_eq!(positive_strict_priority(extract_strict_priority(&hints(None, None, Some(0)))), None);
}
