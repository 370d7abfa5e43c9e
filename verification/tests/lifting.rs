use revng_fugue::{
    Address, Architecture, Binary, Decompiler, Lift, LiftContext, LiftOutcome, Primitive,
    Prototype, Untranslated,
};
use rustc_hash::FxHashSet;

fn context() -> LiftContext {
    let binary = Binary { architecture: Architecture::X86, entry: None, symbols: Vec::new() };
    Decompiler::open(Ok(binary))
        .expect("the binary is there")
        .with_max_depth(3)
        .with_import(
            "first".to_string(),
            Address::new(0x10),
            Prototype::returning(Primitive::generic(4)),
        )
        .with_import(
            "second".to_string(),
            Address::new(0x20),
            Prototype::returning(Primitive::generic(4)),
        )
        .with_import(
            "third".to_string(),
            Address::new(0x10),
            Prototype::returning(Primitive::generic(4)),
        )
        .lift_context(0x1000)
}

fn lift(callees: &[u64], lifted: &[u64], reasons: &[&str]) -> Lift {
    Lift {
        callees: callees.iter().copied().collect(),
        lifted: lifted.iter().copied().collect(),
        untranslated: reasons
            .iter()
            .enumerate()
            .map(|(index, reason)| Untranslated {
                address: Address::new(index as u64),
                reason: reason.to_string(),
            })
            .collect(),
    }
}

fn set(values: &[u64]) -> FxHashSet<u64> {
    values.iter().copied().collect()
}

#[test]
fn a_context_starts_with_the_task_and_nothing_found() {
    let context = context();
    assert_eq!(context.entry, 0x1000);
    assert_eq!(context.architecture, Architecture::X86);
    assert_eq!(context.max_depth, Some(3));
    assert!(!context.follows_every_call());
    assert_eq!(context.imports.len(), 2);
    assert_eq!(context.imports[&0x10], "third");
    assert_eq!(context.imports[&0x20], "second");
    assert_eq!(context.error, "");
    assert_eq!(context.llvm_ir, "");
    assert!(context.functions.is_empty());
    assert!(context.lifted.is_empty());
    assert!(context.untranslated.is_empty());
}

#[test]
fn every_call_is_followed_without_a_limit() {
    let binary = Binary { architecture: Architecture::X86, entry: None, symbols: Vec::new() };
    let decompiler = Decompiler::open(Ok(binary)).expect("the binary is there");
    assert!(decompiler.lift_context(1).follows_every_call());
}

#[test]
fn lifting_starts_at_the_entry_that_was_asked_for() {
    let context = context();
    assert_eq!(context.start(Some("0x2000:Code_x86")), 0x2000);
    assert_eq!(context.start(Some("not an address")), 0x1000);
    assert_eq!(context.start(None), 0x1000);
}

#[test]
fn a_verified_lift_is_taken_over() {
    let mut context = context();
    context.error = "old".to_string();
    let answer = context.conclude(LiftOutcome::Verified {
        lift: lift(&[1, 2], &[3], &["why"]),
        llvm_ir: "module".to_string(),
    });
    assert!(answer);
    assert_eq!(context.functions, set(&[1, 2]));
    assert_eq!(context.lifted, set(&[3]));
    assert_eq!(context.untranslated.len(), 1);
    assert_eq!(context.llvm_ir, "module");
    assert_eq!(context.error, "old");
}

#[test]
fn an_unverified_lift_keeps_the_findings_but_not_the_text() {
    let mut context = context();
    context.llvm_ir = "earlier".to_string();
    let answer = context.conclude(LiftOutcome::Unverified {
        lift: lift(&[1], &[2], &[]),
        message: "bad\0module".to_string(),
    });
    assert!(!answer);
    assert_eq!(context.error, "bad\\0module");
    assert_eq!(context.functions, set(&[1]));
    assert_eq!(context.lifted, set(&[2]));
    assert_eq!(context.llvm_ir, "earlier");
}

#[test]
fn a_failed_lift_changes_the_error_only() {
    let mut context = context();
    context.conclude(LiftOutcome::Verified {
        lift: lift(&[1, 2], &[3], &["why"]),
        llvm_ir: "module".to_string(),
    });
    let answer = context.conclude(LiftOutcome::Failed { message: "no code".to_string() });
    assert!(!answer);
    assert_eq!(context.error, "no code");
    assert_eq!(context.functions, set(&[1, 2]));
    assert_eq!(context.lifted, set(&[3]));
    assert_eq!(context.untranslated.len(), 1);
    assert_eq!(context.llvm_ir, "module");
    assert_eq!(context.entry, 0x1000);
}

#[test]
fn failing_reports_false() {
    let mut context = context();
    assert!(!context.fail("a\0"));
    assert_eq!(context.error, "a\\0");
    assert!(!context.fail(""));
    assert_eq!(context.error, "");
}

#[test]
fn results_are_handed_over_once() {
    let mut context = context();
    context.conclude(LiftOutcome::Verified {
        lift: lift(&[1], &[3], &["why", "whence"]),
        llvm_ir: "module".to_string(),
    });
    let (llvm_ir, untranslated) = context.take_results();
    assert_eq!(llvm_ir, "module");
    assert_eq!(untranslated.len(), 2);
    assert_eq!(untranslated[1].reason(), "whence");
    assert_eq!(untranslated[1].address(), Address::new(1));
    assert_eq!(context.functions, set(&[1]));
    let (llvm_ir, untranslated) = context.take_results();
    assert_eq!(llvm_ir, "");
    assert!(untranslated.is_empty());
}
