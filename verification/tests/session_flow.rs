use std::rc::Rc;

use revng_fugue::{
    Address, Analysis, Architecture, Binary, Build, Decompiler, Error, FunctionStep,
    FunctionSymbol, Lift, LiftOutcome, ModuleStep, ObjectKind, Output, Primitive,
    Prototype, Rendering, Request, Session,
};

fn decompiler() -> Decompiler {
    Decompiler::open(Ok(Binary {
        architecture: Architecture::X86,
        entry: None,
        symbols: vec![FunctionSymbol { address: Address::new(7), name: "seven".to_string() }],
    }))
    .expect("the binary is there")
}

/// Makes an analysis with a pipeline in which everything succeeds.
fn made(mut build: Build, callees: &[u64]) -> Analysis {
    let mut context = build.lift_context();
    while let Some(request) = build.request() {
        if matches!(request, Request::ProduceRoot) {
            context.conclude(LiftOutcome::Verified {
                lift: Lift {
                    callees: callees.iter().copied().collect(),
                    lifted: callees.iter().copied().collect(),
                    untranslated: Vec::new(),
                },
                llvm_ir: format!("module from {:#x}", context.entry),
            });
        }
        build.advance(Ok(()), &context).expect("the reply is a success");
    }
    build.finish(&mut context)
}

/// Decompiles a function with a pipeline in which everything succeeds, and tells for how many
/// analyses and renderings that has called.
fn decompiled(
    session: &mut Session,
    address: u64,
    callees: &[u64],
) -> (Rc<Output>, usize, usize) {
    let mut analyses = 0;
    let mut renderings = 0;
    loop {
        let analysis = match session.function(Address::new(address)) {
            FunctionStep::Done(output) => return (output, analyses, renderings),
            FunctionStep::Render { meta_address } => {
                renderings += 1;
                let rendering = Rendering {
                    ptml: format!("ptml of {meta_address}"),
                    c: format!("c of {meta_address}"),
                };
                session
                    .decompiled(Address::new(address), Ok(rendering))
                    .expect("the rendering is there");
                continue;
            }
            FunctionStep::Analyse(build) => {
                analyses += 1;
                made(build, callees)
            }
        };
        session.analysed(analysis);
    }
}

#[test]
fn a_function_is_decompiled_once() {
    let mut session = decompiler().into_session();
    let (first, analyses, renderings) = decompiled(&mut session, 0x10, &[]);
    assert_eq!((analyses, renderings), (1, 1));
    assert_eq!(first.c(), "c of 0x10:Code_x86");
    assert_eq!(first.ptml(), "ptml of 0x10:Code_x86");
    assert_eq!(first.llvm_ir(), "module from 0x10");
    let (second, analyses, renderings) = decompiled(&mut session, 0x10, &[]);
    assert_eq!((analyses, renderings), (0, 0));
    assert!(Rc::ptr_eq(&first, &second));
}

#[test]
fn one_analysis_serves_the_functions_it_reaches() {
    let mut session = decompiler().into_session();
    decompiled(&mut session, 0x10, &[0x20]);
    let (output, analyses, renderings) = decompiled(&mut session, 0x20, &[]);
    assert_eq!((analyses, renderings), (0, 1));
    assert_eq!(output.llvm_ir(), "module from 0x10");
    let (output, analyses, renderings) = decompiled(&mut session, 0x30, &[]);
    assert_eq!((analyses, renderings), (1, 1));
    assert_eq!(output.llvm_ir(), "module from 0x30");
}

#[test]
fn a_new_analysis_replaces_the_last_but_keeps_the_functions() {
    let mut session = decompiler().into_session();
    let (first, _, _) = decompiled(&mut session, 0x10, &[0x20]);
    decompiled(&mut session, 0x30, &[]);
    let (kept, analyses, renderings) = decompiled(&mut session, 0x10, &[]);
    assert_eq!((analyses, renderings), (0, 0));
    assert!(Rc::ptr_eq(&first, &kept));
    let (_, analyses, _) = decompiled(&mut session, 0x20, &[]);
    assert_eq!(analyses, 1);
}

#[test]
fn a_limited_analysis_serves_one_function() {
    let mut session = decompiler().with_max_depth(1).into_session();
    decompiled(&mut session, 0x10, &[0x20]);
    let (output, analyses, renderings) = decompiled(&mut session, 0x20, &[]);
    assert_eq!((analyses, renderings), (1, 1));
    assert_eq!(output.llvm_ir(), "module from 0x20");
}

#[test]
fn a_failed_rendering_leaves_the_session_as_it_is() {
    let mut session = decompiler().into_session();
    let analysis = match session.function(Address::new(0x10)) {
        FunctionStep::Analyse(build) => made(build, &[]),
        _ => panic!("there is no analysis yet"),
    };
    session.analysed(analysis);
    match session.decompiled(Address::new(0x10), Err(Error::pipeline("no rendering"))) {
        Err(error) => assert_eq!(error.message(), "no rendering"),
        Ok(_) => panic!("the failure was lost"),
    }
    assert!(matches!(session.function(Address::new(0x10)), FunctionStep::Render { .. }));
}

#[test]
fn an_analysis_is_needed_until_one_covers_the_function() {
    let mut session = decompiler().into_session();
    let analysis = match session.ensure_analysis(0x10) {
        Some(build) => made(build, &[0x20]),
        None => panic!("there is no analysis yet"),
    };
    session.analysed(analysis);
    assert!(session.ensure_analysis(0x10).is_none());
    assert!(session.ensure_analysis(0x20).is_none());
    assert!(session.ensure_analysis(0x30).is_some());
}

#[test]
fn modules_are_asked_for_once_there_is_an_analysis() {
    let mut session = decompiler().into_session();
    let analysis = match session.module(Address::new(0x10), "bad\0stage", "llvm-functions") {
        ModuleStep::Analyse(build) => made(build, &[]),
        _ => panic!("there is no analysis yet"),
    };
    session.analysed(analysis);
    match session.module(Address::new(0x10), "bad\0stage", "llvm-functions") {
        ModuleStep::Refuse(Error::Pipeline(message)) => {
            assert_eq!(message, "stage name has a NUL")
        }
        _ => panic!("the name was not refused"),
    }
    match session.module(Address::new(0x10), "enforce-abi", "llvm-functions") {
        ModuleStep::Produce(request) => {
            assert_eq!(request.stage, "enforce-abi");
            assert_eq!(request.container, "llvm-functions");
            assert_eq!(request.kind, ObjectKind::Function);
            assert_eq!(request.object, Some("0x10:Code_x86".to_string()));
        }
        _ => panic!("the artefact was not asked for"),
    }
    match session.module(Address::new(0x10), "lift", "llvm-root") {
        ModuleStep::Produce(request) => {
            assert_eq!(request.kind, ObjectKind::Binary);
            assert_eq!(request.object, None);
        }
        _ => panic!("the artefact was not asked for"),
    }
    assert!(matches!(
        session.module(Address::new(0x20), "lift", "llvm-root"),
        ModuleStep::Analyse(_)
    ));
}

#[test]
fn a_kept_function_that_is_no_longer_covered_needs_an_analysis_for_modules() {
    let mut session = decompiler().into_session();
    decompiled(&mut session, 0x10, &[]);
    decompiled(&mut session, 0x30, &[]);
    assert!(matches!(session.function(Address::new(0x10)), FunctionStep::Done(_)));
    let analysis = match session.module(Address::new(0x10), "lift", "llvm-functions") {
        ModuleStep::Analyse(build) => made(build, &[]),
        _ => panic!("the last analysis does not cover the function"),
    };
    session.analysed(analysis);
    assert!(matches!(session.function(Address::new(0x10)), FunctionStep::Done(_)));
    assert!(matches!(
        session.module(Address::new(0x10), "lift", "llvm-functions"),
        ModuleStep::Produce(_)
    ));
}

#[test]
fn a_session_knows_its_binary() {
    let session = decompiler()
        .with_import(
            "puts".to_string(),
            Address::new(9),
            Prototype::returning(Primitive::generic(4)),
        )
        .into_session();
    assert_eq!(session.architecture(), Architecture::X86);
    assert_eq!(session.entry(), None);
    assert_eq!(session.symbols()[0].name(), "seven");
}

#[test]
fn equal_decompilers_ask_for_equal_things() {
    let mut texts = Vec::new();
    for _ in 0..4 {
        let mut session = decompiler().into_session();
        let mut text = String::new();
        for address in [0x409EE4u64, 0x40A51E, 0x40AB58, 0x40B730] {
            text.push_str(decompiled(&mut session, address, &[0x40A51E]).0.c());
        }
        texts.push(text);
    }
    assert!(texts.iter().all(|text| *text == texts[0]));
}
