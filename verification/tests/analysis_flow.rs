use revng_fugue::{
    Address, Analysis, Architecture, Binary, Decompilation, DecompilationStep, Decompiler, Error,
    FunctionSymbol, Lift, LiftContext, LiftOutcome, ObjectKind, Primitive, PrimitiveKind,
    Prototype, Rendering, Request, Untranslated,
};

fn decompiler(architecture: Architecture) -> Decompiler {
    Decompiler::open(Ok(Binary {
        architecture,
        entry: Some(Address::new(0x1000)),
        symbols: vec![FunctionSymbol { address: Address::new(0x1000), name: "main".to_string() }],
    }))
    .expect("the binary is there")
}

fn generic(size: u16) -> Prototype {
    Prototype::returning(Primitive::generic(size))
}

/// A request in a form that is easy to compare.
fn said(request: &Request) -> String {
    match request {
        Request::Initialise => "initialise".to_string(),
        Request::CreateManager { seed } => format!("manager {seed:#x}"),
        Request::SetDefaultAbi { abi } => format!("default {abi}"),
        Request::RegisterImports { abi, imports, pointer_size } => format!(
            "imports {abi} {pointer_size} {:?}",
            imports.iter().map(|import| import.name.as_str()).collect::<Vec<_>>()
        ),
        Request::SetLifter => "lifter".to_string(),
        Request::ProduceRoot => "root".to_string(),
        Request::AddFunction { meta_address, name } => format!("add {meta_address} {name}"),
        Request::SetPrototype { meta_address, abi, name, prototype, pointer_size } => format!(
            "prototype {meta_address} {abi} {name} {:?} {pointer_size}",
            prototype.returns.map(|returned| returned.size)
        ),
        Request::DetectAbi => "detect".to_string(),
        Request::RunFunctionAnalysis { analysis, functions } => {
            format!("{analysis} {functions:?}")
        }
        Request::RunAnalysis { stage, analysis } => format!("'{stage}' {analysis}"),
    }
}

fn found(callees: &[u64], lifted: &[u64]) -> LiftOutcome {
    LiftOutcome::Verified {
        lift: Lift {
            callees: callees.iter().copied().collect(),
            lifted: lifted.iter().copied().collect(),
            untranslated: vec![Untranslated {
                address: Address::new(0x1004),
                reason: "privileged".to_string(),
            }],
        },
        llvm_ir: "define void @f()".to_string(),
    }
}

/// Sends every request, with a pipeline in which everything succeeds and lifting finds these
/// functions.
fn analyse(
    decompiler: &Decompiler,
    seed: u64,
    callees: &[u64],
    lifted: &[u64],
) -> (Vec<String>, LiftContext, Analysis) {
    assert!(decompiler.has_c_abi());
    let mut context = decompiler.lift_context(seed);
    let mut build = decompiler.build_analysis(seed);
    let mut sent = Vec::new();
    while let Some(request) = build.request() {
        assert!(!build.is_complete());
        sent.push(said(request));
        if matches!(request, Request::ProduceRoot) {
            assert!(context.conclude(found(callees, lifted)));
        }
        build.advance(Ok(()), &context).expect("the reply is a success");
    }
    assert!(build.is_complete());
    let analysis = build.finish(&mut context);
    (sent, context, analysis)
}

#[test]
fn a_plain_analysis_asks_for_everything_in_order() {
    let decompiler = decompiler(Architecture::X86_64);
    let (sent, context, analysis) = analyse(&decompiler, 0x1000, &[0x3000, 0x2000], &[0x1000]);
    let functions =
        "[\"0x1000:Code_x86_64\", \"0x2000:Code_x86_64\", \"0x3000:Code_x86_64\"]".to_string();
    assert_eq!(
        sent,
        vec![
            "initialise".to_string(),
            "manager 0x1000".to_string(),
            "default SystemV_x86_64".to_string(),
            "imports SystemV_x86_64 8 []".to_string(),
            "lifter".to_string(),
            "root".to_string(),
            "detect".to_string(),
            format!("detect-c-strings {functions}"),
            format!("analyze-data-layout {functions}"),
            "'' convert-functions-to-cabi".to_string(),
        ]
    );
    assert!(analysis.covers(0x1000));
    assert!(analysis.covers(0x2000));
    assert!(analysis.covers(0x3000));
    assert!(!analysis.covers(0x4000));
    assert_eq!(context.llvm_ir, "");
    assert!(context.untranslated.is_empty());
}

#[test]
fn imports_are_neither_analysed_nor_covered() {
    let decompiler = decompiler(Architecture::AArch64)
        .with_import("puts".to_string(), Address::new(0x2000), generic(8))
        .with_abi("AAPCS64".to_string());
    let (sent, _, analysis) =
        analyse(&decompiler, 0x1000, &[0x3000, 0x2000, 0x1000], &[0x1000]);
    assert_eq!(sent[3], "imports AAPCS64 8 [\"puts\"]");
    assert_eq!(
        sent[7],
        "detect-c-strings [\"0x1000:Code_aarch64\", \"0x3000:Code_aarch64\"]"
    );
    assert!(!analysis.covers(0x2000));
    assert!(analysis.covers(0x3000));
}

#[test]
fn an_import_can_be_the_function_that_was_asked_for() {
    let decompiler = decompiler(Architecture::X86)
        .with_import("start".to_string(), Address::new(0x1000), generic(4));
    let (sent, _, analysis) = analyse(&decompiler, 0x1000, &[0x2000], &[]);
    assert_eq!(sent[7], "detect-c-strings [\"0x2000:Code_x86\"]");
    assert!(analysis.covers(0x1000));
    assert!(analysis.covers(0x2000));
}

#[test]
fn declared_functions_are_made_known_where_they_were_lifted() {
    let decompiler = decompiler(Architecture::X86)
        .with_returning_function(Address::new(0x40787e))
        .with_declared_function(Address::new(0x9000), generic(2))
        .with_declared_function(Address::new(0x2000), generic(8));
    let (sent, _, _) = analyse(&decompiler, 0x1000, &[], &[0x2000, 0x40787e]);
    assert_eq!(
        sent[6..11].to_vec(),
        vec![
            "add 0x40787e:Code_x86 function_0x40787e",
            "prototype 0x40787e:Code_x86 SystemV_x86 function_0x40787e Some(4) 4",
            "add 0x2000:Code_x86 function_0x2000",
            "prototype 0x2000:Code_x86 SystemV_x86 function_0x2000 Some(8) 4",
            "detect",
        ]
    );
    assert_eq!(sent.len(), 14);
}

#[test]
fn a_given_prototype_leaves_nothing_to_find_out() {
    let decompiler = decompiler(Architecture::X86)
        .with_returning_function(Address::new(0x1000))
        .with_prototype(generic(1));
    let (sent, _, analysis) = analyse(&decompiler, 0x1000, &[0x2000], &[0x1000]);
    assert_eq!(
        sent[6..].to_vec(),
        vec!["prototype 0x1000:Code_x86 SystemV_x86 function Some(1) 4"]
    );
    assert!(analysis.covers(0x1000));
    assert!(!analysis.covers(0x2000));
}

#[test]
fn a_limited_depth_covers_one_function_but_analyses_those_it_reaches() {
    let decompiler = decompiler(Architecture::X86).with_max_depth(2);
    let (sent, _, analysis) = analyse(&decompiler, 0x1000, &[0x2000], &[0x1000]);
    assert_eq!(sent[7], "detect-c-strings [\"0x1000:Code_x86\", \"0x2000:Code_x86\"]");
    assert!(analysis.covers(0x1000));
    assert!(!analysis.covers(0x2000));
}

#[test]
fn what_counts_is_what_was_lifted_first() {
    let decompiler = decompiler(Architecture::X86);
    let mut context = decompiler.lift_context(0x1000);
    let mut build = decompiler.build_analysis(0x1000);
    while let Some(request) = build.request() {
        if matches!(request, Request::ProduceRoot) {
            context.conclude(found(&[0x2000], &[]));
        } else if matches!(request, Request::DetectAbi) {
            context.conclude(found(&[0x5000], &[]));
        } else if let Request::RunFunctionAnalysis { functions, .. } = request {
            assert_eq!(functions.join(" "), "0x1000:Code_x86 0x2000:Code_x86");
        }
        build.advance(Ok(()), &context).expect("the reply is a success");
    }
    let analysis = build.finish(&mut context);
    assert!(analysis.covers(0x2000));
    assert!(!analysis.covers(0x5000));
}

#[test]
fn a_failure_ends_the_build_at_any_request() {
    let decompiler = decompiler(Architecture::X86);
    for failing in 0..10 {
        let mut context = decompiler.lift_context(0x1000);
        let mut build = decompiler.build_analysis(0x1000);
        let mut sent = 0;
        while let Some(request) = build.request() {
            if matches!(request, Request::ProduceRoot) {
                context.conclude(found(&[], &[]));
            }
            let reply = if sent == failing { Err(Error::pipeline("refused")) } else { Ok(()) };
            sent += 1;
            match build.advance(reply, &context) {
                Ok(()) => assert!(sent <= failing),
                Err(error) => {
                    assert_eq!(error.message(), "refused");
                    assert_eq!(sent, failing + 1);
                }
            }
        }
        assert_eq!(sent, failing + 1);
        assert!(build.request().is_none());
        assert!(!build.is_complete());
    }
}

#[test]
fn an_abi_with_a_nul_is_no_c_string() {
    let decompiler = decompiler(Architecture::X86).with_abi("bad\0abi".to_string());
    assert!(!decompiler.has_c_abi());
    let context = decompiler.lift_context(0x1000);
    let mut build = decompiler.build_analysis(0x1000);
    assert!(!build.has_c_abi());
    assert!(matches!(build.request(), Some(Request::Initialise)));
    build.advance(Ok(()), &context).expect("revng is up");
    assert!(matches!(build.request(), Some(Request::CreateManager { seed: 0x1000 })));
    match build.advance(Err(Error::pipeline("no manager")), &context) {
        Err(error) => assert_eq!(error.message(), "no manager"),
        Ok(()) => panic!("the failure was lost"),
    }
    let session = decompiler.into_session();
    match session.ensure_analysis(0x1000) {
        Some(build) => assert!(!build.has_c_abi()),
        None => panic!("there is no analysis yet"),
    }
}

#[test]
fn outputs_share_what_belongs_to_the_analysis() {
    let decompiler = decompiler(Architecture::X86);
    let (_, _, analysis) = analyse(&decompiler, 0x1000, &[0x2000], &[]);
    let mut outputs = Vec::new();
    for (address, meta_address, c) in
        [(0x1000, "0x1000:Code_x86", "int f"), (0x2000, "0x2000:Code_x86", "int g")]
    {
        assert_eq!(analysis.decompile_target(address), meta_address);
        let rendering = Rendering { ptml: format!("<b>{c}</b>"), c: c.to_string() };
        outputs.push(analysis.decompile(Ok(rendering)).expect("the rendering is there"));
    }
    assert_eq!(outputs[0].llvm_ir(), outputs[1].llvm_ir());
    assert_eq!(outputs[0].llvm_ir(), "define void @f()");
    assert_eq!(outputs[0].untranslated().len(), 1);
    assert_eq!(outputs[1].untranslated().len(), 1);
    assert_eq!(outputs[0].c(), "int f");
    assert_eq!(outputs[1].ptml(), "<b>int g</b>");
}

#[test]
fn loaders_that_fail_give_no_decompiler() {
    match Decompiler::open(Err(Error::Load("no such file".to_string()))) {
        Err(Error::Load(message)) => assert_eq!(message, "no such file"),
        other => panic!("{other:?}"),
    }
    match Decompiler::from_raw(Err(Error::Load("too large".to_string()))) {
        Err(Error::Load(message)) => assert_eq!(message, "too large"),
        other => panic!("{other:?}"),
    }
    let raw = Decompiler::from_raw(Ok(Binary {
        architecture: Architecture::X86,
        entry: None,
        symbols: Vec::new(),
    }))
    .expect("the bytes are there");
    assert_eq!(raw.architecture(), Architecture::X86);
    assert_eq!(raw.entry(), None);
    assert!(raw.symbols().is_empty());
}

#[test]
fn a_decompiler_knows_its_binary() {
    let decompiler = decompiler(Architecture::AArch64);
    assert_eq!(decompiler.architecture(), Architecture::AArch64);
    assert_eq!(decompiler.entry(), Some(Address::new(0x1000)));
    assert_eq!(decompiler.symbols().len(), 1);
    assert_eq!(decompiler.symbols()[0].name(), "main");
    assert_eq!(decompiler.symbols()[0].address().value(), 0x1000);
}

#[test]
fn a_function_is_decompiled_from_its_own_analysis() {
    let decompiler = decompiler(Architecture::X86);
    let mut context = decompiler.lift_context(0x1000);
    let mut state = decompiler.decompile_function(Address::new(0x1000));
    let mut sent = 0;
    let output = loop {
        match state.step() {
            DecompilationStep::Send(request) => {
                sent += 1;
                if matches!(request, Request::ProduceRoot) {
                    context.conclude(found(&[0x2000], &[]));
                }
            }
            DecompilationStep::Render { meta_address } => {
                assert_eq!(meta_address, "0x1000:Code_x86");
                break state.rendered(Ok(Rendering {
                    ptml: "<b>int</b>".to_string(),
                    c: "int".to_string(),
                }));
            }
        }
        state = state.advance(Ok(()), &mut context).expect("the reply is a success");
    }
    .expect("the rendering is there");
    assert_eq!(sent, 10);
    assert_eq!(output.llvm_ir(), "define void @f()");
    assert_eq!(output.c(), "int");
    assert_eq!(output.ptml(), "<b>int</b>");
    assert_eq!(output.untranslated().len(), 1);
    assert_eq!(output.untranslated()[0].reason(), "privileged");
    assert_eq!(context.llvm_ir, "");
}

#[test]
fn a_decompilation_ends_with_the_first_failure() {
    let decompiler = decompiler(Architecture::X86).with_prototype(generic(4));
    let mut context = decompiler.lift_context(0x1000);
    let state = decompiler.decompile_function(Address::new(0x1000));
    match state.advance(Err(Error::pipeline("down")), &mut context) {
        Err(error) => assert_eq!(error.message(), "down"),
        Ok(_) => panic!("the failure was lost"),
    }
    let mut state = decompiler.decompile_function(Address::new(0x1000));
    while let Decompilation::Analysing { .. } = state {
        state = state.advance(Ok(()), &mut context).expect("the reply is a success");
    }
    match state.rendered(Err(Error::pipeline("no rendering"))) {
        Err(error) => assert_eq!(error.message(), "no rendering"),
        Ok(_) => panic!("the failure was lost"),
    }
}

#[test]
fn artefacts_are_asked_for_by_container() {
    let decompiler = decompiler(Architecture::X86_64);
    let (_, _, analysis) = analyse(&decompiler, 0x1000, &[], &[]);
    let request = analysis
        .artefact("lift", "llvm-functions", 0x1000)
        .expect("the names are C strings");
    assert_eq!(request.stage, "lift");
    assert_eq!(request.container, "llvm-functions");
    assert_eq!(request.kind, ObjectKind::Function);
    assert_eq!(request.object, Some("0x1000:Code_x86_64".to_string()));
    let request = analysis.artefact("", "llvm-root", 0x1000).expect("the names are C strings");
    assert_eq!(request.kind, ObjectKind::Binary);
    assert_eq!(request.object, None);
    for (stage, container, expected) in [
        ("a\0", "b", "stage name has a NUL"),
        ("a", "b\0", "container name has a NUL"),
        ("a\0", "b\0", "stage name has a NUL"),
        ("a", "llvm-root\0", "container name has a NUL"),
    ] {
        match analysis.artefact(stage, container, 0x1000) {
            Err(Error::Pipeline(message)) => assert_eq!(message, expected),
            other => panic!("{other:?}"),
        }
    }
}

#[test]
fn a_returning_function_returns_a_pointer() {
    let decompiler = decompiler(Architecture::AArch64)
        .with_returning_function(Address::new(0x2000));
    let mut context = decompiler.lift_context(0x1000);
    let mut build = decompiler.build_analysis(0x1000);
    let mut seen = false;
    while let Some(request) = build.request() {
        if matches!(request, Request::ProduceRoot) {
            context.conclude(found(&[], &[0x2000]));
        }
        if let Request::SetPrototype { prototype, .. } = request {
            assert!(prototype.arguments.is_empty());
            assert_eq!(
                prototype.returns,
                Some(Primitive { kind: PrimitiveKind::Generic, size: 8 })
            );
            seen = true;
        }
        build.advance(Ok(()), &context).expect("the reply is a success");
    }
    assert!(seen);
}
