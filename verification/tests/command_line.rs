use revng_fugue::cli::{
    configure, list, module_work, task, text_to_show, warning, ModuleWork, Task,
};
use revng_fugue::report::{report_untranslated, ReasonCount};
use revng_fugue::{
    Address, Architecture, Binary, CodeFormat, Decompilation, Decompiler, FunctionSymbol, Lift,
    LiftOutcome, Output, Rendering, Request, Untranslated,
};

fn decompiler(entry: Option<u64>, symbols: &[(u64, &str)]) -> Decompiler {
    Decompiler::open(Ok(Binary {
        architecture: Architecture::X86,
        entry: entry.map(Address::new),
        symbols: symbols
            .iter()
            .map(|(address, name)| FunctionSymbol {
                address: Address::new(*address),
                name: name.to_string(),
            })
            .collect(),
    }))
    .expect("the binary is there")
}

fn output() -> Output {
    let decompiler = decompiler(None, &[]);
    let mut context = decompiler.lift_context(1);
    context.conclude(LiftOutcome::Verified {
        lift: Lift {
            callees: Default::default(),
            lifted: Default::default(),
            untranslated: Vec::new(),
        },
        llvm_ir: "define".to_string(),
    });
    let mut state = decompiler.decompile_function(Address::new(1));
    while let Decompilation::Analysing { .. } = state {
        state = state.advance(Ok(()), &mut context).expect("the reply is a success");
    }
    state
        .rendered(Ok(Rendering { ptml: "<int>".to_string(), c: "int".to_string() }))
        .expect("the rendering is there")
}

fn left_out(instructions: &[(u64, &str)]) -> Vec<Untranslated> {
    instructions
        .iter()
        .map(|(address, reason)| Untranslated {
            address: Address::new(*address),
            reason: reason.to_string(),
        })
        .collect()
}

#[test]
fn a_decompiler_is_set_up_from_the_command_line() {
    let configured = configure(
        decompiler(None, &[]),
        &[0x40787e, 0x10, 0x40787e],
        Some(2),
        Some("SystemV_x86".to_string()),
    );
    let mut context = configured.lift_context(1);
    assert_eq!(context.max_depth, Some(2));
    context.lifted = [0x40787e, 0x10].into_iter().collect();
    let mut build = configured.build_analysis(1);
    let mut declared = Vec::new();
    let mut abis = Vec::new();
    while let Some(request) = build.request() {
        match request {
            Request::AddFunction { name, .. } => declared.push(name.clone()),
            Request::SetDefaultAbi { abi } => abis.push(abi.clone()),
            _ => {}
        }
        build.advance(Ok(()), &context).expect("the reply is a success");
    }
    assert_eq!(declared, vec!["function_0x40787e", "function_0x10", "function_0x40787e"]);
    assert_eq!(abis, vec!["SystemV_x86"]);
}

#[test]
fn what_is_not_given_is_left_as_it_is() {
    let configured = configure(
        decompiler(None, &[]).with_max_depth(5).with_abi("AAPCS64".to_string()),
        &[],
        None,
        None,
    );
    assert_eq!(configured.lift_context(1).max_depth, Some(5));
    let mut build = configured.build_analysis(1);
    let context = configured.lift_context(1);
    build.advance(Ok(()), &context).expect("the reply is a success");
    build.advance(Ok(()), &context).expect("the reply is a success");
    match build.request() {
        Some(Request::SetDefaultAbi { abi }) => assert_eq!(abi, "AAPCS64"),
        other => panic!("{other:?}"),
    }
}

#[test]
fn the_task_follows_from_addresses_and_stage() {
    assert_eq!(task(&[], None), Task::List);
    assert_eq!(task(&[], Some("lift")), Task::List);
    assert_eq!(task(&[1], Some("lift")), Task::Modules);
    assert_eq!(task(&[1, 2], None), Task::Functions);
}

#[test]
fn the_text_to_show_is_the_one_asked_for() {
    let output = output();
    assert_eq!(text_to_show("c", &output), "int");
    assert_eq!(text_to_show("llvm", &output), "define");
    assert_eq!(text_to_show("both", &output), "define\nint");
    assert_eq!(text_to_show("asm", &output), "int");
}

#[test]
fn modules_are_compiled_optimised_or_kept() {
    assert_eq!(
        module_work(Some("x86_64-linux"), None, "asm"),
        ModuleWork::Compile { format: CodeFormat::Assembly }
    );
    assert_eq!(
        module_work(Some("x86_64-linux"), Some("default<O3>"), "c"),
        ModuleWork::Compile { format: CodeFormat::Object }
    );
    assert_eq!(module_work(None, Some("default<O3>"), "asm"), ModuleWork::Optimise);
    assert_eq!(module_work(None, None, "asm"), ModuleWork::Keep);
}

#[test]
fn binaries_are_listed_entry_first() {
    assert_eq!(
        list(&decompiler(Some(0x1000), &[(0x2000, "b"), (0x1000, "a")])),
        vec!["entry 0x1000", "0x2000 b", "0x1000 a"]
    );
    assert_eq!(list(&decompiler(None, &[(0, "zero")])), vec!["0x0 zero"]);
    assert_eq!(list(&decompiler(None, &[])), Vec::<String>::new());
}

#[test]
fn reports_put_the_most_frequent_reason_first() {
    let rows = report_untranslated(&left_out(&[
        (1, "rare"),
        (2, "often"),
        (3, "b twice"),
        (4, "often"),
        (5, "a twice"),
        (6, "often"),
        (7, "b twice"),
        (8, "a twice"),
    ]));
    let said = rows
        .iter()
        .map(|row| (row.reason.as_str(), row.count, row.first.value()))
        .collect::<Vec<_>>();
    assert_eq!(
        said,
        vec![("often", 3, 2), ("a twice", 2, 5), ("b twice", 2, 3), ("rare", 1, 1)]
    );
    assert_eq!(rows.iter().map(|row| row.count).sum::<usize>(), 8);
}

#[test]
fn nothing_left_out_gives_no_report() {
    assert!(report_untranslated(&[]).is_empty());
}

#[test]
fn warnings_say_how_many_where_and_why() {
    assert_eq!(
        warning(&ReasonCount {
            reason: "unknown opcode".to_string(),
            count: 12,
            first: Address::new(0x40787e),
        }),
        "warning: 12 instruction(s) not translated, first at 0x40787e: unknown opcode"
    );
    let rows = report_untranslated(&left_out(&[(0, "x")]));
    assert_eq!(
        warning(&rows[0]),
        "warning: 1 instruction(s) not translated, first at 0x0: x"
    );
}
