//! What the command line decides: how a decompiler is set up, what is done with it, and what is
//! shown.

use vstd::prelude::*;

use crate::address::Address;
#[allow(unused_imports)]
use crate::architecture::Architecture;
use crate::binary::FunctionSymbol;
use crate::codegen::{compile, optimise, CodeFormat};
#[allow(unused_imports)]
use crate::codegen::{characters, compile_outcome, optimise_outcome, outcome_of};
use crate::decompiler::Decompiler;
#[allow(unused_imports)]
use crate::decompiler::{DeclaredFunction, Settings};
use crate::error::Error;
#[allow(unused_imports)]
use crate::error::Failure;
#[allow(unused_imports)]
use crate::startup::characters_of;
use crate::number::append_decimal;
#[allow(unused_imports)]
use crate::number::{decimal_digits, hex_text};
use crate::output::Output;
#[allow(unused_imports)]
use crate::output::OutputView;
#[allow(unused_imports)]
use crate::prototype::{Primitive, PrimitiveKind};
use crate::report::ReasonCount;
#[allow(unused_imports)]
use crate::report::ReasonCountView;
use crate::text::same_text;

verus! {

/// Whether `function` is declared as one at `address` that takes nothing and returns a value of the
/// size of a pointer.
pub open spec fn declared_returning(
    function: DeclaredFunction,
    address: u64,
    pointer_bytes: u16,
) -> bool {
    &&& function.address.0 == address
    &&& function.prototype.arguments@ == Seq::<Primitive>::empty()
    &&& function.prototype.returns == Some(
        Primitive { kind: PrimitiveKind::Generic, size: pointer_bytes },
    )
}

/// Whether `changed` is `settings` with the functions at `addresses` declared as ones that return,
/// after those that were declared before.
pub open spec fn assumed_to_return(
    settings: Settings,
    addresses: Seq<u64>,
    changed: Settings,
) -> bool {
    let known = settings.declared.len() as int;
    &&& changed == (Settings { declared: changed.declared, ..settings })
    &&& changed.declared.len() == known + addresses.len()
    &&& changed.declared.take(known) == settings.declared
    &&& forall|i: int|
        0 <= i < addresses.len() ==> declared_returning(
            #[trigger] changed.declared[known + i],
            addresses[i],
            settings.architecture().pointer_bytes(),
        )
}

/// Sets a decompiler up: the functions at `assume_returns` are taken for ones that return, in this
/// order, and the depth and the ABI are set where they are given.
pub fn configure(
    decompiler: Decompiler,
    assume_returns: &[u64],
    depth: Option<u32>,
    abi: Option<String>,
) -> (configured: Decompiler)
    ensures
        assumed_to_return(
            decompiler@,
            assume_returns@,
            (Settings {
                max_depth: decompiler@.max_depth,
                abi: decompiler@.abi,
                ..configured@
            }),
        ),
        configured@.max_depth == match depth {
            Some(depth) => Some(depth),
            None => decompiler@.max_depth,
        },
        configured@.abi == match characters_of(abi) {
            Some(abi) => Some(abi),
            None => decompiler@.abi,
        },
{
    let ghost settings = decompiler@;
    let ghost known = settings.declared.len() as int;
    let mut configured = decompiler;
    assert(settings.declared.take(known) == settings.declared);
    for i in 0..assume_returns.len()
        invariant
            known == settings.declared.len(),
            assumed_to_return(settings, assume_returns@.take(i as int), configured@),
    {
        let ghost before = configured@;
        configured = configured.with_returning_function(Address::new(assume_returns[i]));
        proof {
            let now = configured@;
            assert(now.declared.drop_last() == before.declared);
            assert forall|j: int| 0 <= j < before.declared.len() implies now.declared[j]
                == before.declared[j] by {
                assert(now.declared.drop_last()[j] == before.declared[j]);
            }
            assert(now.declared.take(known) == settings.declared) by {
                assert(before.declared.take(known) == settings.declared);
                assert forall|j: int| 0 <= j < known implies now.declared[j]
                    == settings.declared[j] by {
                    assert(before.declared.take(known)[j] == settings.declared[j]);
                }
            }
            assert forall|j: int| 0 <= j < assume_returns@.take(i + 1).len() implies
                declared_returning(
                #[trigger] now.declared[known + j],
                assume_returns@.take(i + 1)[j],
                settings.architecture().pointer_bytes(),
            ) by {
                if j < i {
                    assert(now.declared[known + j] == before.declared[known + j]);
                    assert(assume_returns@.take(i as int)[j] == assume_returns@.take(i + 1)[j]);
                }
            }
        }
    }
    assert(assume_returns@.take(assume_returns@.len() as int) == assume_returns@);
    let configured = match depth {
        Some(depth) => configured.with_max_depth(depth),
        None => configured,
    };
    match abi {
        Some(abi) => configured.with_abi(abi),
        None => configured,
    }
}

/// What is done with a decompiler.
#[derive(Clone, Copy, Debug, PartialEq, Eq, Structural)]
pub enum Task {
    /// Its functions are listed.
    List,
    /// Modules are taken from a stage of the pipeline.
    Modules,
    /// Functions are decompiled.
    Functions,
}

/// What to do: without addresses, the functions are listed; with a stage, modules are taken from
/// it; otherwise the functions are decompiled.
pub fn task(addresses: &[u64], stage: Option<&str>) -> (task: Task)
    ensures
        task == if addresses@.len() == 0 {
            Task::List
        } else if stage is Some {
            Task::Modules
        } else {
            Task::Functions
        },
{
    if addresses.len() == 0 {
        Task::List
    } else if stage.is_some() {
        Task::Modules
    } else {
        Task::Functions
    }
}

/// What is shown of a decompiled function: its module, both, or else the C code.
pub open spec fn shown(emit: Seq<char>, output: OutputView) -> Seq<char> {
    if emit == "llvm"@ {
        output.llvm_ir
    } else if emit == "both"@ {
        output.llvm_ir + "\n"@ + output.c
    } else {
        output.c
    }
}

/// The text to show of a decompiled function.
pub fn text_to_show(emit: &str, output: &Output) -> (text: String)
    ensures
        text@ == shown(emit@, output@),
{
    if same_text(emit, "llvm") {
        output.llvm_ir().to_owned()
    } else if same_text(emit, "both") {
        let mut text = output.llvm_ir().to_owned();
        text.append("\n");
        text.append(output.c());
        text
    } else {
        output.c().to_owned()
    }
}

/// What is done with a module before it is written.
#[derive(Clone, Copy, Debug, PartialEq, Eq, Structural)]
pub enum ModuleWork {
    /// Code is generated from it.
    Compile { format: CodeFormat },
    /// It is optimised.
    Optimise,
    /// Nothing.
    Keep,
}

/// What to do with a module: with a triple, generate code for it, as text where assembly is to be
/// shown; with passes alone, run them.
pub open spec fn work_on_module(triple: bool, passes: bool, emit: Seq<char>) -> ModuleWork {
    if triple {
        ModuleWork::Compile {
            format: if emit == "asm"@ {
                CodeFormat::Assembly
            } else {
                CodeFormat::Object
            },
        }
    } else if passes {
        ModuleWork::Optimise
    } else {
        ModuleWork::Keep
    }
}

/// What to do with a module.
pub fn module_work(triple: Option<&str>, passes: Option<&str>, emit: &str) -> (work: ModuleWork)
    ensures
        work == work_on_module(triple is Some, passes is Some, emit@),
{
    if triple.is_some() {
        if same_text(emit, "asm") {
            ModuleWork::Compile { format: CodeFormat::Assembly }
        } else {
            ModuleWork::Compile { format: CodeFormat::Object }
        }
    } else if passes.is_some() {
        ModuleWork::Optimise
    } else {
        ModuleWork::Keep
    }
}

/// Whether the bytes to write for `module` can have come to `outcome`. Passes that no triple goes
/// with are run for the target of `host`.
pub open spec fn emission_outcome(
    module: Seq<u8>,
    triple: Option<Seq<char>>,
    host: Seq<char>,
    passes: Option<Seq<char>>,
    emit: Seq<char>,
    outcome: Result<Seq<u8>, Failure>,
) -> bool {
    match work_on_module(triple is Some, passes is Some, emit) {
        ModuleWork::Compile { format } => compile_outcome(
            module,
            triple->0,
            passes,
            format,
            outcome,
        ),
        ModuleWork::Optimise => optimise_outcome(module, host, passes->0, outcome),
        ModuleWork::Keep => outcome == Ok::<Seq<u8>, Failure>(module),
    }
}

/// The bytes to write for `module`.
pub fn emit_module(
    module: Vec<u8>,
    triple: Option<&str>,
    host: &str,
    passes: Option<&str>,
    emit: &str,
) -> (bytes: Result<Vec<u8>, Error>)
    ensures
        emission_outcome(
            module@,
            characters(triple),
            host@,
            characters(passes),
            emit@,
            outcome_of(bytes),
        ),
{
    match module_work(triple, passes, emit) {
        ModuleWork::Compile { format } => compile(
            module.as_slice(),
            triple.unwrap(),
            passes,
            format,
        ),
        ModuleWork::Optimise => optimise(module.as_slice(), host, passes.unwrap()),
        ModuleWork::Keep => Ok(module),
    }
}

/// What is shown of the entry of a binary.
pub open spec fn entry_line(entry: u64) -> Seq<char> {
    "entry "@ + hex_text(entry)
}

/// What is shown of a function that the binary names.
pub open spec fn symbol_line(symbol: FunctionSymbol) -> Seq<char> {
    hex_text(symbol.address.0) + " "@ + symbol.name@
}

/// The lines to show of a binary: its entry, if it says where it starts, then the functions that
/// it names, in its order.
pub open spec fn lines_of(entry: Option<Address>, symbols: Seq<FunctionSymbol>) -> Seq<Seq<char>> {
    let named = symbols.map_values(|symbol: FunctionSymbol| symbol_line(symbol));
    match entry {
        Some(entry) => seq![entry_line(entry.0)] + named,
        None => named,
    }
}

/// Lists the functions of a binary.
pub fn list(decompiler: &Decompiler) -> (lines: Vec<String>)
    ensures
        lines@.map_values(|line: String| line@) == lines_of(
            decompiler@.binary.entry,
            decompiler@.binary.symbols@,
        ),
{
    let mut lines: Vec<String> = Vec::new();
    let entry = decompiler.entry();
    let symbols = decompiler.symbols();
    match entry {
        Some(entry) => {
            let mut line = "entry ".to_owned();
            line.append(entry.text().as_str());
            lines.push(line);
        },
        None => {},
    }
    assert(lines@.map_values(|line: String| line@) == lines_of(entry, symbols@.take(0)));
    for i in 0..symbols.len()
        invariant
            lines@.map_values(|line: String| line@) == lines_of(entry, symbols@.take(i as int)),
    {
        let ghost before = lines@;
        let mut line = symbols[i].address().text();
        line.append(" ");
        line.append(symbols[i].name());
        let ghost written = line@;
        lines.push(line);
        proof {
            assert(written == symbol_line(symbols@[i as int]));
            let earlier = symbols@.take(i as int);
            let now = symbols@.take(i + 1);
            assert(now == earlier.push(symbols@[i as int]));
            assert(lines@.map_values(|line: String| line@) == before.map_values(
                |line: String| line@,
            ).push(written));
            assert(lines_of(entry, now) == lines_of(entry, earlier).push(written));
        }
    }
    assert(symbols@.take(symbols@.len() as int) == symbols@);
    lines
}

/// What is said of a reason for which instructions were left out.
pub open spec fn warning_text(row: ReasonCountView) -> Seq<char> {
    "warning: "@ + decimal_digits(row.count as nat) + " instruction(s) not translated, first at "@
        + hex_text(row.first.0) + ": "@ + row.reason
}

/// The warning about a reason for which instructions were left out.
pub fn warning(row: &ReasonCount) -> (text: String)
    ensures
        text@ == warning_text(row@),
{
    let mut text = "warning: ".to_owned();
    append_decimal(&mut text, row.count);
    text.append(" instruction(s) not translated, first at ");
    text.append(row.first.text().as_str());
    text.append(": ");
    text.append(row.reason.as_str());
    text
}

/// Functions that are assumed to return are declared after those that were declared before, in the
/// order in which they are given: each at its address, taking nothing and returning a value of four
/// bytes on x86 and of eight on the others. Nothing else is changed.
pub proof fn assumed_functions_return_a_pointer(
    settings: Settings,
    addresses: Seq<u64>,
    changed: Settings,
    place: int,
)
    requires
        assumed_to_return(settings, addresses, changed),
        0 <= place < settings.declared.len() + addresses.len(),
    ensures
        changed.declared.len() == settings.declared.len() + addresses.len(),
        changed.binary == settings.binary,
        changed.abi == settings.abi,
        changed.prototype == settings.prototype,
        changed.max_depth == settings.max_depth,
        changed.imports == settings.imports,
        place < settings.declared.len() ==> changed.declared[place] == settings.declared[place],
        place >= settings.declared.len() ==> {
            let function = changed.declared[place];
            &&& function.address.0 == addresses[place - settings.declared.len()]
            &&& function.prototype.arguments@.len() == 0
            &&& function.prototype.returns is Some
            &&& function.prototype.returns->0.kind == PrimitiveKind::Generic
            &&& function.prototype.returns->0.size == (if settings.binary.architecture
                == Architecture::X86 {
                4u16
            } else {
                8u16
            })
        },
{
    let known = settings.declared.len() as int;
    if place < known {
        assert(changed.declared.take(known)[place] == settings.declared[place]);
    } else {
        assert(changed.declared[known + (place - known)] == changed.declared[place]);
    }
}

/// A text that may be missing is missing or has its characters.
pub proof fn missing_text_has_no_characters(text: Option<String>)
    ensures
        text matches Some(given) ==> characters_of(text) == Some(given@),
        text is None ==> characters_of(text) is None,
{
}

/// `llvm` shows the module, `both` the module and the C code with a line break between, and
/// everything else the C code.
pub proof fn emit_says_what_is_shown(emit: Seq<char>, output: OutputView)
    ensures
        emit == "llvm"@ ==> shown(emit, output) == output.llvm_ir,
        emit == "both"@ ==> shown(emit, output) == output.llvm_ir.push('\n') + output.c,
        emit != "llvm"@ && emit != "both"@ ==> shown(emit, output) == output.c,
{
    reveal_strlit("llvm");
    reveal_strlit("both");
    reveal_strlit("\n");
    assert("llvm"@[0] == 'l' && "both"@[0] == 'b');
    assert(output.llvm_ir + "\n"@ == output.llvm_ir.push('\n'));
}

/// The bytes for a module: with a triple, code is generated for this triple, with the passes if any
/// are given, as assembly if and only if `asm` is to be shown; with passes alone, they are run for
/// the target of the host; with neither, the module is written as it is.
pub proof fn module_is_compiled_optimised_or_kept(
    module: Seq<u8>,
    triple: Option<&str>,
    host: Seq<char>,
    passes: Option<&str>,
    emit: Seq<char>,
    emitted: Result<Vec<u8>, Error>,
)
    requires
        emission_outcome(
            module,
            characters(triple),
            host,
            characters(passes),
            emit,
            outcome_of(emitted),
        ),
    ensures
        triple is Some && emit == "asm"@ ==> compile_outcome(
            module,
            triple->0@,
            characters(passes),
            CodeFormat::Assembly,
            outcome_of(emitted),
        ),
        triple is Some && emit != "asm"@ ==> compile_outcome(
            module,
            triple->0@,
            characters(passes),
            CodeFormat::Object,
            outcome_of(emitted),
        ),
        triple is None ==> (passes matches Some(given) ==> optimise_outcome(
            module,
            host,
            given@,
            outcome_of(emitted),
        )),
        triple is None && passes is None ==> (emitted matches Ok(bytes) && bytes@ == module),
{
}

/// A binary is listed with its entry first, if it has one, and then each function that it names, in
/// its order, by address and name.
pub proof fn binary_is_listed_in_order(
    entry: Option<Address>,
    symbols: Seq<FunctionSymbol>,
    place: int,
)
    requires
        0 <= place < symbols.len(),
    ensures
        entry matches Some(start) ==> {
            &&& lines_of(entry, symbols).len() == symbols.len() + 1
            &&& lines_of(entry, symbols)[0] == "entry "@ + hex_text(start.0)
            &&& lines_of(entry, symbols)[place + 1] == hex_text(symbols[place].address.0).push(' ')
                + symbols[place].name@
        },
        entry is None ==> {
            &&& lines_of(entry, symbols).len() == symbols.len()
            &&& lines_of(entry, symbols)[place] == hex_text(symbols[place].address.0).push(' ')
                + symbols[place].name@
        },
{
    reveal_strlit(" ");
    let address = hex_text(symbols[place].address.0);
    assert(address + " "@ == address.push(' '));
}

/// A binary that names no function is listed by its entry alone, or not at all.
pub proof fn nameless_binary_is_listed_by_its_entry(entry: Option<Address>)
    ensures
        entry matches Some(start) ==> lines_of(entry, Seq::empty()) == seq![
            "entry "@ + hex_text(start.0),
        ],
        entry is None ==> lines_of(entry, Seq::empty()).len() == 0,
{
}

/// A warning has the count in decimal, the first address in hexadecimal, and the reason.
pub proof fn warning_has_count_place_and_reason(row: ReasonCount)
    ensures
        warning_text(row@) == "warning: "@ + (decimal_digits(row.count as nat) + (
        " instruction(s) not translated, first at "@ + (hex_text(row.first.0) + (": "@
            + row.reason@)))),
{
    let a = "warning: "@;
    let b = decimal_digits(row.count as nat);
    let c = " instruction(s) not translated, first at "@;
    let d = hex_text(row.first.0);
    let e = ": "@;
    let f = row.reason@;
    assert(a + b + c + d + e + f == a + (b + (c + (d + (e + f)))));
}

} // verus!
