//! Optimising LLVM modules and generating machine code from them.

use inkwell::context::Context;
use inkwell::memory_buffer::MemoryBuffer;
use inkwell::module::Module;
use inkwell::passes::PassBuilderOptions;
use inkwell::support::LLVMString;
use inkwell::targets::{
    CodeModel, FileType, InitializationConfig, RelocMode, Target, TargetMachine, TargetTriple,
};
use inkwell::OptimizationLevel;
use vstd::prelude::*;
#[allow(unused_imports)]
use vstd::utf8::encode_utf8;

use crate::error::Error;
#[allow(unused_imports)]
use crate::error::Failure;
#[allow(unused_imports)]
use crate::text::nul_free;

verus! {

// LLVM's own values. They are carried from call to call and never looked into.

/// inkwell's `Context`.
#[verifier::external_type_specification]
#[verifier::external_body]
pub struct ExContext(Context);

/// inkwell's `Module`.
#[verifier::external_type_specification]
#[verifier::external_body]
pub struct ExModule<'ctx>(Module<'ctx>);

/// inkwell's `MemoryBuffer`.
#[verifier::external_type_specification]
#[verifier::external_body]
pub struct ExMemoryBuffer<'a>(MemoryBuffer<'a>);

/// inkwell's `LLVMString`, the form of LLVM's error messages.
#[verifier::external_type_specification]
#[verifier::external_body]
pub struct ExLLVMString(LLVMString);

/// inkwell's `Target`.
#[verifier::external_type_specification]
#[verifier::external_body]
pub struct ExTarget(Target);

/// inkwell's `TargetMachine`.
#[verifier::external_type_specification]
#[verifier::external_body]
pub struct ExTargetMachine(TargetMachine);

/// inkwell's `TargetTriple`.
#[verifier::external_type_specification]
#[verifier::external_body]
pub struct ExTargetTriple(TargetTriple);

/// inkwell's `PassBuilderOptions`.
#[verifier::external_type_specification]
#[verifier::external_body]
pub struct ExPassBuilderOptions(PassBuilderOptions);

/// inkwell's `InitializationConfig`, with its fields.
#[verifier::external_type_specification]
pub struct ExInitializationConfig(InitializationConfig);

/// inkwell's `OptimizationLevel`, with its variants.
#[verifier::external_type_specification]
pub struct ExOptimizationLevel(OptimizationLevel);

/// inkwell's `RelocMode`, with its variants.
#[verifier::external_type_specification]
pub struct ExRelocMode(RelocMode);

/// inkwell's `CodeModel`, with its variants.
#[verifier::external_type_specification]
pub struct ExCodeModel(CodeModel);

/// inkwell's `FileType`, with its variants.
#[verifier::external_type_specification]
pub struct ExFileType(FileType);

// What LLVM holds and answers. The answers depend on the LLVM that the program runs with, so each
// is a relation between what was asked and what came back.

/// The bytes of a target triple, as `TargetTriple::as_str` gives them.
pub uninterp spec fn triple_bytes(triple: TargetTriple) -> Seq<u8>;

/// The bytes that `MemoryBuffer::as_slice` gives, the NUL at the end among them.
pub uninterp spec fn buffer_bytes(buffer: MemoryBuffer<'_>) -> Seq<u8>;

/// The name that a buffer was made with.
pub uninterp spec fn buffer_name(buffer: MemoryBuffer<'_>) -> Seq<char>;

/// The text of an error message, as `LLVMString` displays it.
pub uninterp spec fn llvm_text(message: LLVMString) -> Seq<char>;

/// The bytes of the triple that `Module::get_triple` gives.
pub uninterp spec fn module_triple(module: Module<'_>) -> Seq<u8>;

/// The bytes of the triple that `TargetMachine::get_triple` gives.
pub uninterp spec fn machine_triple(machine: TargetMachine) -> Seq<u8>;

/// `Target::initialize_x86` was called with this configuration and answered `reply`.
pub uninterp spec fn x86_initialised(configuration: InitializationConfig, reply: ()) -> bool;

/// `Target::initialize_aarch64` was called with this configuration and answered `reply`.
pub uninterp spec fn aarch64_initialised(configuration: InitializationConfig, reply: ()) -> bool;

/// `Target::initialize_arm` was called with this configuration and answered `reply`.
pub uninterp spec fn arm_initialised(configuration: InitializationConfig, reply: ()) -> bool;

/// `Target::initialize_mips` was called with this configuration and answered `reply`.
pub uninterp spec fn mips_initialised(configuration: InitializationConfig, reply: ()) -> bool;

/// `Target::initialize_system_z` was called with this configuration and answered `reply`.
pub uninterp spec fn system_z_initialised(configuration: InitializationConfig, reply: ()) -> bool;

/// `Target::from_triple` answered `reply` for a triple of these bytes, once the targets were made
/// known to LLVM.
pub uninterp spec fn target_reply(triple: Seq<u8>, reply: Result<Target, LLVMString>) -> bool;

/// `Target::create_target_machine` answered `reply` for these arguments.
pub uninterp spec fn machine_reply(
    target: Target,
    triple: Seq<u8>,
    cpu: Seq<char>,
    features: Seq<char>,
    level: OptimizationLevel,
    relocation: RelocMode,
    model: CodeModel,
    reply: Option<TargetMachine>,
) -> bool;

/// `Module::parse_bitcode_from_buffer` answered `reply` for a buffer of these bytes and this name,
/// in this context.
pub uninterp spec fn module_reply(
    bytes: Seq<u8>,
    name: Seq<char>,
    context: Context,
    reply: Result<Module<'_>, LLVMString>,
) -> bool;

/// `Module::set_triple` with a triple of these bytes made `after` of `before`.
pub uninterp spec fn module_retargeted(
    before: Module<'_>,
    triple: Seq<u8>,
    after: Module<'_>,
) -> bool;

/// `PassBuilderOptions::create` gave these options.
pub uninterp spec fn options_created(options: PassBuilderOptions) -> bool;

/// `Module::run_passes` on `before`, with these options, answered `reply` and left `after`.
pub uninterp spec fn passes_reply(
    before: Module<'_>,
    passes: Seq<char>,
    machine: TargetMachine,
    options: PassBuilderOptions,
    reply: Result<(), LLVMString>,
    after: Module<'_>,
) -> bool;

/// `Module::write_bitcode_to_memory` answered a buffer of these bytes.
pub uninterp spec fn bitcode_reply(module: Module<'_>, bytes: Seq<u8>) -> bool;

/// `TargetMachine::write_to_memory_buffer` answered `reply` for `module`.
pub uninterp spec fn code_reply(
    machine: TargetMachine,
    module: Module<'_>,
    kind: FileType,
    reply: Result<MemoryBuffer<'_>, LLVMString>,
) -> bool;

/// `text` up to its first NUL character.
pub open spec fn until_nul(text: Seq<char>) -> Seq<char>
    decreases text.len(),
{
    if text.len() == 0 || text[0] == '\0' {
        Seq::empty()
    } else {
        seq![text[0]] + until_nul(text.drop_first())
    }
}

/// A text without NUL characters is taken whole.
pub proof fn until_nul_of_nul_free(text: Seq<char>)
    requires
        nul_free(text),
    ensures
        until_nul(text) == text,
    decreases text.len(),
{
    if text.len() > 0 {
        let rest = text.drop_first();
        assert(text.contains(text[0]));
        assert forall|c: char| rest.contains(c) implies text.contains(c) by {
            let i = choose|i: int| 0 <= i < rest.len() && rest[i] == c;
            assert(text[i + 1] == c);
        }
        until_nul_of_nul_free(rest);
        assert(seq![text[0]] + rest == text);
    }
}

/// The triple of the machine that the program runs on, by inkwell's
/// `TargetMachine::get_default_triple`; bytes that are no UTF-8 are replaced. Nothing is claimed
/// of it: it is the machine's to say.
#[verifier::external_body]
pub fn host_triple() -> (triple: String) {
    TargetMachine::get_default_triple().as_str().to_string_lossy().into_owned()
}

/// inkwell's `TargetTriple::create`, which takes its argument up to the first NUL.
#[verifier::external_body]
fn target_triple(text: &str) -> (triple: TargetTriple)
    ensures
        triple_bytes(triple) == encode_utf8(until_nul(text@)),
{
    TargetTriple::create(text)
}

/// The configuration that has every part of a target made known.
pub open spec fn everything() -> InitializationConfig {
    InitializationConfig {
        asm_parser: true,
        asm_printer: true,
        base: true,
        disassembler: true,
        info: true,
        machine_code: true,
    }
}

/// Whether every part of the x86, AArch64, ARM, MIPS and SystemZ targets was made known to LLVM.
pub open spec fn targets_initialised() -> bool {
    &&& x86_initialised(everything(), ())
    &&& aarch64_initialised(everything(), ())
    &&& arm_initialised(everything(), ())
    &&& mips_initialised(everything(), ())
    &&& system_z_initialised(everything(), ())
}

/// inkwell's `InitializationConfig::default`: every part of a target.
#[verifier::external_body]
fn initialization_config() -> (configuration: InitializationConfig)
    ensures
        configuration == everything(),
{
    InitializationConfig::default()
}

/// inkwell's `Target::initialize_x86`: that it was called with this configuration. What LLVM then
/// knows is LLVM's to say.
#[verifier::external_body]
fn initialise_x86(configuration: &InitializationConfig) -> (reply: ())
    ensures
        x86_initialised(*configuration, reply),
{
    Target::initialize_x86(configuration)
}

/// inkwell's `Target::initialize_aarch64`: that it was called with this configuration. What LLVM then
/// knows is LLVM's to say.
#[verifier::external_body]
fn initialise_aarch64(configuration: &InitializationConfig) -> (reply: ())
    ensures
        aarch64_initialised(*configuration, reply),
{
    Target::initialize_aarch64(configuration)
}

/// inkwell's `Target::initialize_arm`: that it was called with this configuration. What LLVM then
/// knows is LLVM's to say.
#[verifier::external_body]
fn initialise_arm(configuration: &InitializationConfig) -> (reply: ())
    ensures
        arm_initialised(*configuration, reply),
{
    Target::initialize_arm(configuration)
}

/// inkwell's `Target::initialize_mips`: that it was called with this configuration. What LLVM then
/// knows is LLVM's to say.
#[verifier::external_body]
fn initialise_mips(configuration: &InitializationConfig) -> (reply: ())
    ensures
        mips_initialised(*configuration, reply),
{
    Target::initialize_mips(configuration)
}

/// inkwell's `Target::initialize_system_z`: that it was called with this configuration. What LLVM then
/// knows is LLVM's to say.
#[verifier::external_body]
fn initialise_system_z(configuration: &InitializationConfig) -> (reply: ())
    ensures
        system_z_initialised(*configuration, reply),
{
    Target::initialize_system_z(configuration)
}

/// inkwell's `Target::from_triple`, which looks among the targets that were made known: what it
/// answers is for LLVM to say.
#[verifier::external_body]
fn target_from_triple(triple: &TargetTriple) -> (reply: Result<Target, LLVMString>)
    requires
        targets_initialised(),
    ensures
        target_reply(triple_bytes(*triple), reply),
{
    Target::from_triple(triple)
}

/// inkwell's `Target::create_target_machine`: what it answers is for LLVM to say.
#[verifier::external_body]
fn create_target_machine(
    target: &Target,
    triple: &TargetTriple,
    cpu: &str,
    features: &str,
    level: OptimizationLevel,
    relocation: RelocMode,
    model: CodeModel,
) -> (reply: Option<TargetMachine>)
    ensures
        machine_reply(
            *target,
            triple_bytes(*triple),
            cpu@,
            features@,
            level,
            relocation,
            model,
            reply,
        ),
{
    target.create_target_machine(triple, cpu, features, level, relocation, model)
}

/// inkwell's `TargetMachine::get_triple`.
#[verifier::external_body]
fn triple_of_machine(machine: &TargetMachine) -> (triple: TargetTriple)
    ensures
        triple_bytes(triple) == machine_triple(*machine),
{
    machine.get_triple()
}

/// inkwell's `Context::create`; nothing is claimed of it.
#[verifier::external_body]
fn create_context() -> Context {
    Context::create()
}

/// inkwell's `MemoryBuffer::create_from_memory_range`, which panics unless its argument ends with
/// a NUL; the buffer then holds the bytes, under the name up to its first NUL.
#[verifier::external_body]
fn memory_buffer<'a>(bytes: &'a [u8], name: &str) -> (buffer: MemoryBuffer<'a>)
    requires
        bytes@.len() > 0,
        bytes@.last() == 0,
    ensures
        buffer_bytes(buffer) == bytes@,
        buffer_name(buffer) == until_nul(name@),
{
    MemoryBuffer::create_from_memory_range(bytes, name)
}

/// inkwell's `MemoryBuffer::as_slice`: the bytes of the buffer, which end with a NUL.
#[verifier::external_body]
fn bytes_of_buffer<'b>(buffer: &'b MemoryBuffer<'_>) -> (bytes: &'b [u8])
    ensures
        bytes@ == buffer_bytes(*buffer),
        bytes@.len() > 0,
        bytes@.last() == 0,
{
    buffer.as_slice()
}

/// inkwell's `Module::parse_bitcode_from_buffer`: what it answers is for LLVM to say.
#[verifier::external_body]
fn parse_bitcode<'ctx>(buffer: &MemoryBuffer<'_>, context: &'ctx Context) -> (reply: Result<
    Module<'ctx>,
    LLVMString,
>)
    ensures
        module_reply(buffer_bytes(*buffer), buffer_name(*buffer), *context, reply),
{
    Module::parse_bitcode_from_buffer(buffer, context)
}

/// inkwell's `Module::get_triple`.
#[verifier::external_body]
fn triple_of_module(module: &Module<'_>) -> (triple: TargetTriple)
    ensures
        triple_bytes(triple) == module_triple(*module),
{
    module.get_triple()
}

/// inkwell's `Module::set_triple`: `Module::get_triple` gives the triple back afterwards.
#[verifier::external_body]
fn set_module_triple(module: &mut Module<'_>, triple: &TargetTriple)
    ensures
        module_retargeted(*old(module), triple_bytes(*triple), *final(module)),
        module_triple(*final(module)) == triple_bytes(*triple),
{
    module.set_triple(triple)
}

/// inkwell's `PassBuilderOptions::create`: which options these are is for LLVM to say.
#[verifier::external_body]
fn pass_builder_options() -> (options: PassBuilderOptions)
    ensures
        options_created(options),
{
    PassBuilderOptions::create()
}

/// inkwell's `Module::run_passes`: what it answers, and what it leaves of the module, is for LLVM
/// to say. On a module that it cannot handle, LLVM may end the process instead of answering.
#[verifier::external_body]
fn run_module_passes(
    module: &mut Module<'_>,
    passes: &str,
    machine: &TargetMachine,
    options: PassBuilderOptions,
) -> (reply: Result<(), LLVMString>)
    ensures
        passes_reply(*old(module), passes@, *machine, options, reply, *final(module)),
{
    module.run_passes(passes, machine, options)
}

/// inkwell's `Module::write_bitcode_to_memory`: the bytes are for LLVM to say.
#[verifier::external_body]
fn write_bitcode(module: &Module<'_>) -> (buffer: MemoryBuffer<'static>)
    ensures
        bitcode_reply(*module, buffer_bytes(buffer)),
{
    module.write_bitcode_to_memory()
}

/// inkwell's `TargetMachine::write_to_memory_buffer`: what it answers is for LLVM to say. On a
/// module that it cannot handle, LLVM may end the process instead of answering.
#[verifier::external_body]
fn write_code(machine: &TargetMachine, module: &mut Module<'_>, kind: FileType) -> (reply: Result<
    MemoryBuffer<'static>,
    LLVMString,
>)
    ensures
        code_reply(*machine, *old(module), kind, reply),
{
    machine.write_to_memory_buffer(module, kind)
}

/// The text that inkwell's `LLVMString` displays.
#[verifier::external_body]
pub(crate) fn message_text(message: &LLVMString) -> (text: String)
    ensures
        text@ == llvm_text(*message),
{
    format!("{}", message)
}

/// The forms in which machine code is written.
#[derive(Clone, Copy, Debug, PartialEq, Eq, Structural)]
pub enum CodeFormat {
    Assembly,
    Object,
}

impl CodeFormat {
    /// The file type that LLVM writes for this form.
    pub open spec fn file_type(self) -> FileType {
        match self {
            CodeFormat::Assembly => FileType::Assembly,
            CodeFormat::Object => FileType::Object,
        }
    }

    /// The file type that LLVM writes for this form.
    fn to_file_type(self) -> (kind: FileType)
        ensures
            kind == self.file_type(),
    {
        match self {
            CodeFormat::Assembly => FileType::Assembly,
            CodeFormat::Object => FileType::Object,
        }
    }
}

/// The steps of code generation at which LLVM can refuse.
#[derive(Clone, Copy, Debug, PartialEq, Eq, Structural)]
pub enum Stage {
    /// Looking up the target of a triple.
    Target,
    /// Reading the module.
    Parse,
    /// Running the passes.
    Passes,
    /// Writing the machine code.
    Emit,
}

impl Stage {
    /// What a report of a refusal at this step begins with.
    pub open spec fn introduction(self) -> Seq<char> {
        match self {
            Stage::Target => "unknown target triple: "@,
            Stage::Parse => "the module does not parse: "@,
            Stage::Passes => "the pass pipeline failed: "@,
            Stage::Emit => "writing the machine code failed: "@,
        }
    }

    /// The failure that a refusal with this message is reported as.
    pub open spec fn refused(self, message: Seq<char>) -> Failure {
        Failure::Codegen(self.introduction() + message)
    }

    /// Reports a refusal at this step.
    pub fn refusal(self, message: &str) -> (error: Error)
        ensures
            error@ == self.refused(message@),
    {
        let introduction = match self {
            Stage::Target => "unknown target triple: ",
            Stage::Parse => "the module does not parse: ",
            Stage::Passes => "the pass pipeline failed: ",
            Stage::Emit => "writing the machine code failed: ",
        };
        let mut text = introduction.to_owned();
        text.append(message);
        Error::codegen(text)
    }
}

/// The failure to report when a target has no machine.
pub open spec fn no_machine() -> Failure {
    Failure::Codegen("the triple has no target machine"@)
}

/// Whether asking for a machine for `triple` can have ended in `outcome`: the targets are made
/// known to LLVM, the one of the triple is looked up, and the machine is made from it.
pub open spec fn machine_outcome(
    triple: Seq<char>,
    outcome: Result<TargetMachine, Failure>,
) -> bool {
    let bytes = encode_utf8(until_nul(triple));
    targets_initialised() && exists|found: Result<Target, LLVMString>| #[trigger]
        target_reply(bytes, found) && match found {
            Err(message) => outcome == Err::<TargetMachine, Failure>(
                Stage::Target.refused(llvm_text(message)),
            ),
            Ok(target) => exists|made: Option<TargetMachine>| #[trigger]
                machine_reply(
                    target,
                    bytes,
                    "generic"@,
                    ""@,
                    OptimizationLevel::Default,
                    RelocMode::PIC,
                    CodeModel::Default,
                    made,
                ) && outcome == match made {
                    Some(machine) => Ok::<TargetMachine, Failure>(machine),
                    None => Err::<TargetMachine, Failure>(no_machine()),
                },
        }
}

/// Whether reading `bitcode` can have ended in `outcome`.
pub open spec fn parse_outcome(bitcode: Seq<u8>, outcome: Result<Module<'_>, Failure>) -> bool {
    exists|context: Context, reply: Result<Module<'_>, LLVMString>| #[trigger]
        module_reply(bitcode.push(0), "module"@, context, reply) && outcome == match reply {
            Ok(module) => Ok::<Module<'_>, Failure>(module),
            Err(message) => Err::<Module<'_>, Failure>(Stage::Parse.refused(llvm_text(message))),
        }
}

/// Whether running `passes` over `before` can have ended in `outcome` and left `after`.
pub open spec fn run_outcome(
    before: Module<'_>,
    machine: TargetMachine,
    passes: Seq<char>,
    outcome: Result<(), Failure>,
    after: Module<'_>,
) -> bool {
    exists|options: PassBuilderOptions, reply: Result<(), LLVMString>|
        {
            &&& options_created(options)
            &&& #[trigger] passes_reply(before, passes, machine, options, reply, after)
            &&& outcome == match reply {
                Ok(_) => Ok::<(), Failure>(()),
                Err(message) => Err::<(), Failure>(Stage::Passes.refused(llvm_text(message))),
            }
        }
}

/// As [`run_outcome`]; with no passes the module stays as it is.
pub open spec fn run_any_outcome(
    before: Module<'_>,
    machine: TargetMachine,
    passes: Option<Seq<char>>,
    outcome: Result<(), Failure>,
    after: Module<'_>,
) -> bool {
    match passes {
        Some(passes) => run_outcome(before, machine, passes, outcome, after),
        None => outcome == Ok::<(), Failure>(()) && after == before,
    }
}

/// A text that may be missing, as its characters.
pub open spec fn characters(text: Option<&str>) -> Option<Seq<char>> {
    match text {
        Some(text) => Some(text@),
        None => None,
    }
}

/// `bytes` without the last one; of no bytes, none.
pub open spec fn unterminated(bytes: Seq<u8>) -> Seq<u8> {
    if bytes.len() == 0 {
        bytes
    } else {
        bytes.drop_last()
    }
}

/// Whether optimising can have ended in `outcome`: the machine for `triple` is made, the module is
/// read, the passes are run over it, and the module is written out with the triple it came with.
/// The first step that is refused decides the failure.
pub open spec fn optimise_outcome(
    bitcode: Seq<u8>,
    triple: Seq<char>,
    passes: Seq<char>,
    outcome: Result<Seq<u8>, Failure>,
) -> bool {
    exists|made: Result<TargetMachine, Failure>| #[trigger]
        machine_outcome(triple, made) && match made {
            Err(failure) => outcome == Err::<Seq<u8>, Failure>(failure),
            Ok(machine) => exists|parsed: Result<Module<'_>, Failure>| #[trigger]
                parse_outcome(bitcode, parsed) && match parsed {
                    Err(failure) => outcome == Err::<Seq<u8>, Failure>(failure),
                    Ok(module) => optimise_module_outcome(machine, module, passes, outcome),
                },
        }
}

/// Whether running `passes` over `module` and writing it out with its own triple can have ended in
/// `outcome`.
pub open spec fn optimise_module_outcome(
    machine: TargetMachine,
    module: Module<'_>,
    passes: Seq<char>,
    outcome: Result<Seq<u8>, Failure>,
) -> bool {
    exists|ran: Result<(), Failure>, passed: Module<'_>| #[trigger]
        run_outcome(module, machine, passes, ran, passed) && match ran {
            Err(failure) => outcome == Err::<Seq<u8>, Failure>(failure),
            Ok(_) => rewritten(passed, module_triple(module), outcome),
        }
}

/// Whether `module`, set back to `triple`, can have been written out as `outcome`.
pub open spec fn rewritten(
    module: Module<'_>,
    triple: Seq<u8>,
    outcome: Result<Seq<u8>, Failure>,
) -> bool {
    exists|restored: Module<'_>, bytes: Seq<u8>|
        {
            &&& #[trigger] module_retargeted(module, triple, restored)
            &&& module_triple(restored) == triple
            &&& #[trigger] bitcode_reply(restored, bytes)
            &&& bytes.len() > 0 && bytes.last() == 0
            &&& outcome == Ok::<Seq<u8>, Failure>(unterminated(bytes))
        }
}

/// Whether generating code can have ended in `outcome`: the machine for `triple` is made, the
/// module is read and set to the machine's triple, the passes are run over it if there are any,
/// and the code is written. The first step that is refused decides the failure.
pub open spec fn compile_outcome(
    bitcode: Seq<u8>,
    triple: Seq<char>,
    passes: Option<Seq<char>>,
    format: CodeFormat,
    outcome: Result<Seq<u8>, Failure>,
) -> bool {
    exists|made: Result<TargetMachine, Failure>| #[trigger]
        machine_outcome(triple, made) && match made {
            Err(failure) => outcome == Err::<Seq<u8>, Failure>(failure),
            Ok(machine) => exists|parsed: Result<Module<'_>, Failure>| #[trigger]
                parse_outcome(bitcode, parsed) && match parsed {
                    Err(failure) => outcome == Err::<Seq<u8>, Failure>(failure),
                    Ok(module) => compile_parsed_outcome(machine, module, passes, format, outcome),
                },
        }
}

/// Whether setting `module` to the machine's triple, running `passes`, if there are any, over it
/// and writing its code can have ended in `outcome`.
pub open spec fn compile_parsed_outcome(
    machine: TargetMachine,
    module: Module<'_>,
    passes: Option<Seq<char>>,
    format: CodeFormat,
    outcome: Result<Seq<u8>, Failure>,
) -> bool {
    exists|set: Module<'_>|
        {
            &&& #[trigger] module_retargeted(module, machine_triple(machine), set)
            &&& module_triple(set) == machine_triple(machine)
            &&& compile_module_outcome(machine, set, passes, format, outcome)
        }
}

/// Whether running `passes`, if there are any, over `module` and writing its code can have ended
/// in `outcome`.
pub open spec fn compile_module_outcome(
    machine: TargetMachine,
    module: Module<'_>,
    passes: Option<Seq<char>>,
    format: CodeFormat,
    outcome: Result<Seq<u8>, Failure>,
) -> bool {
    exists|ran: Result<(), Failure>, passed: Module<'_>| #[trigger]
        run_any_outcome(module, machine, passes, ran, passed) && match ran {
            Err(failure) => outcome == Err::<Seq<u8>, Failure>(failure),
            Ok(_) => emit_outcome(machine, passed, format, outcome),
        }
}

/// Whether writing the code of `module` can have ended in `outcome`.
pub open spec fn emit_outcome(
    machine: TargetMachine,
    module: Module<'_>,
    format: CodeFormat,
    outcome: Result<Seq<u8>, Failure>,
) -> bool {
    exists|reply: Result<MemoryBuffer<'_>, LLVMString>| #[trigger]
        code_reply(machine, module, format.file_type(), reply) && match reply {
            Ok(buffer) => {
                &&& buffer_bytes(buffer).len() > 0 && buffer_bytes(buffer).last() == 0
                &&& outcome == Ok::<Seq<u8>, Failure>(unterminated(buffer_bytes(buffer)))
            },
            Err(message) => outcome == Err::<Seq<u8>, Failure>(
                Stage::Emit.refused(llvm_text(message)),
            ),
        }
}

/// The outcome of code generation with the bytes and the failure by their views.
pub open spec fn outcome_of(result: Result<Vec<u8>, Error>) -> Result<Seq<u8>, Failure> {
    match result {
        Ok(bytes) => Ok(bytes@),
        Err(error) => Err(error@),
    }
}

/// Makes the targets that code is generated for known to LLVM.
fn initialise_targets()
    ensures
        targets_initialised(),
{
    let configuration = initialization_config();
    initialise_x86(&configuration);
    initialise_aarch64(&configuration);
    initialise_arm(&configuration);
    initialise_mips(&configuration);
    initialise_system_z(&configuration);
}

/// The machine that code for `triple` is generated with.
fn machine(triple: &str) -> (made: Result<TargetMachine, Error>)
    ensures
        match made {
            Ok(machine) => machine_outcome(triple@, Ok(machine)),
            Err(error) => machine_outcome(triple@, Err(error@)),
        },
{
    initialise_targets();
    let triple = target_triple(triple);
    let target = match target_from_triple(&triple) {
        Ok(target) => target,
        Err(message) => {
            return Err(Stage::Target.refusal(message_text(&message).as_str()));
        },
    };
    match create_target_machine(
        &target,
        &triple,
        "generic",
        "",
        OptimizationLevel::Default,
        RelocMode::PIC,
        CodeModel::Default,
    ) {
        Some(machine) => Ok(machine),
        None => Err(Error::codegen("the triple has no target machine".to_owned())),
    }
}

/// `bitcode` with a NUL at the end, as LLVM's buffers have it.
pub fn terminated(bitcode: &[u8]) -> (bytes: Vec<u8>)
    ensures
        bytes@ == bitcode@.push(0),
{
    let mut bytes: Vec<u8> = Vec::new();
    bytes.extend_from_slice(bitcode);
    assert(bytes@ == bitcode@);
    bytes.push(0);
    bytes
}

/// `bytes` without the NUL that LLVM's buffers have at the end.
pub fn without_terminator(bytes: &[u8]) -> (content: Vec<u8>)
    ensures
        content@ == unterminated(bytes@),
{
    let mut content: Vec<u8> = Vec::new();
    content.extend_from_slice(bytes);
    assert(content@ == bytes@);
    content.pop();
    content
}

/// Reads a module.
fn parse<'ctx>(bitcode: &[u8], context: &'ctx Context) -> (parsed: Result<Module<'ctx>, Error>)
    ensures
        match parsed {
            Ok(module) => parse_outcome(bitcode@, Ok(module)),
            Err(error) => parse_outcome(bitcode@, Err(error@)),
        },
{
    let bytes = terminated(bitcode);
    proof {
        reveal_strlit("module");
        until_nul_of_nul_free("module"@);
    }
    let buffer = memory_buffer(bytes.as_slice(), "module");
    match parse_bitcode(&buffer, context) {
        Ok(module) => Ok(module),
        Err(message) => Err(Stage::Parse.refusal(message_text(&message).as_str())),
    }
}

/// Runs `passes` over `module`.
fn run(module: &mut Module<'_>, machine: &TargetMachine, passes: &str) -> (ran: Result<(), Error>)
    ensures
        match ran {
            Ok(_) => run_outcome(*old(module), *machine, passes@, Ok(()), *final(module)),
            Err(error) => run_outcome(
                *old(module),
                *machine,
                passes@,
                Err(error@),
                *final(module),
            ),
        },
{
    match run_module_passes(module, passes, machine, pass_builder_options()) {
        Ok(_) => Ok(()),
        Err(message) => Err(Stage::Passes.refusal(message_text(&message).as_str())),
    }
}

/// Runs `passes`, if there are any, over `module`.
fn run_any(module: &mut Module<'_>, machine: &TargetMachine, passes: Option<&str>) -> (ran: Result<
    (),
    Error,
>)
    ensures
        match ran {
            Ok(_) => run_any_outcome(
                *old(module),
                *machine,
                characters(passes),
                Ok(()),
                *final(module),
            ),
            Err(error) => run_any_outcome(
                *old(module),
                *machine,
                characters(passes),
                Err(error@),
                *final(module),
            ),
        },
{
    match passes {
        Some(passes) => run(module, machine, passes),
        None => Ok(()),
    }
}

/// Runs `passes` over the module in `bitcode`, for the target of `triple`, and gives the bitcode
/// of what they leave. The module keeps the triple it came with.
pub fn optimise(bitcode: &[u8], triple: &str, passes: &str) -> (optimised: Result<Vec<u8>, Error>)
    ensures
        optimise_outcome(bitcode@, triple@, passes@, outcome_of(optimised)),
{
    let machine = match machine(triple) {
        Ok(machine) => machine,
        Err(error) => {
            return Err(error);
        },
    };
    let context = create_context();
    let mut module = match parse(bitcode, &context) {
        Ok(module) => module,
        Err(error) => {
            return Err(error);
        },
    };
    let original = triple_of_module(&module);
    let ghost parsed = module;
    match run(&mut module, &machine, passes) {
        Ok(_) => {},
        Err(error) => {
            assert(optimise_module_outcome(machine, parsed, passes@, Err(error@)));
            return Err(error);
        },
    }
    let ghost passed = module;
    set_module_triple(&mut module, &original);
    let buffer = write_bitcode(&module);
    let bytes = without_terminator(bytes_of_buffer(&buffer));
    assert(rewritten(passed, module_triple(parsed), Ok(bytes@)));
    assert(optimise_module_outcome(machine, parsed, passes@, Ok(bytes@)));
    Ok(bytes)
}

/// Generates code for the module in `bitcode`, for the target of `triple`, after running `passes`
/// over it if there are any.
pub fn compile(
    bitcode: &[u8],
    triple: &str,
    passes: Option<&str>,
    format: CodeFormat,
) -> (compiled: Result<Vec<u8>, Error>)
    ensures
        compile_outcome(
            bitcode@,
            triple@,
            characters(passes),
            format,
            outcome_of(compiled),
        ),
{
    let machine = match machine(triple) {
        Ok(machine) => machine,
        Err(error) => {
            return Err(error);
        },
    };
    let context = create_context();
    let mut module = match parse(bitcode, &context) {
        Ok(module) => module,
        Err(error) => {
            return Err(error);
        },
    };
    let ghost parsed = module;
    let target = triple_of_machine(&machine);
    set_module_triple(&mut module, &target);
    let ghost set = module;
    match run_any(&mut module, &machine, passes) {
        Ok(_) => {},
        Err(error) => {
            assert(compile_module_outcome(machine, set, characters(passes), format, Err(error@)));
            assert(compile_parsed_outcome(machine, parsed, characters(passes), format, Err(error@)));
            return Err(error);
        },
    }
    let ghost passed = module;
    let compiled = match write_code(&machine, &mut module, format.to_file_type()) {
        Ok(buffer) => Ok(without_terminator(bytes_of_buffer(&buffer))),
        Err(message) => Err(Stage::Emit.refusal(message_text(&message).as_str())),
    };
    assert(emit_outcome(machine, passed, format, outcome_of(compiled)));
    assert(compile_module_outcome(machine, set, characters(passes), format, outcome_of(compiled)));
    assert(compile_parsed_outcome(
        machine,
        parsed,
        characters(passes),
        format,
        outcome_of(compiled),
    ));
    compiled
}

/// What the terminator is taken from is what it was put behind.
pub proof fn terminator_comes_off(bitcode: Seq<u8>)
    ensures
        unterminated(bitcode.push(0)) == bitcode,
{
    assert(bitcode.push(0).drop_last() == bitcode);
}

/// What optimising gives is the bitcode of the module that was read, after the passes were run over
/// it once, for the machine of `triple`, and with the triple that it came with, whatever `triple`
/// is.
pub proof fn optimising_keeps_the_triple(
    bitcode: Seq<u8>,
    triple: Seq<char>,
    passes: Seq<char>,
    optimised: Seq<u8>,
)
    requires
        optimise_outcome(bitcode, triple, passes, Ok(optimised)),
    ensures
        exists|
            machine: TargetMachine,
            module: Module<'_>,
            passed: Module<'_>,
            written: Module<'_>,
            bytes: Seq<u8>,
        |
            {
                &&& #[trigger] machine_outcome(triple, Ok(machine))
                &&& #[trigger] parse_outcome(bitcode, Ok(module))
                &&& #[trigger] run_outcome(module, machine, passes, Ok(()), passed)
                &&& #[trigger] module_retargeted(passed, module_triple(module), written)
                &&& module_triple(written) == module_triple(module)
                &&& #[trigger] bitcode_reply(written, bytes)
                &&& optimised == unterminated(bytes)
            },
{
}

/// What optimising gives can be read again: LLVM is then given the very bytes that it has written,
/// with the terminator that was taken off.
pub proof fn optimised_bitcode_is_handed_back_whole(
    bitcode: Seq<u8>,
    triple: Seq<char>,
    passes: Seq<char>,
    optimised: Seq<u8>,
    again: Result<Module<'_>, Failure>,
)
    requires
        optimise_outcome(bitcode, triple, passes, Ok(optimised)),
        parse_outcome(optimised, again),
    ensures
        exists|
            written: Module<'_>,
            bytes: Seq<u8>,
            context: Context,
            reply: Result<Module<'_>, LLVMString>,
        |
            {
                &&& #[trigger] bitcode_reply(written, bytes)
                &&& optimised.push(0) == bytes
                &&& #[trigger] module_reply(bytes, "module"@, context, reply)
                &&& again is Ok <==> reply is Ok
            },
{
    let (written, bytes) = choose|written: Module<'_>, bytes: Seq<u8>|
        {
            &&& #[trigger] bitcode_reply(written, bytes)
            &&& bytes.len() > 0 && bytes.last() == 0
            &&& optimised == unterminated(bytes)
        };
    assert(optimised.push(0) == bytes);
}

/// A text is taken up to its first NUL character, and without it.
pub proof fn until_nul_stops_at_the_first(text: Seq<char>, first: int)
    requires
        0 <= first < text.len(),
        text[first] == '\0',
        forall|i: int| 0 <= i < first ==> text[i] != '\0',
    ensures
        until_nul(text) == text.take(first),
    decreases first,
{
    if first > 0 {
        let rest = text.drop_first();
        until_nul_stops_at_the_first(rest, first - 1);
        assert(seq![text[0]] + rest.take(first - 1) == text.take(first));
    } else {
        assert(text.take(0) == Seq::<char>::empty());
    }
}

/// A machine that was made is one that LLVM made for the bytes of the triple, from the target that
/// it found for the same bytes, for a generic processor without features, with the usual level of
/// optimisation, position-independent code and the usual code model. All parts of the targets were
/// made known to LLVM.
pub proof fn machine_is_made_for_the_triple(triple: Seq<char>, machine: TargetMachine)
    requires
        machine_outcome(triple, Ok(machine)),
    ensures
        exists|target: Target|
            {
                &&& #[trigger] target_reply(encode_utf8(until_nul(triple)), Ok(target))
                &&& machine_reply(
                    target,
                    encode_utf8(until_nul(triple)),
                    "generic"@,
                    ""@,
                    OptimizationLevel::Default,
                    RelocMode::PIC,
                    CodeModel::Default,
                    Some(machine),
                )
            },
        forall|configuration: InitializationConfig|
            configuration.asm_parser && configuration.asm_printer && configuration.base
                && configuration.disassembler && configuration.info && configuration.machine_code
                ==> {
                &&& #[trigger] x86_initialised(configuration, ())
                &&& aarch64_initialised(configuration, ())
                &&& arm_initialised(configuration, ())
                &&& mips_initialised(configuration, ())
                &&& system_z_initialised(configuration, ())
            },
{
    assert forall|configuration: InitializationConfig|
        configuration.asm_parser && configuration.asm_printer && configuration.base
            && configuration.disassembler && configuration.info
            && configuration.machine_code implies {
        &&& #[trigger] x86_initialised(configuration, ())
        &&& aarch64_initialised(configuration, ())
        &&& arm_initialised(configuration, ())
        &&& mips_initialised(configuration, ())
        &&& system_z_initialised(configuration, ())
    } by {
        assert(configuration == everything());
    }
}

/// Where no machine was made, LLVM has refused the triple, or has a target for it but no machine;
/// the failure says which.
pub proof fn machine_is_refused_by_llvm(triple: Seq<char>, failure: Failure)
    requires
        machine_outcome(triple, Err(failure)),
    ensures
        (exists|message: LLVMString| #[trigger]
            target_reply(encode_utf8(until_nul(triple)), Err(message)) && failure
                == Failure::Codegen("unknown target triple: "@ + llvm_text(message))) || (exists|
            target: Target,
        |
            {
                &&& #[trigger] target_reply(encode_utf8(until_nul(triple)), Ok(target))
                &&& machine_reply(
                    target,
                    encode_utf8(until_nul(triple)),
                    "generic"@,
                    ""@,
                    OptimizationLevel::Default,
                    RelocMode::PIC,
                    CodeModel::Default,
                    None,
                )
                &&& failure == Failure::Codegen("the triple has no target machine"@)
            }),
{
}

/// A module that was read is the one that LLVM has parsed from the bitcode with a NUL behind it.
pub proof fn module_is_read_from_the_bitcode(bitcode: Seq<u8>, module: Module<'_>)
    requires
        parse_outcome(bitcode, Ok(module)),
    ensures
        exists|context: Context| #[trigger]
            module_reply(bitcode.push(0), "module"@, context, Ok(module)),
{
}

/// Where no module was read, LLVM has refused the bitcode with a NUL behind it, and the failure has
/// LLVM's message.
pub proof fn module_is_refused_by_llvm(bitcode: Seq<u8>, failure: Failure)
    requires
        parse_outcome(bitcode, Err::<Module<'_>, Failure>(failure)),
    ensures
        exists|context: Context, message: LLVMString| #[trigger]
            module_reply(
                bitcode.push(0),
                "module"@,
                context,
                Err::<Module<'_>, LLVMString>(message),
            ) && failure == Failure::Codegen("the module does not parse: "@ + llvm_text(message)),
{
}

/// What passes leave of a module is what LLVM has left of it when it ran exactly these passes, for
/// this machine, with the options that it makes; where they fail, the failure has LLVM's message.
pub proof fn passes_are_run_as_given(
    before: Module<'_>,
    machine: TargetMachine,
    passes: Seq<char>,
    outcome: Result<(), Failure>,
    after: Module<'_>,
)
    requires
        run_outcome(before, machine, passes, outcome, after),
    ensures
        match outcome {
            Ok(_) => exists|options: PassBuilderOptions|
                options_created(options) && #[trigger] passes_reply(
                    before,
                    passes,
                    machine,
                    options,
                    Ok(()),
                    after,
                ),
            Err(failure) => exists|options: PassBuilderOptions, message: LLVMString|
                {
                    &&& options_created(options)
                    &&& #[trigger] passes_reply(
                        before,
                        passes,
                        machine,
                        options,
                        Err(message),
                        after,
                    )
                    &&& failure == Failure::Codegen(
                        "the pass pipeline failed: "@ + llvm_text(message),
                    )
                },
        },
{
    match outcome {
        Ok(_) => {
            let (options, reply) = choose|
                options: PassBuilderOptions,
                reply: Result<(), LLVMString>,
            |
                {
                    &&& options_created(options)
                    &&& #[trigger] passes_reply(before, passes, machine, options, reply, after)
                    &&& reply is Ok
                };
            assert(reply is Ok);
            assert(reply->Ok_0 == ());
            assert(reply == Ok::<(), LLVMString>(()));
        },
        Err(_) => {},
    }
}

/// Bytes that optimising has given are, with a NUL behind them, the bitcode that LLVM has written of
/// the module that it parsed from the bitcode, after it ran exactly the passes that were given, once,
/// for the machine that it made for the triple; the module then had the triple back that it came
/// with.
pub proof fn optimising_runs_the_given_passes(
    bitcode: Seq<u8>,
    triple: Seq<char>,
    passes: Seq<char>,
    optimised: Vec<u8>,
)
    requires
        optimise_outcome(bitcode, triple, passes, outcome_of(Ok(optimised))),
    ensures
        exists|
            target: Target,
            machine: TargetMachine,
            context: Context,
            module: Module<'_>,
            options: PassBuilderOptions,
            passed: Module<'_>,
            written: Module<'_>,
        |
            {
                &&& #[trigger] target_reply(encode_utf8(until_nul(triple)), Ok(target))
                &&& #[trigger] machine_reply(
                    target,
                    encode_utf8(until_nul(triple)),
                    "generic"@,
                    ""@,
                    OptimizationLevel::Default,
                    RelocMode::PIC,
                    CodeModel::Default,
                    Some(machine),
                )
                &&& #[trigger] module_reply(bitcode.push(0), "module"@, context, Ok(module))
                &&& options_created(options)
                &&& #[trigger] passes_reply(module, passes, machine, options, Ok(()), passed)
                &&& #[trigger] module_retargeted(passed, module_triple(module), written)
                &&& module_triple(written) == module_triple(module)
                &&& #[trigger] bitcode_reply(written, optimised@.push(0))
            },
{
    let outcome = Ok::<Seq<u8>, Failure>(optimised@);
    let made = choose|made: Result<TargetMachine, Failure>| #[trigger]
        machine_outcome(triple, made) && match made {
            Err(failure) => outcome == Err::<Seq<u8>, Failure>(failure),
            Ok(machine) => exists|parsed: Result<Module<'_>, Failure>| #[trigger]
                parse_outcome(bitcode, parsed) && match parsed {
                    Err(failure) => outcome == Err::<Seq<u8>, Failure>(failure),
                    Ok(module) => optimise_module_outcome(machine, module, passes, outcome),
                },
        };
    let machine = made->Ok_0;
    let parsed = choose|parsed: Result<Module<'_>, Failure>| #[trigger]
        parse_outcome(bitcode, parsed) && match parsed {
            Err(failure) => outcome == Err::<Seq<u8>, Failure>(failure),
            Ok(module) => optimise_module_outcome(machine, module, passes, outcome),
        };
    let module = parsed->Ok_0;
    let (ran, passed) = choose|ran: Result<(), Failure>, passed: Module<'_>| #[trigger]
        run_outcome(module, machine, passes, ran, passed) && match ran {
            Err(failure) => outcome == Err::<Seq<u8>, Failure>(failure),
            Ok(_) => rewritten(passed, module_triple(module), outcome),
        };
    let (written, bytes) = choose|written: Module<'_>, bytes: Seq<u8>|
        {
            &&& #[trigger] module_retargeted(passed, module_triple(module), written)
            &&& module_triple(written) == module_triple(module)
            &&& #[trigger] bitcode_reply(written, bytes)
            &&& bytes.len() > 0 && bytes.last() == 0
            &&& outcome == Ok::<Seq<u8>, Failure>(unterminated(bytes))
        };
    assert(optimised@.push(0) == bytes);
    machine_is_made_for_the_triple(triple, machine);
    module_is_read_from_the_bitcode(bitcode, module);
    passes_are_run_as_given(module, machine, passes, ran, passed);
}

/// Where optimising fails, LLVM has refused the triple, has no machine for it, does not parse the
/// bitcode, or has failed in running the passes that were given; the first of these that holds is
/// the one that is reported, with LLVM's message.
pub proof fn optimising_fails_as_llvm_says(
    bitcode: Seq<u8>,
    triple: Seq<char>,
    passes: Seq<char>,
    error: Error,
)
    requires
        optimise_outcome(bitcode, triple, passes, outcome_of(Err(error))),
    ensures
        error is Codegen,
        machine_outcome(triple, Err(Failure::Codegen(error->Codegen_0@))) || (exists|
            machine: TargetMachine,
        | #[trigger]
            machine_outcome(triple, Ok(machine)) && parse_outcome(
                bitcode,
                Err::<Module<'_>, Failure>(Failure::Codegen(error->Codegen_0@)),
            )) || (exists|
            machine: TargetMachine,
            module: Module<'_>,
            options: PassBuilderOptions,
            message: LLVMString,
            after: Module<'_>,
        |
            {
                &&& #[trigger] machine_outcome(triple, Ok(machine))
                &&& #[trigger] parse_outcome(bitcode, Ok(module))
                &&& options_created(options)
                &&& #[trigger] passes_reply(
                    module,
                    passes,
                    machine,
                    options,
                    Err(message),
                    after,
                )
                &&& error->Codegen_0@ == "the pass pipeline failed: "@ + llvm_text(message)
            }),
{
    let outcome = Err::<Seq<u8>, Failure>(error@);
    let made = choose|made: Result<TargetMachine, Failure>| #[trigger]
        machine_outcome(triple, made) && match made {
            Err(failure) => outcome == Err::<Seq<u8>, Failure>(failure),
            Ok(machine) => exists|parsed: Result<Module<'_>, Failure>| #[trigger]
                parse_outcome(bitcode, parsed) && match parsed {
                    Err(failure) => outcome == Err::<Seq<u8>, Failure>(failure),
                    Ok(module) => optimise_module_outcome(machine, module, passes, outcome),
                },
        };
    match made {
        Err(failure) => {
            machine_is_refused_by_llvm(triple, failure);
        },
        Ok(machine) => {
            let parsed = choose|parsed: Result<Module<'_>, Failure>| #[trigger]
                parse_outcome(bitcode, parsed) && match parsed {
                    Err(failure) => outcome == Err::<Seq<u8>, Failure>(failure),
                    Ok(module) => optimise_module_outcome(machine, module, passes, outcome),
                };
            match parsed {
                Err(failure) => {
                    module_is_refused_by_llvm(bitcode, failure);
                },
                Ok(module) => {
                    let (ran, passed) = choose|ran: Result<(), Failure>, passed: Module<'_>| #[trigger]
                        run_outcome(module, machine, passes, ran, passed) && match ran {
                            Err(failure) => outcome == Err::<Seq<u8>, Failure>(failure),
                            Ok(_) => rewritten(passed, module_triple(module), outcome),
                        };
                    passes_are_run_as_given(module, machine, passes, ran, passed);
                },
            }
        },
    }
}

/// Bytes that generating code has given are, with a NUL behind them, those that LLVM has written for
/// the machine that it made for the triple: as assembly where assembly was asked for, as an object
/// file where that was. They are written of the module that LLVM parsed from the bitcode, set to the
/// machine's triple, after exactly the passes that were given, if any were, ran over it once.
pub proof fn compiling_writes_the_given_format(
    bitcode: Seq<u8>,
    triple: Seq<char>,
    passes: Option<&str>,
    format: CodeFormat,
    compiled: Vec<u8>,
)
    requires
        compile_outcome(bitcode, triple, characters(passes), format, outcome_of(Ok(compiled))),
    ensures
        exists|
            target: Target,
            machine: TargetMachine,
            context: Context,
            module: Module<'_>,
            set: Module<'_>,
            passed: Module<'_>,
            kind: FileType,
            buffer: MemoryBuffer<'_>,
        |
            {
                &&& #[trigger] target_reply(encode_utf8(until_nul(triple)), Ok(target))
                &&& #[trigger] machine_reply(
                    target,
                    encode_utf8(until_nul(triple)),
                    "generic"@,
                    ""@,
                    OptimizationLevel::Default,
                    RelocMode::PIC,
                    CodeModel::Default,
                    Some(machine),
                )
                &&& #[trigger] module_reply(bitcode.push(0), "module"@, context, Ok(module))
                &&& #[trigger] module_retargeted(module, machine_triple(machine), set)
                &&& module_triple(set) == machine_triple(machine)
                &&& match passes {
                    Some(passes) => exists|options: PassBuilderOptions|
                        options_created(options) && #[trigger] passes_reply(
                            set,
                            passes@,
                            machine,
                            options,
                            Ok(()),
                            passed,
                        ),
                    None => passed == set,
                }
                &&& #[trigger] code_reply(machine, passed, kind, Ok(buffer))
                &&& format == CodeFormat::Assembly ==> kind == FileType::Assembly
                &&& format == CodeFormat::Object ==> kind == FileType::Object
                &&& buffer_bytes(buffer) == compiled@.push(0)
            },
{
    let outcome = Ok::<Seq<u8>, Failure>(compiled@);
    let wanted = characters(passes);
    let made = choose|made: Result<TargetMachine, Failure>| #[trigger]
        machine_outcome(triple, made) && match made {
            Err(failure) => outcome == Err::<Seq<u8>, Failure>(failure),
            Ok(machine) => exists|parsed: Result<Module<'_>, Failure>| #[trigger]
                parse_outcome(bitcode, parsed) && match parsed {
                    Err(failure) => outcome == Err::<Seq<u8>, Failure>(failure),
                    Ok(module) => compile_parsed_outcome(machine, module, wanted, format, outcome),
                },
        };
    let machine = made->Ok_0;
    let parsed = choose|parsed: Result<Module<'_>, Failure>| #[trigger]
        parse_outcome(bitcode, parsed) && match parsed {
            Err(failure) => outcome == Err::<Seq<u8>, Failure>(failure),
            Ok(module) => compile_parsed_outcome(machine, module, wanted, format, outcome),
        };
    let module = parsed->Ok_0;
    let set = choose|set: Module<'_>|
        {
            &&& #[trigger] module_retargeted(module, machine_triple(machine), set)
            &&& module_triple(set) == machine_triple(machine)
            &&& compile_module_outcome(machine, set, wanted, format, outcome)
        };
    let (ran, passed) = choose|ran: Result<(), Failure>, passed: Module<'_>| #[trigger]
        run_any_outcome(set, machine, wanted, ran, passed) && match ran {
            Err(failure) => outcome == Err::<Seq<u8>, Failure>(failure),
            Ok(_) => emit_outcome(machine, passed, format, outcome),
        };
    let kind = match format {
        CodeFormat::Assembly => FileType::Assembly,
        CodeFormat::Object => FileType::Object,
    };
    let reply = choose|reply: Result<MemoryBuffer<'_>, LLVMString>|
        {
            &&& #[trigger] code_reply(machine, passed, kind, reply)
            &&& reply matches Ok(buffer) && buffer_bytes(buffer).len() > 0 && buffer_bytes(
                buffer,
            ).last() == 0 && compiled@ == unterminated(buffer_bytes(buffer))
        };
    let buffer = reply->Ok_0;
    assert(code_reply(machine, passed, kind, Ok(buffer)));
    assert(buffer_bytes(buffer) == compiled@.push(0));
    machine_is_made_for_the_triple(triple, machine);
    module_is_read_from_the_bitcode(bitcode, module);
    match passes {
        Some(passes) => {
            passes_are_run_as_given(set, machine, passes@, ran, passed);
        },
        None => {},
    }
}

/// Where generating code fails, LLVM has refused the triple, has no machine for it, does not parse
/// the bitcode, has failed in running the passes that were given, or has failed in writing code of
/// the format that was asked for; the first of these that holds is the one that is reported, with
/// LLVM's message.
pub proof fn compiling_fails_as_llvm_says(
    bitcode: Seq<u8>,
    triple: Seq<char>,
    passes: Option<&str>,
    format: CodeFormat,
    error: Error,
)
    requires
        compile_outcome(bitcode, triple, characters(passes), format, outcome_of(Err(error))),
    ensures
        error is Codegen,
        machine_outcome(triple, Err(Failure::Codegen(error->Codegen_0@))) || (exists|
            machine: TargetMachine,
        | #[trigger]
            machine_outcome(triple, Ok(machine)) && parse_outcome(
                bitcode,
                Err::<Module<'_>, Failure>(Failure::Codegen(error->Codegen_0@)),
            )) || (exists|
            machine: TargetMachine,
            module: Module<'_>,
            set: Module<'_>,
            options: PassBuilderOptions,
            message: LLVMString,
            after: Module<'_>,
        |
            {
                &&& #[trigger] machine_outcome(triple, Ok(machine))
                &&& #[trigger] parse_outcome(bitcode, Ok(module))
                &&& #[trigger] module_retargeted(module, machine_triple(machine), set)
                &&& options_created(options)
                &&& passes is Some
                &&& #[trigger] passes_reply(
                    set,
                    passes->0@,
                    machine,
                    options,
                    Err(message),
                    after,
                )
                &&& error->Codegen_0@ == "the pass pipeline failed: "@ + llvm_text(message)
            }) || (exists|
            machine: TargetMachine,
            module: Module<'_>,
            set: Module<'_>,
            passed: Module<'_>,
            kind: FileType,
            message: LLVMString,
        |
            {
                &&& #[trigger] machine_outcome(triple, Ok(machine))
                &&& #[trigger] parse_outcome(bitcode, Ok(module))
                &&& #[trigger] module_retargeted(module, machine_triple(machine), set)
                &&& match passes {
                    Some(passes) => exists|options: PassBuilderOptions|
                        options_created(options) && #[trigger] passes_reply(
                            set,
                            passes@,
                            machine,
                            options,
                            Ok(()),
                            passed,
                        ),
                    None => passed == set,
                }
                &&& #[trigger] code_reply(
                    machine,
                    passed,
                    kind,
                    Err::<MemoryBuffer<'_>, LLVMString>(message),
                )
                &&& format == CodeFormat::Assembly ==> kind == FileType::Assembly
                &&& format == CodeFormat::Object ==> kind == FileType::Object
                &&& error->Codegen_0@ == "writing the machine code failed: "@ + llvm_text(message)
            }),
{
    let outcome = Err::<Seq<u8>, Failure>(error@);
    let wanted = characters(passes);
    let made = choose|made: Result<TargetMachine, Failure>| #[trigger]
        machine_outcome(triple, made) && match made {
            Err(failure) => outcome == Err::<Seq<u8>, Failure>(failure),
            Ok(machine) => exists|parsed: Result<Module<'_>, Failure>| #[trigger]
                parse_outcome(bitcode, parsed) && match parsed {
                    Err(failure) => outcome == Err::<Seq<u8>, Failure>(failure),
                    Ok(module) => compile_parsed_outcome(machine, module, wanted, format, outcome),
                },
        };
    match made {
        Err(failure) => {
            machine_is_refused_by_llvm(triple, failure);
        },
        Ok(machine) => {
            let parsed = choose|parsed: Result<Module<'_>, Failure>| #[trigger]
                parse_outcome(bitcode, parsed) && match parsed {
                    Err(failure) => outcome == Err::<Seq<u8>, Failure>(failure),
                    Ok(module) => compile_parsed_outcome(machine, module, wanted, format, outcome),
                };
            match parsed {
                Err(failure) => {
                    module_is_refused_by_llvm(bitcode, failure);
                },
                Ok(module) => {
                    let set = choose|set: Module<'_>|
                        {
                            &&& #[trigger] module_retargeted(module, machine_triple(machine), set)
                            &&& compile_module_outcome(machine, set, wanted, format, outcome)
                        };
                    let (ran, passed) = choose|ran: Result<(), Failure>, passed: Module<'_>| #[trigger]
                        run_any_outcome(set, machine, wanted, ran, passed) && match ran {
                            Err(failure) => outcome == Err::<Seq<u8>, Failure>(failure),
                            Ok(_) => emit_outcome(machine, passed, format, outcome),
                        };
                    if passes is Some {
                        passes_are_run_as_given(set, machine, wanted->0, ran, passed);
                    }
                    if ran is Ok {
                        let kind = match format {
                            CodeFormat::Assembly => FileType::Assembly,
                            CodeFormat::Object => FileType::Object,
                        };
                        assert(exists|message: LLVMString| #[trigger]
                            code_reply(
                                machine,
                                passed,
                                kind,
                                Err::<MemoryBuffer<'_>, LLVMString>(message),
                            ));
                    }
                },
            }
        },
    }
}

} // verus!
