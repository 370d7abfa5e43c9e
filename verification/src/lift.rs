//! What lifting works from, and what it leaves behind.

use std::rc::Rc;

use inkwell::module::Module;
use inkwell::support::LLVMString;
use rustc_hash::{FxHashMap, FxHashSet};
use vstd::prelude::*;

use crate::address::first_entry;
#[allow(unused_imports)]
use crate::address::entry_read;
use crate::architecture::Architecture;
use crate::binary::Binary;
#[allow(unused_imports)]
use crate::codegen::llvm_text;
use crate::codegen::message_text;
use crate::output::Untranslated;
use crate::text::escape_nul;
#[allow(unused_imports)]
use crate::text::{nul_escaped, nul_free};

verus! {

/// What a run of the lifter found.
#[derive(Debug)]
pub struct Lift {
    /// The functions that were called.
    pub callees: FxHashSet<u64>,
    /// The functions that were lifted.
    pub lifted: FxHashSet<u64>,
    /// The instructions that were left out.
    pub untranslated: Vec<Untranslated>,
}

/// How a run of the lifter ended.
#[derive(Debug)]
pub enum LiftOutcome {
    /// Nothing could be lifted.
    Failed { message: String },
    /// The lifted module is not well formed.
    Unverified { lift: Lift, message: String },
    /// The lifted module is well formed, and this is its text.
    Verified { lift: Lift, llvm_ir: String },
}

/// What the lifter works from, and what its last run left behind. revng asks for a run whenever it
/// needs the lifted module, so there can be several.
#[derive(Debug)]
pub struct LiftContext {
    pub binary: Rc<Binary>,
    pub architecture: Architecture,
    /// The address that the analysis was asked for.
    pub entry: u64,
    /// The names of the imports, by address.
    pub imports: FxHashMap<u64, String>,
    /// The last error; it can be handed over as a C string.
    pub error: String,
    /// The text of the last module that was well formed.
    pub llvm_ir: String,
    /// The functions that the last run found called.
    pub functions: FxHashSet<u64>,
    /// The functions that the last run lifted.
    pub lifted: FxHashSet<u64>,
    /// The instructions that the last run left out.
    pub untranslated: Vec<Untranslated>,
    /// How many levels of calls to follow, where there is a limit.
    pub max_depth: Option<u32>,
}

/// `Module::verify` answered `reply` for `module`.
pub uninterp spec fn verify_reply(module: Module<'_>, reply: Result<(), LLVMString>) -> bool;

/// `Module::print_to_string` answered `text` for `module`.
pub uninterp spec fn print_reply(module: Module<'_>, text: LLVMString) -> bool;

/// The text that `LLVMString::to_string` gives.
pub uninterp spec fn plain_text(text: LLVMString) -> Seq<char>;

/// inkwell's `Module::verify`: whether the module is well formed is for LLVM to say.
#[verifier::external_body]
fn verify_module(module: &Module<'_>) -> (reply: Result<(), LLVMString>)
    ensures
        verify_reply(*module, reply),
{
    module.verify()
}

/// inkwell's `Module::print_to_string`: the text is for LLVM to say.
#[verifier::external_body]
fn print_module(module: &Module<'_>) -> (text: LLVMString)
    ensures
        print_reply(*module, text),
{
    module.print_to_string()
}

/// inkwell's `LLVMString::to_string`: the characters, without the quotes and escapes with which it
/// is displayed; bytes that are no UTF-8 are replaced.
#[verifier::external_body]
fn text_of(text: &LLVMString) -> (characters: String)
    ensures
        characters@ == plain_text(*text),
{
    text.to_string()
}

/// Whether a run of the lifter can have ended in `outcome`, with `lift` what it has found in filling
/// `module`, or why it has not filled it.
pub open spec fn lift_outcome(
    lift: Result<Lift, String>,
    module: Module<'_>,
    outcome: LiftOutcome,
) -> bool {
    match lift {
        Err(message) => outcome == (LiftOutcome::Failed { message }),
        Ok(lift) => exists|reply: Result<(), LLVMString>| #[trigger]
            verify_reply(module, reply) && match reply {
                Err(refusal) => outcome matches LiftOutcome::Unverified { lift: found, message }
                    && found == lift && message@ == llvm_text(refusal),
                Ok(_) => outcome matches LiftOutcome::Verified { lift: found, llvm_ir }
                    && found == lift && printed_as(module, llvm_ir@),
            },
    }
}

/// Whether `module` can have been printed as `text`.
pub open spec fn printed_as(module: Module<'_>, text: Seq<char>) -> bool {
    exists|printed: LLVMString| #[trigger]
        print_reply(module, printed) && text == plain_text(printed)
}

/// How a run of the lifter has ended.
fn lift_ended(lift: Result<Lift, String>, module: &Module<'_>) -> (outcome: LiftOutcome)
    ensures
        lift_outcome(lift, *module, outcome),
{
    match lift {
        Err(message) => LiftOutcome::Failed { message },
        Ok(lift) => match verify_module(module) {
            Err(refusal) => LiftOutcome::Unverified { lift, message: message_text(&refusal) },
            Ok(_) => {
                let printed = print_module(module);
                let llvm_ir = text_of(&printed);
                assert(printed_as(*module, llvm_ir@));
                LiftOutcome::Verified { lift, llvm_ir }
            },
        },
    }
}

impl LiftContext {
    /// Whether two contexts have the same things to work from.
    pub open spec fn same_task(self, other: LiftContext) -> bool {
        &&& self.binary == other.binary
        &&& self.architecture == other.architecture
        &&& self.entry == other.entry
        &&& self.imports == other.imports
        &&& self.max_depth == other.max_depth
    }

    /// Whether two contexts hold the same findings of a run.
    pub open spec fn same_findings(self, other: LiftContext) -> bool {
        &&& self.functions == other.functions
        &&& self.lifted == other.lifted
        &&& self.untranslated == other.untranslated
    }

    /// Whether the context holds the findings of `lift`.
    pub open spec fn holds(self, lift: Lift) -> bool {
        &&& self.functions == lift.callees
        &&& self.lifted == lift.lifted
        &&& self.untranslated == lift.untranslated
    }

    /// The address to lift from: that of the first entry that revng asks for, or the one that the
    /// analysis was asked for.
    pub fn start(&self, first: Option<&str>) -> (address: u64)
        ensures
            address == match first {
                Some(text) => match entry_read(text@) {
                    Some(entry) => entry,
                    None => self.entry,
                },
                None => self.entry,
            },
    {
        match first_entry(first) {
            Some(entry) => entry,
            None => self.entry,
        }
    }

    /// Whether every call is followed.
    pub fn follows_every_call(&self) -> (every: bool)
        ensures
            every == (self.max_depth is None),
    {
        self.max_depth.is_none()
    }

    /// Notes an error, in a form that can be handed over as a C string, and gives the answer that
    /// reports it.
    pub fn fail(&mut self, message: &str) -> (answer: bool)
        ensures
            !answer,
            final(self).error@ == nul_escaped(message@),
            nul_free(final(self).error@),
            final(self).same_task(*old(self)),
            final(self).same_findings(*old(self)),
            final(self).llvm_ir == old(self).llvm_ir,
    {
        self.error = escape_nul(message);
        false
    }

    /// Takes over what a run of the lifter found.
    fn record(&mut self, lift: Lift)
        ensures
            final(self).holds(lift),
            final(self).same_task(*old(self)),
            final(self).error == old(self).error,
            final(self).llvm_ir == old(self).llvm_ir,
    {
        self.functions = lift.callees;
        self.lifted = lift.lifted;
        self.untranslated = lift.untranslated;
    }

    /// Whether taking over how a run of the lifter ended makes `after` of this context, and gives
    /// revng `answer`: whether there is a module. What the run found is kept even where the module
    /// is not well formed; the text of the module changes only where it is, the error only where it
    /// is not.
    pub open spec fn concludes(self, outcome: LiftOutcome, after: LiftContext, answer: bool) -> bool {
        &&& after.same_task(self)
        &&& match outcome {
            LiftOutcome::Failed { message } => {
                &&& !answer
                &&& after.error@ == nul_escaped(message@)
                &&& nul_free(after.error@)
                &&& after.same_findings(self)
                &&& after.llvm_ir == self.llvm_ir
            },
            LiftOutcome::Unverified { lift, message } => {
                &&& !answer
                &&& after.error@ == nul_escaped(message@)
                &&& nul_free(after.error@)
                &&& after.holds(lift)
                &&& after.llvm_ir == self.llvm_ir
            },
            LiftOutcome::Verified { lift, llvm_ir } => {
                &&& answer
                &&& after.error == self.error
                &&& after.holds(lift)
                &&& after.llvm_ir == llvm_ir
            },
        }
    }

    /// Takes over how a run of the lifter ended, and gives the answer for revng.
    pub fn conclude(&mut self, outcome: LiftOutcome) -> (answer: bool)
        ensures
            old(self).concludes(outcome, *final(self), answer),
    {
        match outcome {
            LiftOutcome::Failed { message } => self.fail(message.as_str()),
            LiftOutcome::Unverified { lift, message } => {
                self.record(lift);
                self.fail(message.as_str())
            },
            LiftOutcome::Verified { lift, llvm_ir } => {
                self.record(lift);
                self.llvm_ir = llvm_ir;
                true
            },
        }
    }

    /// Takes over a run of the lifter that has filled `module`, if it has, and gives the answer for
    /// revng: whether there is a module. A module that was filled is verified, and printed if it is
    /// well formed.
    pub fn lift_callback(&mut self, lift: Result<Lift, String>, module: &Module<'_>) -> (answer:
        bool)
        ensures
            exists|outcome: LiftOutcome| #[trigger]
                lift_outcome(lift, *module, outcome) && old(self).concludes(
                    outcome,
                    *final(self),
                    answer,
                ),
    {
        let outcome = lift_ended(lift, module);
        self.conclude(outcome)
    }

    /// Hands over the text of the last well-formed module and the instructions that were left out;
    /// the context keeps neither.
    pub fn take_results(&mut self) -> (results: (String, Vec<Untranslated>))
        ensures
            results.0@ == old(self).llvm_ir@,
            results.1@ == old(self).untranslated@,
            final(self).llvm_ir@ == Seq::<char>::empty(),
            final(self).untranslated@ == Seq::<Untranslated>::empty(),
            final(self).same_task(*old(self)),
            final(self).functions == old(self).functions,
            final(self).lifted == old(self).lifted,
            final(self).error == old(self).error,
    {
        let mut llvm_ir = String::new();
        let mut untranslated: Vec<Untranslated> = Vec::new();
        std::mem::swap(&mut llvm_ir, &mut self.llvm_ir);
        std::mem::swap(&mut untranslated, &mut self.untranslated);
        (llvm_ir, untranslated)
    }
}

/// Where the lifter has filled a module, revng is told that there is one if and only if LLVM finds
/// it well formed. The text that is kept is then what LLVM prints, character for character, and the
/// error stays; otherwise the error is LLVM's message, in a form that can be handed over as a C
/// string, and the text stays. What the run found is kept either way, and the task stays.
pub proof fn answer_is_the_verdict_on_the_module(
    before: LiftContext,
    found: Lift,
    module: Module<'_>,
    outcome: LiftOutcome,
    after: LiftContext,
    answer: bool,
)
    requires
        lift_outcome(Ok(found), module, outcome),
        before.concludes(outcome, after, answer),
    ensures
        after.functions == found.callees,
        after.lifted == found.lifted,
        after.untranslated == found.untranslated,
        after.binary == before.binary,
        after.architecture == before.architecture,
        after.entry == before.entry,
        after.imports == before.imports,
        after.max_depth == before.max_depth,
        answer ==> {
            &&& exists|reply: Result<(), LLVMString>| #[trigger]
                verify_reply(module, reply) && reply is Ok
            &&& exists|printed: LLVMString| #[trigger]
                print_reply(module, printed) && after.llvm_ir@ == plain_text(printed)
            &&& after.error == before.error
        },
        !answer ==> {
            &&& exists|refusal: LLVMString| #[trigger]
                verify_reply(module, Err(refusal)) && after.error@ == nul_escaped(
                    llvm_text(refusal),
                )
            &&& !after.error@.contains('\0')
            &&& after.llvm_ir == before.llvm_ir
        },
{
}

/// Where the lifter has filled no module, revng is told so with the lifter's message, in a form that
/// can be handed over as a C string; everything else stays as it was.
pub proof fn failed_lift_changes_the_error_only(
    before: LiftContext,
    message: String,
    module: Module<'_>,
    outcome: LiftOutcome,
    after: LiftContext,
    answer: bool,
)
    requires
        lift_outcome(Err(message), module, outcome),
        before.concludes(outcome, after, answer),
    ensures
        !answer,
        after.error@ == nul_escaped(message@),
        !after.error@.contains('\0'),
        after == (LiftContext { error: after.error, ..before }),
{
}

/// Contexts with the same task and the same findings differ in nothing but the last error and the
/// text of the last module; a context that holds a run's findings has all three of them.
pub proof fn contexts_are_compared_by_every_part(left: LiftContext, right: LiftContext, lift: Lift)
    ensures
        left.same_task(right) && left.same_findings(right) <==> left == (LiftContext {
            error: left.error,
            llvm_ir: left.llvm_ir,
            ..right
        }),
        left.same_task(right) && left.holds(lift) <==> left == (LiftContext {
            functions: lift.callees,
            lifted: lift.lifted,
            untranslated: lift.untranslated,
            error: left.error,
            llvm_ir: left.llvm_ir,
            ..right
        }),
{
}

} // verus!
