//! What decompiling a function yields.

use vstd::prelude::*;

use crate::address::Address;

verus! {

/// An instruction that was left out of the lifted code, and why.
#[derive(Debug)]
pub struct Untranslated {
    pub address: Address,
    pub reason: String,
}

impl Untranslated {
    /// Where the instruction is.
    pub fn address(&self) -> (address: Address)
        ensures
            address == self.address,
    {
        self.address
    }

    /// Why it was left out.
    pub fn reason(&self) -> (reason: &str)
        ensures
            reason@ == self.reason@,
    {
        self.reason.as_str()
    }
}

/// A copy of `instructions`.
pub fn copy_untranslated(instructions: &[Untranslated]) -> (copy: Vec<Untranslated>)
    ensures
        copy@ == instructions@,
{
    let mut copy: Vec<Untranslated> = Vec::new();
    for i in 0..instructions.len()
        invariant
            copy@ == instructions@.take(i as int),
    {
        copy.push(
            Untranslated {
                address: instructions[i].address,
                reason: instructions[i].reason.clone(),
            },
        );
        assert(copy@ == instructions@.take(i + 1));
    }
    assert(instructions@.take(instructions@.len() as int) == instructions@);
    copy
}

/// A decompiled function as the pipeline renders it: with markup, and without.
#[derive(Debug)]
pub struct Rendering {
    pub ptml: String,
    pub c: String,
}

/// A decompiled function.
#[derive(Debug)]
pub struct Output {
    llvm_ir: String,
    c: String,
    ptml: String,
    untranslated: Vec<Untranslated>,
}

/// What an [`Output`] holds.
pub struct OutputView {
    pub llvm_ir: Seq<char>,
    pub c: Seq<char>,
    pub ptml: Seq<char>,
    pub untranslated: Seq<Untranslated>,
}

impl View for Output {
    type V = OutputView;

    closed spec fn view(&self) -> OutputView {
        OutputView {
            llvm_ir: self.llvm_ir@,
            c: self.c@,
            ptml: self.ptml@,
            untranslated: self.untranslated@,
        }
    }
}

impl Output {
    /// Puts together what the lifting and the rendering of a function have yielded.
    pub(crate) fn new(
        llvm_ir: String,
        rendering: Rendering,
        untranslated: Vec<Untranslated>,
    ) -> (output: Output)
        ensures
            output@ == (OutputView {
                llvm_ir: llvm_ir@,
                c: rendering.c@,
                ptml: rendering.ptml@,
                untranslated: untranslated@,
            }),
    {
        Output { llvm_ir, c: rendering.c, ptml: rendering.ptml, untranslated }
    }

    /// The LLVM module that the function was lifted to.
    pub fn llvm_ir(&self) -> (llvm_ir: &str)
        ensures
            llvm_ir@ == self@.llvm_ir,
    {
        self.llvm_ir.as_str()
    }

    /// The function in C.
    pub fn c(&self) -> (c: &str)
        ensures
            c@ == self@.c,
    {
        self.c.as_str()
    }

    /// The function in C, with markup.
    pub fn ptml(&self) -> (ptml: &str)
        ensures
            ptml@ == self@.ptml,
    {
        self.ptml.as_str()
    }

    /// The instructions that were left out.
    pub fn untranslated(&self) -> (untranslated: &[Untranslated])
        ensures
            untranslated@ == self@.untranslated,
    {
        self.untranslated.as_slice()
    }
}

} // verus!
