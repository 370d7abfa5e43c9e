//! A finished analysis: what it covers, and what can be asked of it.

use rustc_hash::FxHashSet;
use vstd::prelude::*;

use crate::address::meta_address;
#[allow(unused_imports)]
use crate::address::{meta_address_is_nul_free, meta_address_text};
use crate::architecture::Architecture;
use crate::error::Error;
#[allow(unused_imports)]
use crate::error::Failure;
#[allow(unused_imports)]
use crate::number::hex_text;
use crate::fx::set_contains;
use crate::output::{copy_untranslated, Output, Rendering, Untranslated};
#[allow(unused_imports)]
use crate::output::OutputView;
use crate::text::{has_nul, same_text};
#[allow(unused_imports)]
use crate::text::nul_free;

verus! {

/// What an analysis of the binary has yielded.
#[derive(Debug)]
pub struct Analysis {
    covered: FxHashSet<u64>,
    architecture: Architecture,
    llvm_ir: String,
    untranslated: Vec<Untranslated>,
}

/// What an [`Analysis`] holds.
pub struct AnalysisView {
    /// The addresses of the functions that can be decompiled from it.
    pub covered: Set<u64>,
    pub architecture: Architecture,
    pub llvm_ir: Seq<char>,
    pub untranslated: Seq<Untranslated>,
}

impl AnalysisView {
    /// The decompiled function that comes of a rendering.
    pub open spec fn output(self, rendering: Rendering) -> OutputView {
        OutputView {
            llvm_ir: self.llvm_ir,
            c: rendering.c@,
            ptml: rendering.ptml@,
            untranslated: self.untranslated,
        }
    }
}

impl View for Analysis {
    type V = AnalysisView;

    closed spec fn view(&self) -> AnalysisView {
        AnalysisView {
            covered: self.covered@,
            architecture: self.architecture,
            llvm_ir: self.llvm_ir@,
            untranslated: self.untranslated@,
        }
    }
}

/// What kind of object an artefact is made for.
#[derive(Clone, Copy, Debug, PartialEq, Eq, Structural)]
pub enum ObjectKind {
    Binary,
    Function,
}

/// An artefact to ask the pipeline for.
#[derive(Debug)]
pub struct ArtefactRequest {
    pub stage: String,
    pub container: String,
    pub kind: ObjectKind,
    /// The meta address of the function, where the artefact is for one function.
    pub object: Option<String>,
}

/// What an [`ArtefactRequest`] asks for.
pub struct ArtefactView {
    pub stage: Seq<char>,
    pub container: Seq<char>,
    pub kind: ObjectKind,
    pub object: Option<Seq<char>>,
}

impl View for ArtefactRequest {
    type V = ArtefactView;

    open spec fn view(&self) -> ArtefactView {
        ArtefactView {
            stage: self.stage@,
            container: self.container@,
            kind: self.kind,
            object: match self.object {
                Some(object) => Some(object@),
                None => None,
            },
        }
    }
}

/// What asking for the artefact of `container` at `stage`, for the function at `address`, comes
/// to. Names that cannot be handed over as C strings are refused, that of the stage first; the
/// container `llvm-root` is one for the whole binary, each other has one for every function.
pub open spec fn artefact_asked(
    stage: Seq<char>,
    container: Seq<char>,
    address: u64,
    architecture: Architecture,
) -> Result<ArtefactView, Failure> {
    if !nul_free(stage) {
        Err(Failure::Pipeline("stage name has a NUL"@))
    } else if !nul_free(container) {
        Err(Failure::Pipeline("container name has a NUL"@))
    } else if container == "llvm-root"@ {
        Ok(ArtefactView { stage, container, kind: ObjectKind::Binary, object: None })
    } else {
        Ok(
            ArtefactView {
                stage,
                container,
                kind: ObjectKind::Function,
                object: Some(meta_address_text(address, architecture)),
            },
        )
    }
}

impl Analysis {
    /// The analysis that covers `covered`.
    pub(crate) fn new(
        covered: FxHashSet<u64>,
        architecture: Architecture,
        llvm_ir: String,
        untranslated: Vec<Untranslated>,
    ) -> (analysis: Analysis)
        ensures
            analysis@ == (AnalysisView {
                covered: covered@,
                architecture,
                llvm_ir: llvm_ir@,
                untranslated: untranslated@,
            }),
    {
        Analysis { covered, architecture, llvm_ir, untranslated }
    }

    /// Whether the function at `address` can be decompiled from this analysis.
    pub fn covers(&self, address: u64) -> (covers: bool)
        ensures
            covers == self@.covered.contains(address),
    {
        set_contains(&self.covered, address)
    }

    /// What to ask the pipeline for to get the artefact of `container` at `stage`, for the
    /// function at `address`.
    pub fn artefact(&self, stage: &str, container: &str, address: u64) -> (asked: Result<
        ArtefactRequest,
        Error,
    >)
        ensures
            match asked {
                Ok(request) => artefact_asked(stage@, container@, address, self@.architecture)
                    == Ok::<ArtefactView, Failure>(request@),
                Err(error) => artefact_asked(stage@, container@, address, self@.architecture)
                    == Err::<ArtefactView, Failure>(error@),
            },
    {
        if has_nul(stage) {
            return Err(Error::pipeline("stage name has a NUL"));
        }
        if has_nul(container) {
            return Err(Error::pipeline("container name has a NUL"));
        }
        if same_text(container, "llvm-root") {
            Ok(
                ArtefactRequest {
                    stage: stage.to_owned(),
                    container: container.to_owned(),
                    kind: ObjectKind::Binary,
                    object: None,
                },
            )
        } else {
            Ok(
                ArtefactRequest {
                    stage: stage.to_owned(),
                    container: container.to_owned(),
                    kind: ObjectKind::Function,
                    object: Some(meta_address(address, self.architecture)),
                },
            )
        }
    }

    /// The meta address to have decompiled for the function at `address`.
    pub fn decompile_target(&self, address: u64) -> (meta_address: String)
        ensures
            meta_address@ == meta_address_text(address, self@.architecture),
            nul_free(meta_address@),
    {
        meta_address(address, self.architecture)
    }

    /// The decompiled function, once the pipeline has rendered it.
    pub fn decompile(&self, rendered: Result<Rendering, Error>) -> (decompiled: Result<
        Output,
        Error,
    >)
        ensures
            match rendered {
                Ok(rendering) => decompiled matches Ok(output) && output@ == self@.output(rendering),
                Err(error) => decompiled == Err::<Output, Error>(error),
            },
    {
        match rendered {
            Ok(rendering) => Ok(
                Output::new(
                    self.llvm_ir.clone(),
                    rendering,
                    copy_untranslated(self.untranslated.as_slice()),
                ),
            ),
            Err(error) => Err(error),
        }
    }
}

/// Every text of an artefact that is asked for can be handed over as a C string.
pub proof fn artefact_has_c_texts(
    stage: Seq<char>,
    container: Seq<char>,
    address: u64,
    architecture: Architecture,
)
    ensures
        match artefact_asked(stage, container, address, architecture) {
            Ok(request) => nul_free(request.stage) && nul_free(request.container)
                && match request.object {
                Some(object) => nul_free(object),
                None => true,
            },
            Err(_) => !nul_free(stage) || !nul_free(container),
        },
{
    meta_address_is_nul_free(address, architecture);
}

/// The module and the instructions left out belong to the analysis, not to a function: they are
/// the same in every function that is decompiled from it. The two renderings of a function are
/// those that came together.
pub proof fn outputs_share_the_analysis(
    analysis: AnalysisView,
    first: Rendering,
    second: Rendering,
)
    ensures
        analysis.output(first).llvm_ir == analysis.llvm_ir,
        analysis.output(second).llvm_ir == analysis.llvm_ir,
        analysis.output(first).untranslated == analysis.untranslated,
        analysis.output(second).untranslated == analysis.untranslated,
        analysis.output(first).c == first.c@ && analysis.output(first).ptml == first.ptml@,
        analysis.output(second).c == second.c@ && analysis.output(second).ptml == second.ptml@,
{
}

/// An artefact is asked for under the names that were given. The container `llvm-root` is one for
/// the whole binary; each other has one for the function, which goes by its address and the
/// architecture of the analysis. A NUL in the name of the stage is reported before one in that of the
/// container, and nothing else is refused.
pub proof fn artefact_is_of_the_function(
    stage: Seq<char>,
    container: Seq<char>,
    address: u64,
    architecture: Architecture,
)
    ensures
        stage.contains('\0') ==> artefact_asked(stage, container, address, architecture) == Err::<
            ArtefactView,
            Failure,
        >(Failure::Pipeline("stage name has a NUL"@)),
        !stage.contains('\0') && container.contains('\0') ==> artefact_asked(
            stage,
            container,
            address,
            architecture,
        ) == Err::<ArtefactView, Failure>(Failure::Pipeline("container name has a NUL"@)),
        !stage.contains('\0') && !container.contains('\0') ==> {
            let asked = artefact_asked(stage, container, address, architecture);
            &&& asked is Ok
            &&& asked->Ok_0.stage == stage
            &&& asked->Ok_0.container == container
            &&& container == "llvm-root"@ ==> asked->Ok_0.kind == ObjectKind::Binary
                && asked->Ok_0.object is None
            &&& container != "llvm-root"@ ==> asked->Ok_0.kind == ObjectKind::Function
                && asked->Ok_0.object == Some(
                hex_text(address) + ":Code_"@ + architecture.name(),
            )
        },
{
}

/// A request for an artefact says what it holds.
pub proof fn artefact_request_says_its_parts(request: ArtefactRequest)
    ensures
        request@.stage == request.stage@,
        request@.container == request.container@,
        request@.kind == request.kind,
        request.object matches Some(object) ==> request@.object == Some(object@),
        request.object is None ==> request@.object is None,
{
}

} // verus!
