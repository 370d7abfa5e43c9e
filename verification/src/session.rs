//! A session: decompiling several functions of one binary without repeating work.

use std::rc::Rc;

use rustc_hash::FxHashMap;
use vstd::prelude::*;

use crate::address::Address;
#[allow(unused_imports)]
use crate::address::{entry_read, meta_address_read_back, meta_address_text};
use crate::analysis::{Analysis, ArtefactRequest};
#[allow(unused_imports)]
use crate::analysis::{artefact_asked, AnalysisView, ArtefactView, ObjectKind};
use crate::architecture::Architecture;
use crate::binary::FunctionSymbol;
use crate::decompiler::Decompiler;
#[allow(unused_imports)]
use crate::decompiler::Settings;
use crate::error::Error;
#[allow(unused_imports)]
use crate::error::Failure;
use crate::fx::{map_get, map_insert};
use crate::making::Build;
#[allow(unused_imports)]
use crate::making::{analysis_covers_its_seed, begun, BuildView, Phase};
#[allow(unused_imports)]
use crate::number::hex_text;
use crate::output::{Output, Rendering};
#[allow(unused_imports)]
use crate::output::Untranslated;
#[allow(unused_imports)]
use crate::text::nul_free;

verus! {

/// A decompiler with its last analysis and the functions that were decompiled so far.
#[derive(Debug)]
pub struct Session {
    decompiler: Decompiler,
    analysis: Option<Analysis>,
    cache: FxHashMap<u64, Rc<Output>>,
}

/// What a [`Session`] holds.
pub struct SessionView {
    pub settings: Settings,
    pub analysis: Option<AnalysisView>,
    pub cache: Map<u64, Rc<Output>>,
}

impl View for Session {
    type V = SessionView;

    closed spec fn view(&self) -> SessionView {
        SessionView {
            settings: self.decompiler@,
            analysis: match self.analysis {
                Some(analysis) => Some(analysis@),
                None => None,
            },
            cache: self.cache@,
        }
    }
}

/// What it takes to have a function decompiled.
pub enum FunctionStep<'a> {
    /// Nothing: it was decompiled before.
    Done(Rc<Output>),
    /// The rendering of the code at this meta address, for [`Session::decompiled`].
    Render { meta_address: String },
    /// An analysis, for [`Session::analysed`].
    Analyse(Build<'a>),
}

/// What a [`FunctionStep`] says.
pub enum FunctionStepView {
    Done(Rc<Output>),
    Render { meta_address: Seq<char> },
    Analyse(BuildView),
}

impl<'a> View for FunctionStep<'a> {
    type V = FunctionStepView;

    open spec fn view(&self) -> FunctionStepView {
        match *self {
            FunctionStep::Done(output) => FunctionStepView::Done(output),
            FunctionStep::Render { meta_address } => FunctionStepView::Render {
                meta_address: meta_address@,
            },
            FunctionStep::Analyse(build) => FunctionStepView::Analyse(build@),
        }
    }
}

/// What it takes to have an artefact.
pub enum ModuleStep<'a> {
    /// This artefact of the pipeline.
    Produce(ArtefactRequest),
    /// There is none of that name.
    Refuse(Error),
    /// An analysis, for [`Session::analysed`].
    Analyse(Build<'a>),
}

/// What a [`ModuleStep`] says.
pub enum ModuleStepView {
    Produce(ArtefactView),
    Refuse(Failure),
    Analyse(BuildView),
}

impl<'a> View for ModuleStep<'a> {
    type V = ModuleStepView;

    open spec fn view(&self) -> ModuleStepView {
        match *self {
            ModuleStep::Produce(request) => ModuleStepView::Produce(request@),
            ModuleStep::Refuse(error) => ModuleStepView::Refuse(error@),
            ModuleStep::Analyse(build) => ModuleStepView::Analyse(build@),
        }
    }
}

impl SessionView {
    /// Whether the last analysis covers the function at `address`.
    pub open spec fn covers(self, address: u64) -> bool {
        match self.analysis {
            Some(analysis) => analysis.covered.contains(address),
            None => false,
        }
    }

    /// The analysis to begin for the function at `address`.
    pub open spec fn new_build(self, address: u64) -> BuildView {
        begun(self.settings, address)
    }

    /// What it takes to have the function at `address` decompiled.
    pub open spec fn function_step(self, address: u64) -> FunctionStepView {
        if self.cache.contains_key(address) {
            FunctionStepView::Done(self.cache[address])
        } else if self.covers(address) {
            FunctionStepView::Render {
                meta_address: meta_address_text(address, self.analysis->0.architecture),
            }
        } else {
            FunctionStepView::Analyse(self.new_build(address))
        }
    }

    /// What it takes to have the artefact of `container` at `stage` for the function at `address`.
    /// The names are looked at only once there is an analysis.
    pub open spec fn module_step(
        self,
        address: u64,
        stage: Seq<char>,
        container: Seq<char>,
    ) -> ModuleStepView {
        if self.covers(address) {
            match artefact_asked(stage, container, address, self.analysis->0.architecture) {
                Ok(request) => ModuleStepView::Produce(request),
                Err(failure) => ModuleStepView::Refuse(failure),
            }
        } else {
            ModuleStepView::Analyse(self.new_build(address))
        }
    }

    /// The session after `analysis` was made.
    pub open spec fn with_analysis(self, analysis: AnalysisView) -> SessionView {
        SessionView { analysis: Some(analysis), ..self }
    }

    /// The session after the function at `address` was decompiled.
    pub open spec fn with_output(self, address: u64, output: Rc<Output>) -> SessionView {
        SessionView { cache: self.cache.insert(address, output), ..self }
    }
}

impl Decompiler {
    /// A session with this decompiler.
    pub fn into_session(self) -> (session: Session)
        ensures
            session@ == (SessionView {
                settings: self@,
                analysis: None,
                cache: Map::empty(),
            }),
    {
        Session { decompiler: self, analysis: None, cache: FxHashMap::default() }
    }
}

impl Session {
    /// What it takes to have the function at `address` decompiled. A function is decompiled once;
    /// an analysis is made only where the last one does not cover the function.
    pub fn function(&self, address: Address) -> (step: FunctionStep<'_>)
        ensures
            step@ == self@.function_step(address.0),
            step matches FunctionStep::Analyse(build) ==> build.well_formed(),
            step matches FunctionStep::Render { meta_address } ==> nul_free(meta_address@),
    {
        let address = address.value();
        if let Some(output) = map_get(&self.cache, address) {
            return FunctionStep::Done(Rc::clone(output));
        }
        if let Some(analysis) = &self.analysis {
            if analysis.covers(address) {
                return FunctionStep::Render { meta_address: analysis.decompile_target(address) };
            }
        }
        FunctionStep::Analyse(self.decompiler.build_analysis(address))
    }

    /// What it takes to have the artefact of `container` at `stage` for the function at `address`.
    pub fn module(&self, address: Address, stage: &str, container: &str) -> (step: ModuleStep<'_>)
        ensures
            step@ == self@.module_step(address.0, stage@, container@),
            step matches ModuleStep::Analyse(build) ==> build.well_formed(),
    {
        let address = address.value();
        if let Some(build) = self.ensure_analysis(address) {
            return ModuleStep::Analyse(build);
        }
        match self.analysis.as_ref().unwrap().artefact(stage, container, address) {
            Ok(request) => ModuleStep::Produce(request),
            Err(error) => ModuleStep::Refuse(error),
        }
    }

    /// The analysis to make before the function at `address` can be looked at, if one is needed.
    pub fn ensure_analysis(&self, address: u64) -> (build: Option<Build<'_>>)
        ensures
            match build {
                Some(build) => !self@.covers(address) && build.well_formed() && build@
                    == self@.new_build(address),
                None => self@.covers(address),
            },
    {
        let covered = match &self.analysis {
            Some(analysis) => analysis.covers(address),
            None => false,
        };
        if covered {
            None
        } else {
            Some(self.decompiler.build_analysis(address))
        }
    }

    /// Takes a finished analysis; it replaces the last one. What was decompiled stays.
    pub fn analysed(&mut self, analysis: Analysis)
        ensures
            final(self)@ == old(self)@.with_analysis(analysis@),
    {
        self.analysis = Some(analysis);
    }

    /// Takes the rendering of the function at `address`, which was asked for, and keeps the
    /// function. A failure leaves the session as it is.
    pub fn decompiled(&mut self, address: Address, rendered: Result<Rendering, Error>) -> (
    decompiled: Result<Rc<Output>, Error>)
        requires
            old(self)@.function_step(address.0) is Render,
        ensures
            match rendered {
                Ok(rendering) => {
                    &&& decompiled matches Ok(output)
                    &&& final(self)@ == old(self)@.with_output(address.0, output)
                    &&& output@ == old(self)@.analysis->0.output(rendering)
                },
                Err(error) => {
                    &&& decompiled == Err::<Rc<Output>, Error>(error)
                    &&& final(self)@ == old(self)@
                },
            },
    {
        let address = address.value();
        let output = match self.analysis.as_ref().unwrap().decompile(rendered) {
            Ok(output) => Rc::new(output),
            Err(error) => {
                return Err(error);
            },
        };
        map_insert(&mut self.cache, address, Rc::clone(&output));
        Ok(output)
    }

    /// The functions that the binary names.
    pub fn symbols(&self) -> (symbols: &[FunctionSymbol])
        ensures
            symbols@ == self@.settings.binary.symbols@,
    {
        self.decompiler.symbols()
    }

    /// The architecture of the binary.
    pub fn architecture(&self) -> (architecture: Architecture)
        ensures
            architecture == self@.settings.architecture(),
    {
        self.decompiler.architecture()
    }

    /// Where the binary starts, if it says so.
    pub fn entry(&self) -> (entry: Option<Address>)
        ensures
            entry == self@.settings.binary.entry,
    {
        self.decompiler.entry()
    }
}

/// A function that was decompiled is not decompiled again: asking for it gives what was kept.
pub proof fn decompiled_function_is_kept(session: SessionView, address: u64, output: Rc<Output>)
    ensures
        session.with_output(address, output).function_step(address) == FunctionStepView::Done(
            output,
        ),
{
}

/// Keeping one function changes nothing for the others.
pub proof fn other_functions_are_untouched(
    session: SessionView,
    address: u64,
    output: Rc<Output>,
    other: u64,
)
    requires
        other != address,
    ensures
        session.with_output(address, output).function_step(other) == session.function_step(other),
{
}

/// A function that is kept is never replaced: only one that is not kept is rendered.
pub proof fn kept_functions_are_never_replaced(
    session: SessionView,
    address: u64,
    output: Rc<Output>,
    kept: u64,
)
    requires
        session.function_step(address) is Render,
        session.cache.contains_key(kept),
    ensures
        session.with_output(address, output).cache.contains_key(kept),
        session.with_output(address, output).cache[kept] == session.cache[kept],
{
}

/// A new analysis leaves the functions that were decompiled as they are.
pub proof fn new_analysis_keeps_functions(
    session: SessionView,
    analysis: AnalysisView,
    address: u64,
)
    requires
        session.cache.contains_key(address),
    ensures
        session.with_analysis(analysis).function_step(address) == session.function_step(address),
        session.function_step(address) == FunctionStepView::Done(session.cache[address]),
{
}

/// Once the analysis is made that a function needs because the last one does not cover it, no other
/// is needed for it: its artefacts can be asked for, and its code can be rendered unless it is kept.
pub proof fn finished_analysis_serves_its_function(
    session: SessionView,
    address: u64,
    reached: Set<u64>,
    analysis: AnalysisView,
    stage: Seq<char>,
    container: Seq<char>,
)
    requires
        !session.covers(address),
        analysis.covered == session.settings.covered(address, reached),
    ensures
        session.with_analysis(analysis).covers(address),
        !session.cache.contains_key(address) ==> session.with_analysis(analysis).function_step(
            address,
        ) is Render,
        !(session.with_analysis(analysis).function_step(address) is Analyse),
        !(session.with_analysis(analysis).module_step(address, stage, container) is Analyse),
{
    analysis_covers_its_seed(session.settings, address, reached);
}

/// With no limit on the depth and no prototype given, the analysis that was made for one function
/// serves every function that this one reaches, but for imports.
pub proof fn one_analysis_serves_reached_functions(
    session: SessionView,
    seed: u64,
    reached: Set<u64>,
    analysis: AnalysisView,
    address: u64,
)
    requires
        session.settings.max_depth is None,
        session.settings.prototype is None,
        analysis.covered == session.settings.covered(seed, reached),
        reached.contains(address),
        !session.settings.imports_at(address),
    ensures
        !(session.with_analysis(analysis).function_step(address) is Analyse),
{
}

/// With a limit on the depth, or with the prototype given, every other function that is not kept
/// needs an analysis of its own.
pub proof fn limited_analysis_serves_one_function(
    session: SessionView,
    seed: u64,
    reached: Set<u64>,
    analysis: AnalysisView,
    address: u64,
)
    requires
        session.settings.max_depth is Some || session.settings.prototype is Some,
        analysis.covered == session.settings.covered(seed, reached),
        address != seed,
        !session.cache.contains_key(address),
    ensures
        session.with_analysis(analysis).function_step(address) == FunctionStepView::Analyse(
            session.new_build(address),
        ),
{
}

/// What has to be done for a function: nothing where it is kept; else, where the last analysis
/// covers it, the code at its address is rendered, of the architecture of the session's binary; else
/// an analysis is begun for it, with the session's settings.
pub proof fn function_is_kept_rendered_or_analysed(session: SessionView, address: u64)
    requires
        session.analysis matches Some(analysis) ==> analysis.architecture
            == session.settings.binary.architecture,
    ensures
        ({
            let step = session.function_step(address);
            let covered = session.analysis matches Some(analysis) && analysis.covered.contains(
                address,
            );
            &&& session.cache.contains_key(address) ==> step == FunctionStepView::Done(
                session.cache[address],
            )
            &&& !session.cache.contains_key(address) && covered ==> {
                &&& step is Render
                &&& step->meta_address == hex_text(address) + ":Code_"@
                    + session.settings.binary.architecture.name()
                &&& entry_read(step->meta_address) == Some(address)
            }
            &&& !session.cache.contains_key(address) && !covered ==> {
                &&& step is Analyse
                &&& step->Analyse_0.settings == session.settings
                &&& step->Analyse_0.seed == address
                &&& step->Analyse_0.phase == (Phase::Opening { done: 0 })
                &&& !step->Analyse_0.failed
            }
        }),
{
    meta_address_read_back(address, session.settings.binary.architecture);
}

/// What has to be done for an artefact: where the last analysis does not cover the function, an
/// analysis is begun for it, with the session's settings, whatever the names are; else the artefact
/// is asked for under the names that were given, for the whole binary in the container `llvm-root`
/// and for the function in each other, by its address and the architecture of the session's binary;
/// a NUL in a name is refused, in that of the stage first.
pub proof fn module_is_analysed_or_asked_for(
    session: SessionView,
    address: u64,
    stage: Seq<char>,
    container: Seq<char>,
)
    requires
        session.analysis matches Some(analysis) ==> analysis.architecture
            == session.settings.binary.architecture,
    ensures
        ({
            let step = session.module_step(address, stage, container);
            let covered = session.analysis matches Some(analysis) && analysis.covered.contains(
                address,
            );
            &&& !covered ==> {
                &&& step is Analyse
                &&& step->Analyse_0.settings == session.settings
                &&& step->Analyse_0.seed == address
                &&& step->Analyse_0.phase == (Phase::Opening { done: 0 })
                &&& !step->Analyse_0.failed
            }
            &&& covered && stage.contains('\0') ==> step == ModuleStepView::Refuse(
                Failure::Pipeline("stage name has a NUL"@),
            )
            &&& covered && !stage.contains('\0') && container.contains('\0') ==> step
                == ModuleStepView::Refuse(Failure::Pipeline("container name has a NUL"@))
            &&& covered && !stage.contains('\0') && !container.contains('\0') ==> step
                == ModuleStepView::Produce(
                ArtefactView {
                    stage,
                    container,
                    kind: if container == "llvm-root"@ {
                        ObjectKind::Binary
                    } else {
                        ObjectKind::Function
                    },
                    object: if container == "llvm-root"@ {
                        None
                    } else {
                        Some(
                            hex_text(address) + ":Code_"@
                                + session.settings.binary.architecture.name(),
                        )
                    },
                },
            )
        }),
{
}

/// Where an analysis that the session has begun comes to its end, it is of the architecture of the
/// session's binary, and what it covers is then rendered or kept: no settings and no other function
/// are mixed in.
pub proof fn own_analysis_has_the_architecture(
    session: SessionView,
    build: BuildView,
    llvm_ir: Seq<char>,
    untranslated: Seq<Untranslated>,
    address: u64,
)
    requires
        build.settings == session.settings,
        build.phase is Analysing,
        !session.cache.contains_key(address),
        address == build.seed,
    ensures
        ({
            let next = session.with_analysis(build.analysis(llvm_ir, untranslated));
            &&& next.settings == session.settings
            &&& next.cache == session.cache
            &&& next.analysis is Some
            &&& next.analysis->0.architecture == session.settings.binary.architecture
            &&& next.analysis->0.llvm_ir == llvm_ir
            &&& next.analysis->0.untranslated == untranslated
            &&& next.function_step(address) is Render
            &&& next.function_step(address)->meta_address == hex_text(address) + ":Code_"@
                + session.settings.binary.architecture.name()
        }),
{
    analysis_covers_its_seed(session.settings, address, build.phase->reached);
}

/// Keeping a function changes what is kept under its address, and nothing else of the session.
pub proof fn keeping_a_function_changes_its_place_only(
    session: SessionView,
    address: u64,
    output: Rc<Output>,
    other: u64,
)
    ensures
        session.with_output(address, output).settings == session.settings,
        session.with_output(address, output).analysis == session.analysis,
        session.with_output(address, output).cache.contains_key(address),
        session.with_output(address, output).cache[address] == output,
        other != address ==> session.with_output(address, output).cache.contains_key(other)
            == session.cache.contains_key(other),
        other != address && session.cache.contains_key(other) ==> session.with_output(
            address,
            output,
        ).cache[other] == session.cache[other],
{
}

/// A step says what it holds.
pub proof fn steps_say_what_they_hold(function: FunctionStep<'_>, module: ModuleStep<'_>)
    ensures
        match function {
            FunctionStep::Done(output) => function@ == FunctionStepView::Done(output),
            FunctionStep::Render { meta_address } => function@ is Render && function@->meta_address
                == meta_address@,
            FunctionStep::Analyse(build) => function@ == FunctionStepView::Analyse(build@),
        },
        match module {
            ModuleStep::Produce(request) => module@ == ModuleStepView::Produce(request@),
            ModuleStep::Refuse(error) => module@ == ModuleStepView::Refuse(error@),
            ModuleStep::Analyse(build) => module@ == ModuleStepView::Analyse(build@),
        },
{
}

} // verus!
