//! The making of an analysis: which requests the pipeline is sent, in which order, and what comes
//! of its replies.

use rustc_hash::FxHashSet;
use vstd::pervasive::unreached;
use vstd::prelude::*;

use crate::address::Address;
#[allow(unused_imports)]
use crate::address::{
    entry_read, function_name_is_nul_free, meta_address_is_nul_free, meta_address_read_back,
    meta_address_text,
};
use crate::analysis::Analysis;
#[allow(unused_imports)]
use crate::analysis::AnalysisView;
#[allow(unused_imports)]
use crate::architecture::Architecture;
#[allow(unused_imports)]
use crate::ascending::{ascending, finite_set_is_listed, lists};
use crate::decompiler::{Decompiler, Request};
#[allow(unused_imports)]
use crate::decompiler::{actions, declarations, Action, DeclaredFunction, Settings};
use crate::error::Error;
use crate::lift::LiftContext;
use crate::output::{Output, Rendering};
#[allow(unused_imports)]
use crate::output::Untranslated;
#[allow(unused_imports)]
use crate::number::hex_text;
#[allow(unused_imports)]
use crate::text::nul_free;

verus! {

/// An analysis in the making. The pipeline is sent one request after the other; each has to
/// succeed before the next is sent.
pub struct Build<'a> {
    decompiler: &'a Decompiler,
    seed: u64,
    requests: Vec<Request<'a>>,
    next: usize,
    covered: Option<FxHashSet<u64>>,
    failed: bool,
    lifted: Ghost<Set<u64>>,
    reached: Ghost<Set<u64>>,
}

/// How far the making of an analysis has come.
pub enum Phase {
    /// The code is not lifted yet; `done` requests have succeeded.
    Opening { done: int },
    /// The code is lifted, with these functions lifted and reached; `done` requests have succeeded
    /// since.
    Analysing { lifted: Set<u64>, reached: Set<u64>, done: int },
}

/// What is known of a [`Build`].
pub struct BuildView {
    pub settings: Settings,
    pub seed: u64,
    pub phase: Phase,
    pub failed: bool,
}

impl BuildView {
    /// The requests of the present phase.
    pub open spec fn requests(self) -> Seq<Action> {
        match self.phase {
            Phase::Opening { done } => self.settings.opening(self.seed),
            Phase::Analysing { lifted, reached, done } => self.settings.analyses(
                self.seed,
                lifted,
                reached,
            ),
        }
    }

    /// How many of them have succeeded.
    pub open spec fn done(self) -> int {
        match self.phase {
            Phase::Opening { done } => done,
            Phase::Analysing { lifted, reached, done } => done,
        }
    }

    /// The request to send, if one is due.
    pub open spec fn due(self) -> Option<Action> {
        if !self.failed && 0 <= self.done() < self.requests().len() {
            Some(self.requests()[self.done()])
        } else {
            None
        }
    }

    /// Whether everything was asked for and has succeeded.
    pub open spec fn complete(self) -> bool {
        !self.failed && self.phase is Analysing && self.done() == self.requests().len()
    }

    /// What follows when the request that is due succeeds, with `lifted` and `reached` the
    /// functions that the last run of the lifter has lifted and found called.
    pub open spec fn advanced(self, lifted: Set<u64>, reached: Set<u64>) -> BuildView {
        let phase = match self.phase {
            Phase::Opening { done } => if done + 1 == self.requests().len() {
                Phase::Analysing { lifted, reached, done: 0 }
            } else {
                Phase::Opening { done: done + 1 }
            },
            Phase::Analysing { lifted, reached, done } => Phase::Analysing {
                lifted,
                reached,
                done: done + 1,
            },
        };
        BuildView { phase, ..self }
    }

    /// The analysis that the build comes to, with the text of the lifted module and the
    /// instructions that were left out.
    pub open spec fn analysis(
        self,
        llvm_ir: Seq<char>,
        untranslated: Seq<Untranslated>,
    ) -> AnalysisView {
        AnalysisView {
            covered: self.settings.covered(self.seed, self.phase->reached),
            architecture: self.settings.architecture(),
            llvm_ir,
            untranslated,
        }
    }

    /// Whether `reply` can be taken. Once there is a manager, the ABI is handed over as a C string,
    /// so it has to be one.
    pub open spec fn accepts(self, reply: Result<(), Error>) -> bool {
        reply is Ok && self.due() == Some(Action::CreateManager { seed: self.seed }) ==> nul_free(
            self.settings.assumed_abi(),
        )
    }

    /// What follows when the request that is due fails.
    pub open spec fn stopped(self) -> BuildView {
        BuildView { failed: true, ..self }
    }
}

impl<'a> View for Build<'a> {
    type V = BuildView;

    closed spec fn view(&self) -> BuildView {
        BuildView {
            settings: self.decompiler@,
            seed: self.seed,
            phase: if self.covered is None {
                Phase::Opening { done: self.next as int }
            } else {
                Phase::Analysing {
                    lifted: self.lifted@,
                    reached: self.reached@,
                    done: self.next as int,
                }
            },
            failed: self.failed,
        }
    }
}

impl<'a> Build<'a> {
    /// Whether the requests are those of the phase, the covered functions those of the settings,
    /// and the ABI, once there is a manager, one that can be handed over as a C string.
    pub closed spec fn well_formed(&self) -> bool {
        &&& actions(self.requests@) == self@.requests()
        &&& self.next <= self.requests@.len()
        &&& self.covered is None ==> self.next < self.requests@.len()
        &&& self.covered is Some || self.next >= 2 ==> nul_free(self.decompiler@.assumed_abi())
        &&& match self.covered {
            Some(covered) => covered@ == self.decompiler@.covered(self.seed, self.reached@),
            None => true,
        }
    }

    /// What the lifter works from.
    pub fn lift_context(&self) -> (context: LiftContext)
        ensures
            self@.settings.begins_lifting(self@.seed, context),
    {
        self.decompiler.lift_context(self.seed)
    }

    /// Whether the ABI to assume can be handed over as a C string.
    pub fn has_c_abi(&self) -> (can: bool)
        ensures
            can == nul_free(self@.settings.assumed_abi()),
    {
        self.decompiler.has_c_abi()
    }

    /// The request to send to the pipeline, if one is due.
    pub fn request(&self) -> (request: Option<&Request<'a>>)
        requires
            self.well_formed(),
        ensures
            match request {
                Some(request) => self@.due() == Some(request@) && has_c_texts(request@),
                None => self@.due() is None,
            },
    {
        proof {
            if nul_free(self.decompiler@.assumed_abi()) {
                requests_have_c_texts(
                    self.decompiler@,
                    self.seed,
                    self.lifted@,
                    self.reached@,
                );
            }
        }
        if !self.failed && self.next < self.requests.len() {
            assert(actions(self.requests@)[self.next as int] == self.requests@[self.next as int]@);
            Some(&self.requests[self.next])
        } else {
            None
        }
    }

    /// Takes the reply to the request that was due. A failure ends the build; a success makes the
    /// next request due. The first request after the code was lifted depends on what the lifter
    /// has left in `context`.
    pub fn advance(&mut self, reply: Result<(), Error>, context: &LiftContext) -> (advanced: Result<
        (),
        Error,
    >)
        requires
            old(self).well_formed(),
            old(self)@.due() is Some,
            old(self)@.accepts(reply),
        ensures
            final(self).well_formed(),
            match reply {
                Ok(_) => advanced is Ok && final(self)@ == old(self)@.advanced(
                    context.lifted@,
                    context.functions@,
                ),
                Err(error) => advanced == Err::<(), Error>(error) && final(self)@ == old(
                    self,
                )@.stopped(),
            },
    {
        let total = self.requests.len();
        assert(total == actions(self.requests@).len());
        match reply {
            Err(error) => {
                self.failed = true;
                return Err(error);
            },
            Ok(_) => {},
        }
        if self.covered.is_none() && self.next + 1 == total {
            self.requests = self.decompiler.analysis_requests(
                self.seed,
                &context.lifted,
                &context.functions,
            );
            self.covered = Some(self.decompiler.covered(self.seed, &context.functions));
            self.lifted = Ghost(context.lifted@);
            self.reached = Ghost(context.functions@);
            self.next = 0;
        } else {
            self.next = self.next + 1;
        }
        Ok(())
    }

    /// Whether everything was asked for and has succeeded.
    pub fn is_complete(&self) -> (complete: bool)
        requires
            self.well_formed(),
        ensures
            complete == self@.complete(),
    {
        !self.failed && self.covered.is_some() && self.next == self.requests.len()
    }

    /// The finished analysis. The text of the lifted module and the instructions that were left
    /// out come from `context`, which keeps neither.
    pub fn finish(self, context: &mut LiftContext) -> (analysis: Analysis)
        requires
            self.well_formed(),
            self@.complete(),
        ensures
            analysis@ == self@.analysis(old(context).llvm_ir@, old(context).untranslated@),
            final(context).llvm_ir@ == Seq::<char>::empty(),
            final(context).untranslated@ == Seq::<Untranslated>::empty(),
            final(context).same_task(*old(context)),
            final(context).functions == old(context).functions,
            final(context).lifted == old(context).lifted,
            final(context).error == old(context).error,
    {
        let (llvm_ir, untranslated) = context.take_results();
        let architecture = self.decompiler.architecture();
        Analysis::new(self.covered.unwrap(), architecture, llvm_ir, untranslated)
    }
}

impl Decompiler {
    /// Begins the analysis from which the function at `seed` can be decompiled.
    pub fn build_analysis(&self, seed: u64) -> (build: Build<'_>)
        ensures
            build.well_formed(),
            build@ == begun(self@, seed),
    {
        let requests = self.opening_requests(seed);
        assert(requests@.len() == actions(requests@).len());
        Build {
            decompiler: self,
            seed,
            requests,
            next: 0,
            covered: None,
            failed: false,
            lifted: Ghost(Set::empty()),
            reached: Ghost(Set::empty()),
        }
    }

    /// Begins to decompile the function at `address`, from an analysis made for it alone.
    pub fn decompile_function(&self, address: Address) -> (decompilation: Decompilation<'_>)
        ensures
            decompilation.well_formed(),
            decompilation@ == (DecompilationView::Analysing {
                address: address.0,
                build: begun(self@, address.0),
            }),
    {
        Decompilation::Analysing {
            address: address.value(),
            build: self.build_analysis(address.value()),
        }
    }
}

/// A function on its way to being decompiled: first it is analysed, then its code is rendered.
pub enum Decompilation<'a> {
    /// The analysis is in the making.
    Analysing { address: u64, build: Build<'a> },
    /// The analysis is finished.
    Rendering { address: u64, analysis: Analysis },
}

/// What is known of a [`Decompilation`].
pub enum DecompilationView {
    Analysing { address: u64, build: BuildView },
    Rendering { address: u64, analysis: AnalysisView },
}

impl DecompilationView {
    /// The meta address of the code to render, once the analysis is finished.
    pub open spec fn target(self) -> Seq<char> {
        meta_address_text(self->Rendering_address, self->analysis.architecture)
    }

    /// What follows when the request that is due succeeds, with `lifted` and `reached` the
    /// functions that the last run of the lifter has lifted and found called, and with the text of
    /// the lifted module and the instructions left out that it has left behind.
    pub open spec fn advanced(
        self,
        lifted: Set<u64>,
        reached: Set<u64>,
        llvm_ir: Seq<char>,
        untranslated: Seq<Untranslated>,
    ) -> DecompilationView {
        let address = self->Analysing_address;
        let build = self->build.advanced(lifted, reached);
        if build.complete() {
            DecompilationView::Rendering {
                address,
                analysis: build.analysis(llvm_ir, untranslated),
            }
        } else {
            DecompilationView::Analysing { address, build }
        }
    }
}

impl<'a> View for Decompilation<'a> {
    type V = DecompilationView;

    open spec fn view(&self) -> DecompilationView {
        match *self {
            Decompilation::Analysing { address, build } => DecompilationView::Analysing {
                address,
                build: build@,
            },
            Decompilation::Rendering { address, analysis } => DecompilationView::Rendering {
                address,
                analysis: analysis@,
            },
        }
    }
}

/// The next step towards a decompiled function.
pub enum DecompilationStep<'b, 'a> {
    /// Send this request, for [`Decompilation::advance`].
    Send(&'b Request<'a>),
    /// Have the code at this meta address rendered, for [`Decompilation::rendered`].
    Render { meta_address: String },
}

impl<'a> Decompilation<'a> {
    /// Whether a request is due as long as the analysis is in the making, and the analysis, once it
    /// is finished, covers the function.
    pub open spec fn well_formed(&self) -> bool {
        match *self {
            Decompilation::Analysing { address, build } => {
                &&& build.well_formed()
                &&& build@.seed == address
                &&& build@.due() is Some
            },
            Decompilation::Rendering { address, analysis } => analysis@.covered.contains(address),
        }
    }

    /// The next step.
    pub fn step(&self) -> (step: DecompilationStep<'_, 'a>)
        requires
            self.well_formed(),
        ensures
            match (self@, step) {
                (
                    DecompilationView::Analysing { address, build },
                    DecompilationStep::Send(request),
                ) => build.due() == Some(request@) && has_c_texts(request@),
                (
                    DecompilationView::Rendering { address, analysis },
                    DecompilationStep::Render { meta_address },
                ) => meta_address@ == self@.target() && nul_free(meta_address@),
                _ => false,
            },
    {
        match self {
            Decompilation::Analysing { build, .. } => DecompilationStep::Send(
                build.request().unwrap(),
            ),
            Decompilation::Rendering { address, analysis } => DecompilationStep::Render {
                meta_address: analysis.decompile_target(*address),
            },
        }
    }

    /// Takes the reply to the request that was due. A failure ends the decompilation.
    pub fn advance(self, reply: Result<(), Error>, context: &mut LiftContext) -> (advanced: Result<
        Decompilation<'a>,
        Error,
    >)
        requires
            self.well_formed(),
            self is Analysing,
            self@->build.accepts(reply),
        ensures
            match reply {
                Ok(_) => advanced matches Ok(next) && next.well_formed() && next@
                    == self@.advanced(
                    old(context).lifted@,
                    old(context).functions@,
                    old(context).llvm_ir@,
                    old(context).untranslated@,
                ),
                Err(error) => advanced == Err::<Decompilation<'a>, Error>(error),
            },
            final(context).same_task(*old(context)),
            final(context).functions == old(context).functions,
            final(context).lifted == old(context).lifted,
            final(context).error == old(context).error,
            match advanced {
                Ok(Decompilation::Rendering { .. }) => final(context).llvm_ir@ == Seq::<
                    char,
                >::empty() && final(context).untranslated@ == Seq::<Untranslated>::empty(),
                _ => *final(context) == *old(context),
            },
    {
        match self {
            Decompilation::Analysing { address, build } => {
                let mut build = build;
                match build.advance(reply, context) {
                    Ok(_) => {},
                    Err(error) => {
                        return Err(error);
                    },
                }
                if build.is_complete() {
                    let analysis = build.finish(context);
                    Ok(Decompilation::Rendering { address, analysis })
                } else {
                    Ok(Decompilation::Analysing { address, build })
                }
            },
            Decompilation::Rendering { .. } => unreached(),
        }
    }

    /// Takes the rendering of the function.
    pub fn rendered(self, rendered: Result<Rendering, Error>) -> (decompiled: Result<Output, Error>)
        requires
            self.well_formed(),
            self is Rendering,
        ensures
            match rendered {
                Ok(rendering) => decompiled matches Ok(output) && output@
                    == self@->analysis.output(rendering),
                Err(error) => decompiled == Err::<Output, Error>(error),
            },
    {
        match self {
            Decompilation::Analysing { .. } => unreached(),
            Decompilation::Rendering { analysis, .. } => analysis.decompile(rendered),
        }
    }
}

/// Whether every text in `action`, but for the names of imports, can be handed over as a C string.
pub open spec fn has_c_texts(action: Action) -> bool {
    match action {
        Action::SetDefaultAbi { abi } => nul_free(abi),
        Action::RegisterImports { abi, imports, pointer_size } => nul_free(abi),
        Action::AddFunction { meta_address, name } => nul_free(meta_address) && nul_free(name),
        Action::SetPrototype { meta_address, abi, name, prototype, pointer_size } => nul_free(
            meta_address,
        ) && nul_free(abi) && nul_free(name),
        Action::RunFunctionAnalysis { analysis, functions } => nul_free(analysis) && forall|i: int|
            0 <= i < functions.len() ==> nul_free(#[trigger] functions[i]),
        Action::RunAnalysis { stage, analysis } => nul_free(stage) && nul_free(analysis),
        _ => true,
    }
}

/// Where the ABI can be handed over as a C string, so can every text of every request, but for the
/// names of imports.
pub proof fn requests_have_c_texts(
    settings: Settings,
    seed: u64,
    lifted: Set<u64>,
    reached: Set<u64>,
)
    requires
        nul_free(settings.assumed_abi()),
    ensures
        forall|i: int|
            0 <= i < settings.opening(seed).len() ==> has_c_texts(
                #[trigger] settings.opening(seed)[i],
            ),
        forall|i: int|
            0 <= i < settings.analyses(seed, lifted, reached).len() ==> has_c_texts(
                #[trigger] settings.analyses(seed, lifted, reached)[i],
            ),
{
    let architecture = settings.architecture();
    let abi = settings.assumed_abi();
    reveal_strlit("function");
    reveal_strlit("detect-c-strings");
    reveal_strlit("analyze-data-layout");
    reveal_strlit("");
    reveal_strlit("convert-functions-to-cabi");
    meta_address_is_nul_free(seed, architecture);
    declarations_have_c_texts(settings.declared, lifted, abi, architecture);
    let texts = settings.function_texts(seed, reached);
    assert forall|i: int| 0 <= i < texts.len() implies nul_free(#[trigger] texts[i]) by {
        meta_address_is_nul_free(
            ascending(settings.functions(seed, reached))[i],
            architecture,
        );
    }
}

/// The texts of declarations can be handed over as C strings.
proof fn declarations_have_c_texts(
    declared: Seq<DeclaredFunction>,
    lifted: Set<u64>,
    abi: Seq<char>,
    architecture: Architecture,
)
    requires
        nul_free(abi),
    ensures
        forall|i: int|
            0 <= i < declarations(declared, lifted, abi, architecture).len() ==> has_c_texts(
                #[trigger] declarations(declared, lifted, abi, architecture)[i],
            ),
    decreases declared.len(),
{
    if declared.len() > 0 {
        declarations_have_c_texts(declared.drop_last(), lifted, abi, architecture);
        meta_address_is_nul_free(declared.last().address.0, architecture);
        function_name_is_nul_free(declared.last().address.0);
        let earlier = declarations(declared.drop_last(), lifted, abi, architecture);
        let all = declarations(declared, lifted, abi, architecture);
        assert forall|i: int| 0 <= i < all.len() implies has_c_texts(#[trigger] all[i]) by {
            if i < earlier.len() {
                assert(all[i] == earlier[i]);
            }
        }
    }
}

/// An analysis covers the function that it was made for.
pub proof fn analysis_covers_its_seed(settings: Settings, seed: u64, reached: Set<u64>)
    ensures
        settings.covered(seed, reached).contains(seed),
{
}

/// What an analysis covers besides the function that it was made for are functions that this one
/// reaches, and no imports.
pub proof fn covered_functions_are_reached(
    settings: Settings,
    seed: u64,
    reached: Set<u64>,
    address: u64,
)
    requires
        settings.covered(seed, reached).contains(address),
        address != seed,
    ensures
        reached.contains(address),
        !settings.imports_at(address),
{
}

/// With a limited depth, or with the prototype given, an analysis covers one function.
pub proof fn limited_analysis_covers_one_function(
    settings: Settings,
    seed: u64,
    reached: Set<u64>,
)
    requires
        settings.max_depth is Some || settings.prototype is Some,
    ensures
        settings.covered(seed, reached) == set![seed],
{
}

/// The functions that are analysed are named in ascending order of address, each once, and no
/// import is among them.
pub proof fn analysed_functions_ascend(settings: Settings, seed: u64, reached: Set<u64>)
    requires
        reached.finite(),
    ensures
        lists(
            ascending(settings.functions(seed, reached)),
            settings.functions(seed, reached),
        ),
        forall|i: int|
            0 <= i < ascending(settings.functions(seed, reached)).len() ==> !settings.imports_at(
                #[trigger] ascending(settings.functions(seed, reached))[i],
            ),
{
    let functions = settings.functions(seed, reached);
    assert(functions.subset_of(reached.insert(seed)));
    vstd::set_lib::lemma_set_subset_finite(reached.insert(seed), functions);
    finite_set_is_listed(functions);
    let listing = ascending(functions);
    assert forall|i: int| 0 <= i < listing.len() implies !settings.imports_at(
        #[trigger] listing[i],
    ) by {
        assert(listing.contains(listing[i]));
    }
}

/// A build after `count` successful replies, with `lifted(i)` and `reached(i)` what the lifter had
/// left when reply number `i` came.
pub open spec fn after_replies(
    build: BuildView,
    count: nat,
    lifted: spec_fn(nat) -> Set<u64>,
    reached: spec_fn(nat) -> Set<u64>,
) -> BuildView
    decreases count,
{
    if count == 0 {
        build
    } else {
        let earlier = (count - 1) as nat;
        after_replies(build, earlier, lifted, reached).advanced(lifted(earlier), reached(earlier))
    }
}

/// A build that has just begun.
pub open spec fn begun(settings: Settings, seed: u64) -> BuildView {
    BuildView { settings, seed, phase: Phase::Opening { done: 0 }, failed: false }
}

/// The number of the request that has the code lifted.
pub open spec fn root_request(settings: Settings, seed: u64) -> nat {
    (settings.opening(seed).len() - 1) as nat
}

/// As long as the replies are successful, a build sends the requests that lift the code, then
/// those that the lifted code calls for, each once and in this order, and is complete after the
/// last. What counts is what the lifter had left when the code was first lifted: later runs change
/// nothing.
pub proof fn build_sends_every_request(
    settings: Settings,
    seed: u64,
    lifted: spec_fn(nat) -> Set<u64>,
    reached: spec_fn(nat) -> Set<u64>,
    count: nat,
)
    ensures
        ({
            let root = root_request(settings, seed);
            let all = settings.opening(seed) + settings.analyses(seed, lifted(root), reached(root));
            let build = after_replies(begun(settings, seed), count, lifted, reached);
            &&& settings.opening(seed)[root as int] == Action::ProduceRoot
            &&& count < all.len() ==> build.due() == Some(all[count as int])
            &&& count < all.len() ==> !build.complete()
            &&& count == all.len() ==> build.complete() && build.due() is None
        }),
{
    build_position(settings, seed, lifted, reached, count);
}

/// Where a build stands after `count` successful replies.
proof fn build_position(
    settings: Settings,
    seed: u64,
    lifted: spec_fn(nat) -> Set<u64>,
    reached: spec_fn(nat) -> Set<u64>,
    count: nat,
)
    ensures
        ({
            let root = root_request(settings, seed);
            let build = after_replies(begun(settings, seed), count, lifted, reached);
            &&& build.settings == settings
            &&& build.seed == seed
            &&& !build.failed
            &&& build.phase == if count <= root {
                Phase::Opening { done: count as int }
            } else {
                Phase::Analysing {
                    lifted: lifted(root),
                    reached: reached(root),
                    done: count - root - 1,
                }
            }
        }),
    decreases count,
{
    if count > 0 {
        build_position(settings, seed, lifted, reached, (count - 1) as nat);
    }
}

/// When the last request succeeds, what was to be decompiled is rendered: the function that was
/// asked for, from an analysis that covers it.
pub proof fn decompilation_comes_to_rendering(
    settings: Settings,
    address: u64,
    lifted: spec_fn(nat) -> Set<u64>,
    reached: spec_fn(nat) -> Set<u64>,
    llvm_ir: Seq<char>,
    untranslated: Seq<Untranslated>,
)
    ensures
        ({
            let root = root_request(settings, address);
            let all = settings.opening(address) + settings.analyses(
                address,
                lifted(root),
                reached(root),
            );
            let last = (all.len() - 1) as nat;
            let state = DecompilationView::Analysing {
                address,
                build: after_replies(begun(settings, address), last, lifted, reached),
            };
            let covered = settings.covered(address, reached(root));
            let rendering = state.advanced(lifted(last), reached(last), llvm_ir, untranslated);
            &&& covered.contains(address)
            &&& rendering.target() == hex_text(address) + ":Code_"@
                + settings.binary.architecture.name()
            &&& rendering == (DecompilationView::Rendering {
                address,
                analysis: AnalysisView {
                    covered,
                    architecture: settings.architecture(),
                    llvm_ir,
                    untranslated,
                },
            })
        }),
{
    let root = root_request(settings, address);
    let all = settings.opening(address) + settings.analyses(address, lifted(root), reached(root));
    build_position(settings, address, lifted, reached, all.len());
    assert(after_replies(begun(settings, address), all.len(), lifted, reached).complete());
}

/// A build that was stopped by a failure sends nothing more and is never complete.
pub proof fn stopped_build_stays_stopped(build: BuildView)
    ensures
        build.stopped().due() is None,
        !build.stopped().complete(),
{
}

/// As long as requests are left, a decompilation goes on with the analysis of the same function.
pub proof fn decompilation_goes_on_with_its_function(
    settings: Settings,
    address: u64,
    lifted: spec_fn(nat) -> Set<u64>,
    reached: spec_fn(nat) -> Set<u64>,
    llvm_ir: Seq<char>,
    untranslated: Seq<Untranslated>,
    count: nat,
)
    requires
        count + 1 < settings.opening(address).len() + settings.analyses(
            address,
            lifted(root_request(settings, address)),
            reached(root_request(settings, address)),
        ).len(),
    ensures
        ({
            let before = DecompilationView::Analysing {
                address,
                build: after_replies(begun(settings, address), count, lifted, reached),
            };
            let after = before.advanced(lifted(count), reached(count), llvm_ir, untranslated);
            &&& after is Analysing
            &&& after->Analysing_address == address
            &&& after->build == after_replies(begun(settings, address), count + 1, lifted, reached)
        }),
{
    build_sends_every_request(settings, address, lifted, reached, count + 1);
}

/// Until the code is lifted, six things are asked for: that revng is brought up; a manager for the
/// function that was asked for; the ABI that was set, or else the usual one of the architecture, as
/// the default; the imports, as they were given, with the same ABI and the size of a pointer; the
/// lifter; and the lifted code.
pub proof fn opening_asks_for_six_things(settings: Settings, seed: u64, abi: Seq<char>)
    requires
        settings.abi matches Some(given) ==> abi == given,
        settings.abi is None ==> abi == settings.binary.architecture.usual_abi(),
    ensures
        settings.opening(seed).len() == 6,
        settings.opening(seed)[0] == Action::Initialise,
        settings.opening(seed)[1] == (Action::CreateManager { seed }),
        settings.opening(seed)[2] == (Action::SetDefaultAbi { abi }),
        settings.opening(seed)[3] == (Action::RegisterImports {
            abi,
            imports: settings.imports,
            pointer_size: settings.binary.architecture.pointer_bytes(),
        }),
        settings.opening(seed)[4] == Action::SetLifter,
        settings.opening(seed)[5] == Action::ProduceRoot,
{
}

/// Where the prototype of the function is given, one thing is asked for once the code is lifted: that
/// the function at the address that was asked for has this prototype, under the name `function`, with
/// the ABI that was set, or else the usual one of the architecture.
pub proof fn given_prototype_is_all_that_is_asked_for(
    settings: Settings,
    seed: u64,
    lifted: Set<u64>,
    reached: Set<u64>,
    abi: Seq<char>,
)
    requires
        settings.prototype is Some,
        settings.abi matches Some(given) ==> abi == given,
        settings.abi is None ==> abi == settings.binary.architecture.usual_abi(),
    ensures
        settings.analyses(seed, lifted, reached).len() == 1,
        settings.analyses(seed, lifted, reached)[0] == (Action::SetPrototype {
            meta_address: hex_text(seed) + ":Code_"@ + settings.binary.architecture.name(),
            abi,
            name: "function"@,
            prototype: settings.prototype->0,
            pointer_size: settings.binary.architecture.pointer_bytes(),
        }),
{
}

/// Declared functions are made known in pairs of requests.
proof fn declarations_are_pairs(
    declared: Seq<DeclaredFunction>,
    lifted: Set<u64>,
    abi: Seq<char>,
    architecture: Architecture,
)
    ensures
        ({
            let all = declarations(declared, lifted, abi, architecture);
            let known = declared.filter(
                |function: DeclaredFunction| lifted.contains(function.address.0),
            );
            &&& all.len() == 2 * known.len()
            &&& forall|i: int|
                0 <= i < known.len() ==> {
                    let address = (#[trigger] known[i]).address.0;
                    &&& all[2 * i] == (Action::AddFunction {
                        meta_address: hex_text(address) + ":Code_"@ + architecture.name(),
                        name: "function_"@ + hex_text(address),
                    })
                    &&& all[2 * i + 1] == (Action::SetPrototype {
                        meta_address: hex_text(address) + ":Code_"@ + architecture.name(),
                        abi,
                        name: "function_"@ + hex_text(address),
                        prototype: known[i].prototype,
                        pointer_size: architecture.pointer_bytes(),
                    })
                }
        }),
    decreases declared.len(),
{
    reveal(Seq::filter);
    if declared.len() > 0 {
        let keep = |function: DeclaredFunction| lifted.contains(function.address.0);
        let earlier = declarations(declared.drop_last(), lifted, abi, architecture);
        let all = declarations(declared, lifted, abi, architecture);
        let fewer = declared.drop_last().filter(keep);
        let known = declared.filter(keep);
        declarations_are_pairs(declared.drop_last(), lifted, abi, architecture);
        assert forall|i: int| 0 <= i < known.len() implies {
            let address = (#[trigger] known[i]).address.0;
            &&& all[2 * i] == (Action::AddFunction {
                meta_address: hex_text(address) + ":Code_"@ + architecture.name(),
                name: "function_"@ + hex_text(address),
            })
            &&& all[2 * i + 1] == (Action::SetPrototype {
                meta_address: hex_text(address) + ":Code_"@ + architecture.name(),
                abi,
                name: "function_"@ + hex_text(address),
                prototype: known[i].prototype,
                pointer_size: architecture.pointer_bytes(),
            })
        } by {
            if i < fewer.len() {
                assert(known[i] == fewer[i]);
                assert(all[2 * i] == earlier[2 * i]);
                assert(all[2 * i + 1] == earlier[2 * i + 1]);
            }
        }
    }
}

/// Where no prototype is given, the functions that were declared and lifted are made known first, in
/// the order in which they were declared: each is added, and given its own prototype with the ABI
/// that was set, or else the usual one of the architecture. Then the ABI is detected, two analyses
/// run on the same functions, and one on everything.
pub proof fn declared_functions_come_first(
    settings: Settings,
    seed: u64,
    lifted: Set<u64>,
    reached: Set<u64>,
    abi: Seq<char>,
)
    requires
        settings.prototype is None,
        settings.abi matches Some(given) ==> abi == given,
        settings.abi is None ==> abi == settings.binary.architecture.usual_abi(),
    ensures
        ({
            let all = settings.analyses(seed, lifted, reached);
            let architecture = settings.binary.architecture;
            let known = settings.declared.filter(
                |function: DeclaredFunction| lifted.contains(function.address.0),
            );
            let n = 2 * known.len() as int;
            &&& all.len() == n + 4
            &&& forall|i: int|
                0 <= i < known.len() ==> {
                    let address = (#[trigger] known[i]).address.0;
                    &&& all[2 * i] == (Action::AddFunction {
                        meta_address: hex_text(address) + ":Code_"@ + architecture.name(),
                        name: "function_"@ + hex_text(address),
                    })
                    &&& all[2 * i + 1] == (Action::SetPrototype {
                        meta_address: hex_text(address) + ":Code_"@ + architecture.name(),
                        abi,
                        name: "function_"@ + hex_text(address),
                        prototype: known[i].prototype,
                        pointer_size: architecture.pointer_bytes(),
                    })
                }
            &&& all[n] == Action::DetectAbi
            &&& all[n + 1] is RunFunctionAnalysis
            &&& all[n + 1]->RunFunctionAnalysis_analysis == "detect-c-strings"@
            &&& all[n + 2] is RunFunctionAnalysis
            &&& all[n + 2]->RunFunctionAnalysis_analysis == "analyze-data-layout"@
            &&& all[n + 2]->functions == all[n + 1]->functions
            &&& all[n + 3] == (Action::RunAnalysis {
                stage: ""@,
                analysis: "convert-functions-to-cabi"@,
            })
        }),
{
    declarations_are_pairs(settings.declared, lifted, abi, settings.binary.architecture);
    let declared = declarations(
        settings.declared,
        lifted,
        abi,
        settings.binary.architecture,
    );
    let all = settings.analyses(seed, lifted, reached);
    assert(all.take(declared.len() as int) == declared);
    assert forall|i: int| 0 <= i < declared.len() implies all[i] == declared[i] by {
        assert(all.take(declared.len() as int)[i] == declared[i]);
    }
}

/// The functions that an analysis runs on are the one that was asked for and those that it reaches,
/// but for imports; each is named once, by its address and the architecture of the binary, and they
/// are in ascending order of address.
pub proof fn analysed_functions_are_those_reached(
    settings: Settings,
    seed: u64,
    lifted: Set<u64>,
    reached: Set<u64>,
    place: int,
    functions: Seq<Seq<char>>,
)
    requires
        reached.finite(),
        0 <= place < settings.analyses(seed, lifted, reached).len(),
        settings.analyses(seed, lifted, reached)[place] is RunFunctionAnalysis,
        functions == settings.analyses(seed, lifted, reached)[place]->functions,
    ensures
        forall|i: int|
            0 <= i < functions.len() ==> {
                let address = entry_read(#[trigger] functions[i]);
                &&& address is Some
                &&& functions[i] == hex_text(address->0) + ":Code_"@
                    + settings.binary.architecture.name()
                &&& address->0 == seed || reached.contains(address->0)
                &&& forall|j: int|
                    0 <= j < settings.imports.len() ==> (#[trigger] settings.imports[j]).address.0
                        != address->0
            },
        forall|i: int, j: int|
            0 <= i < j < functions.len() ==> entry_read(#[trigger] functions[i])->0 < entry_read(
                #[trigger] functions[j],
            )->0,
        forall|address: u64|
            (address == seed || reached.contains(address)) && (forall|j: int|
                0 <= j < settings.imports.len() ==> (#[trigger] settings.imports[j]).address.0
                    != address) ==> functions.contains(
                #[trigger] hex_text(address) + ":Code_"@ + settings.binary.architecture.name(),
            ),
{
    let architecture = settings.binary.architecture;
    let listing = ascending(settings.functions(seed, reached));
    analysed_functions_ascend(settings, seed, reached);
    match settings.prototype {
        Some(_) => {},
        None => {
            declarations_are_no_analyses(
                settings.declared,
                lifted,
                settings.assumed_abi(),
                architecture,
            );
            let declared = declarations(
                settings.declared,
                lifted,
                settings.assumed_abi(),
                architecture,
            );
            if place < declared.len() {
                assert(settings.analyses(seed, lifted, reached)[place] == declared[place]);
            }
        },
    }
    assert(functions == settings.function_texts(seed, reached));
    assert forall|i: int| 0 <= i < functions.len() implies {
        let address = entry_read(#[trigger] functions[i]);
        &&& address == Some(listing[i])
        &&& functions[i] == hex_text(address->0) + ":Code_"@ + architecture.name()
        &&& address->0 == seed || reached.contains(address->0)
        &&& forall|j: int|
            0 <= j < settings.imports.len() ==> (#[trigger] settings.imports[j]).address.0
                != address->0
    } by {
        meta_address_read_back(listing[i], architecture);
        assert(listing.contains(listing[i]));
        assert(settings.functions(seed, reached).contains(listing[i]));
    }
    assert forall|i: int, j: int| 0 <= i < j < functions.len() implies entry_read(
        #[trigger] functions[i],
    )->0 < entry_read(#[trigger] functions[j])->0 by {
        assert(listing[i] < listing[j]);
    }
    assert forall|address: u64|
        (address == seed || reached.contains(address)) && (forall|j: int|
            0 <= j < settings.imports.len() ==> (#[trigger] settings.imports[j]).address.0
                != address) implies functions.contains(
        #[trigger] hex_text(address) + ":Code_"@ + settings.binary.architecture.name(),
    ) by {
        assert(settings.functions(seed, reached).contains(address));
        assert(listing.contains(address));
        let i = choose|i: int| 0 <= i < listing.len() && listing[i] == address;
        assert(functions[i] == hex_text(address) + ":Code_"@ + architecture.name());
    }
}

/// Making functions known runs no analysis.
proof fn declarations_are_no_analyses(
    declared: Seq<DeclaredFunction>,
    lifted: Set<u64>,
    abi: Seq<char>,
    architecture: Architecture,
)
    ensures
        forall|i: int|
            0 <= i < declarations(declared, lifted, abi, architecture).len() ==> !((
            #[trigger] declarations(declared, lifted, abi, architecture)[i]) is RunFunctionAnalysis),
    decreases declared.len(),
{
    if declared.len() > 0 {
        declarations_are_no_analyses(declared.drop_last(), lifted, abi, architecture);
    }
}

/// Every request that has an ABI in it has the one that was set, or else the usual one of the
/// architecture; every one that has the size of a pointer has that of the architecture.
pub proof fn every_request_has_the_abi(
    settings: Settings,
    seed: u64,
    lifted: Set<u64>,
    reached: Set<u64>,
    abi: Seq<char>,
    place: int,
)
    requires
        settings.abi matches Some(given) ==> abi == given,
        settings.abi is None ==> abi == settings.binary.architecture.usual_abi(),
        0 <= place < (settings.opening(seed) + settings.analyses(seed, lifted, reached)).len(),
    ensures
        match (settings.opening(seed) + settings.analyses(seed, lifted, reached))[place] {
            Action::SetDefaultAbi { abi: said } => said == abi,
            Action::RegisterImports { abi: said, imports, pointer_size } => said == abi
                && pointer_size == settings.binary.architecture.pointer_bytes(),
            Action::SetPrototype { meta_address, abi: said, name, prototype, pointer_size } => said
                == abi && pointer_size == settings.binary.architecture.pointer_bytes(),
            _ => true,
        },
{
    declarations_have_the_abi(settings.declared, lifted, abi, settings.binary.architecture);
    let opening = settings.opening(seed);
    let analyses = settings.analyses(seed, lifted, reached);
    let declared = declarations(settings.declared, lifted, abi, settings.binary.architecture);
    if place >= opening.len() && settings.prototype is None {
        let i = place - opening.len();
        assert((opening + analyses)[place] == analyses[i]);
        if i < declared.len() {
            assert(analyses[i] == declared[i]);
        }
    }
}

/// The requests that make functions known have this ABI.
proof fn declarations_have_the_abi(
    declared: Seq<DeclaredFunction>,
    lifted: Set<u64>,
    abi: Seq<char>,
    architecture: Architecture,
)
    ensures
        forall|i: int|
            0 <= i < declarations(declared, lifted, abi, architecture).len() ==> {
                match #[trigger] declarations(declared, lifted, abi, architecture)[i] {
                    Action::SetPrototype { meta_address, abi: said, name, prototype, pointer_size } =>
                        said == abi && pointer_size == architecture.pointer_bytes(),
                    Action::AddFunction { meta_address, name } => true,
                    _ => false,
                }
            },
    decreases declared.len(),
{
    if declared.len() > 0 {
        declarations_have_the_abi(declared.drop_last(), lifted, abi, architecture);
    }
}

/// What can be decompiled from an analysis is the function that it was made for and, where neither
/// the depth is limited nor the prototype given, those that it reaches, but for imports. The rest of
/// the analysis is what the lifter has left, and the architecture of the binary.
pub proof fn analysis_covers_what_is_reached(
    build: BuildView,
    llvm_ir: Seq<char>,
    untranslated: Seq<Untranslated>,
    address: u64,
)
    requires
        build.phase is Analysing,
    ensures
        ({
            let analysis = build.analysis(llvm_ir, untranslated);
            &&& analysis.covered.contains(address) <==> {
                ||| address == build.seed
                ||| {
                    &&& build.settings.prototype is None
                    &&& build.settings.max_depth is None
                    &&& build.phase->reached.contains(address)
                    &&& forall|i: int|
                        0 <= i < build.settings.imports.len() ==> (
                        #[trigger] build.settings.imports[i]).address.0 != address
                }
            }
            &&& analysis.architecture == build.settings.binary.architecture
            &&& analysis.llvm_ir == llvm_ir
            &&& analysis.untranslated == untranslated
        }),
{
}

/// What is rendered at the end of a decompilation is the code at its address, of the architecture
/// of the analysis.
pub proof fn rendering_is_of_the_address(address: u64, analysis: AnalysisView)
    ensures
        (DecompilationView::Rendering { address, analysis }).target() == hex_text(address)
            + ":Code_"@ + analysis.architecture.name(),
        entry_read((DecompilationView::Rendering { address, analysis }).target()) == Some(address),
{
    meta_address_read_back(address, analysis.architecture);
}

} // verus!
