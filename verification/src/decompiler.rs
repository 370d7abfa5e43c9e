//! A decompiler: a binary, what is known of its functions beforehand, and the analysis of it.

use std::collections::BTreeSet;
use std::rc::Rc;

use rustc_hash::{FxHashMap, FxHashSet};
use vstd::prelude::*;

use crate::address::{function_name, meta_address, Address};
#[allow(unused_imports)]
use crate::address::{function_name_text, meta_address_text};
use crate::architecture::Architecture;
use crate::ascending::listed;
#[allow(unused_imports)]
use crate::ascending::ascending;
use crate::binary::{Binary, FunctionSymbol};
use crate::error::Error;
use crate::fx::{map_contains, map_insert, set_contains, set_insert, set_values};
use crate::lift::LiftContext;
#[allow(unused_imports)]
use crate::output::Untranslated;
use crate::prototype::{Primitive, Prototype};
#[allow(unused_imports)]
use crate::prototype::PrimitiveKind;
use crate::text::has_nul;
#[allow(unused_imports)]
use crate::text::nul_free;

verus! {

/// A function that the binary takes from elsewhere.
#[derive(Debug)]
pub struct Import {
    pub name: String,
    pub address: Address,
    pub prototype: Prototype,
}

/// A function whose prototype is known beforehand.
#[derive(Debug)]
pub struct DeclaredFunction {
    pub address: Address,
    pub prototype: Prototype,
}

/// A binary, and what is known of its functions beforehand.
#[derive(Debug)]
pub struct Decompiler {
    binary: Rc<Binary>,
    abi: Option<String>,
    prototype: Option<Prototype>,
    max_depth: Option<u32>,
    declared: Vec<DeclaredFunction>,
    imports: Vec<Import>,
}

/// What a [`Decompiler`] holds.
pub struct Settings {
    pub binary: Binary,
    pub abi: Option<Seq<char>>,
    pub prototype: Option<Prototype>,
    pub max_depth: Option<u32>,
    pub declared: Seq<DeclaredFunction>,
    pub imports: Seq<Import>,
}

impl View for Decompiler {
    type V = Settings;

    closed spec fn view(&self) -> Settings {
        Settings {
            binary: *self.binary,
            abi: match self.abi {
                Some(abi) => Some(abi@),
                None => None,
            },
            prototype: self.prototype,
            max_depth: self.max_depth,
            declared: self.declared@,
            imports: self.imports@,
        }
    }
}

/// Something to ask of the pipeline.
#[derive(Debug)]
pub enum Request<'a> {
    /// Bring revng up.
    Initialise,
    /// Create a manager for the binary, as seen from `seed`.
    CreateManager { seed: u64 },
    /// Assume `abi` where nothing else is known.
    SetDefaultAbi { abi: String },
    /// Make the imports known.
    RegisterImports { abi: String, imports: &'a [Import], pointer_size: u16 },
    /// Have code lifted by the lifter that works from a [`LiftContext`].
    SetLifter,
    /// Lift the code.
    ProduceRoot,
    /// Make a function known.
    AddFunction { meta_address: String, name: String },
    /// Give a function its prototype.
    SetPrototype {
        meta_address: String,
        abi: String,
        name: String,
        prototype: &'a Prototype,
        pointer_size: u16,
    },
    /// Find out how the functions are called.
    DetectAbi,
    /// Run an analysis on some functions.
    RunFunctionAnalysis { analysis: &'static str, functions: Vec<String> },
    /// Run an analysis on everything.
    RunAnalysis { stage: &'static str, analysis: &'static str },
}

/// What a [`Request`] asks for.
pub enum Action {
    Initialise,
    CreateManager { seed: u64 },
    SetDefaultAbi { abi: Seq<char> },
    RegisterImports { abi: Seq<char>, imports: Seq<Import>, pointer_size: u16 },
    SetLifter,
    ProduceRoot,
    AddFunction { meta_address: Seq<char>, name: Seq<char> },
    SetPrototype {
        meta_address: Seq<char>,
        abi: Seq<char>,
        name: Seq<char>,
        prototype: Prototype,
        pointer_size: u16,
    },
    DetectAbi,
    RunFunctionAnalysis { analysis: Seq<char>, functions: Seq<Seq<char>> },
    RunAnalysis { stage: Seq<char>, analysis: Seq<char> },
}

/// Texts as their characters.
pub open spec fn all_characters(texts: Seq<String>) -> Seq<Seq<char>> {
    texts.map_values(|text: String| text@)
}

impl<'a> View for Request<'a> {
    type V = Action;

    open spec fn view(&self) -> Action {
        match *self {
            Request::Initialise => Action::Initialise,
            Request::CreateManager { seed } => Action::CreateManager { seed },
            Request::SetDefaultAbi { abi } => Action::SetDefaultAbi { abi: abi@ },
            Request::RegisterImports { abi, imports, pointer_size } => Action::RegisterImports {
                abi: abi@,
                imports: imports@,
                pointer_size,
            },
            Request::SetLifter => Action::SetLifter,
            Request::ProduceRoot => Action::ProduceRoot,
            Request::AddFunction { meta_address, name } => Action::AddFunction {
                meta_address: meta_address@,
                name: name@,
            },
            Request::SetPrototype { meta_address, abi, name, prototype, pointer_size } =>
                Action::SetPrototype {
                meta_address: meta_address@,
                abi: abi@,
                name: name@,
                prototype: *prototype,
                pointer_size,
            },
            Request::DetectAbi => Action::DetectAbi,
            Request::RunFunctionAnalysis { analysis, functions } => Action::RunFunctionAnalysis {
                analysis: analysis@,
                functions: all_characters(functions@),
            },
            Request::RunAnalysis { stage, analysis } => Action::RunAnalysis {
                stage: stage@,
                analysis: analysis@,
            },
        }
    }
}

/// What requests ask for, in order.
pub open spec fn actions<'a>(requests: Seq<Request<'a>>) -> Seq<Action> {
    requests.map_values(|request: Request<'a>| request@)
}

/// The names of imports by address; of several at one address, the last.
pub open spec fn names_by_address(imports: Seq<Import>) -> Map<u64, String>
    decreases imports.len(),
{
    if imports.len() == 0 {
        Map::empty()
    } else {
        names_by_address(imports.drop_last()).insert(imports.last().address.0, imports.last().name)
    }
}

/// What to ask for to make the functions known that were declared and that were lifted, in the
/// order in which they were declared.
pub open spec fn declarations(
    declared: Seq<DeclaredFunction>,
    lifted: Set<u64>,
    abi: Seq<char>,
    architecture: Architecture,
) -> Seq<Action>
    decreases declared.len(),
{
    if declared.len() == 0 {
        Seq::empty()
    } else {
        let earlier = declarations(declared.drop_last(), lifted, abi, architecture);
        let address = declared.last().address.0;
        if lifted.contains(address) {
            earlier.push(
                Action::AddFunction {
                    meta_address: meta_address_text(address, architecture),
                    name: function_name_text(address),
                },
            ).push(
                Action::SetPrototype {
                    meta_address: meta_address_text(address, architecture),
                    abi,
                    name: function_name_text(address),
                    prototype: declared.last().prototype,
                    pointer_size: architecture.pointer_bytes(),
                },
            )
        } else {
            earlier
        }
    }
}

impl Settings {
    /// The architecture of the code.
    pub open spec fn architecture(self) -> Architecture {
        self.binary.architecture
    }

    /// The ABI to assume: the one that was set, or the usual one of the architecture.
    pub open spec fn assumed_abi(self) -> Seq<char> {
        match self.abi {
            Some(abi) => abi,
            None => self.architecture().usual_abi(),
        }
    }

    /// Whether `address` is that of an import.
    pub open spec fn imports_at(self, address: u64) -> bool {
        exists|i: int| 0 <= i < self.imports.len() && (#[trigger] self.imports[i]).address.0 == address
    }

    /// What to ask for until the code is lifted.
    pub open spec fn opening(self, seed: u64) -> Seq<Action> {
        seq![
            Action::Initialise,
            Action::CreateManager { seed },
            Action::SetDefaultAbi { abi: self.assumed_abi() },
            Action::RegisterImports {
                abi: self.assumed_abi(),
                imports: self.imports,
                pointer_size: self.architecture().pointer_bytes(),
            },
            Action::SetLifter,
            Action::ProduceRoot,
        ]
    }

    /// The functions to analyse: the one that was asked for and those that it reaches, without the
    /// imports.
    pub open spec fn functions(self, seed: u64, reached: Set<u64>) -> Set<u64> {
        Set::new(
            |address: u64|
                (address == seed || reached.contains(address)) && !self.imports_at(address),
        )
    }

    /// The meta addresses of the functions to analyse, in ascending order of address.
    pub open spec fn function_texts(self, seed: u64, reached: Set<u64>) -> Seq<Seq<char>> {
        ascending(self.functions(seed, reached)).map_values(
            |address: u64| meta_address_text(address, self.architecture()),
        )
    }

    /// What to ask for once the code is lifted. Where the prototype of the function is given,
    /// nothing is left to find out.
    pub open spec fn analyses(self, seed: u64, lifted: Set<u64>, reached: Set<u64>) -> Seq<Action> {
        match self.prototype {
            Some(prototype) => seq![
                Action::SetPrototype {
                    meta_address: meta_address_text(seed, self.architecture()),
                    abi: self.assumed_abi(),
                    name: "function"@,
                    prototype,
                    pointer_size: self.architecture().pointer_bytes(),
                },
            ],
            None => declarations(self.declared, lifted, self.assumed_abi(), self.architecture())
                + seq![
                Action::DetectAbi,
                Action::RunFunctionAnalysis {
                    analysis: "detect-c-strings"@,
                    functions: self.function_texts(seed, reached),
                },
                Action::RunFunctionAnalysis {
                    analysis: "analyze-data-layout"@,
                    functions: self.function_texts(seed, reached),
                },
                Action::RunAnalysis { stage: ""@, analysis: "convert-functions-to-cabi"@ },
            ],
        }
    }

    /// The functions that can be decompiled from the analysis: the one that was asked for and,
    /// unless its prototype is given or the depth is limited, those that it reaches, without the
    /// imports.
    pub open spec fn covered(self, seed: u64, reached: Set<u64>) -> Set<u64> {
        if self.prototype is None && self.max_depth is None {
            Set::new(
                |address: u64|
                    address == seed || (reached.contains(address) && !self.imports_at(address)),
            )
        } else {
            set![seed]
        }
    }

    /// Whether `context` is what the lifter works from when the function at `seed` is analysed,
    /// before it has found anything.
    pub open spec fn begins_lifting(self, seed: u64, context: LiftContext) -> bool {
        &&& *context.binary == self.binary
        &&& context.architecture == self.architecture()
        &&& context.entry == seed
        &&& context.imports@ == names_by_address(self.imports)
        &&& context.error@ == Seq::<char>::empty()
        &&& context.llvm_ir@ == Seq::<char>::empty()
        &&& context.functions@ == Set::<u64>::empty()
        &&& context.lifted@ == Set::<u64>::empty()
        &&& context.untranslated@ == Seq::<Untranslated>::empty()
        &&& context.max_depth == self.max_depth
    }

    /// What a decompiler for `binary` holds before anything is set.
    pub open spec fn fresh(binary: Binary) -> Settings {
        Settings {
            binary,
            abi: None,
            prototype: None,
            max_depth: None,
            declared: Seq::empty(),
            imports: Seq::empty(),
        }
    }
}

impl Decompiler {
    /// A decompiler for `binary` with nothing set.
    fn fresh(binary: Binary) -> (decompiler: Decompiler)
        ensures
            decompiler@ == Settings::fresh(binary),
    {
        Decompiler {
            binary: Rc::new(binary),
            abi: None,
            prototype: None,
            max_depth: None,
            declared: Vec::new(),
            imports: Vec::new(),
        }
    }

    /// A decompiler for a binary that was loaded from a file, if it could be loaded.
    pub fn open(loaded: Result<Binary, Error>) -> (opened: Result<Decompiler, Error>)
        ensures
            match loaded {
                Ok(binary) => opened matches Ok(decompiler) && decompiler@ == Settings::fresh(
                    binary,
                ),
                Err(error) => opened == Err::<Decompiler, Error>(error),
            },
    {
        match loaded {
            Ok(binary) => Ok(Decompiler::fresh(binary)),
            Err(error) => Err(error),
        }
    }

    /// A decompiler for raw bytes that were placed at a base address, if they could be.
    pub fn from_raw(loaded: Result<Binary, Error>) -> (opened: Result<Decompiler, Error>)
        ensures
            match loaded {
                Ok(binary) => opened matches Ok(decompiler) && decompiler@ == Settings::fresh(
                    binary,
                ),
                Err(error) => opened == Err::<Decompiler, Error>(error),
            },
    {
        match loaded {
            Ok(binary) => Ok(Decompiler::fresh(binary)),
            Err(error) => Err(error),
        }
    }

    /// Assumes `abi` where nothing else is known.
    pub fn with_abi(self, abi: String) -> (changed: Decompiler)
        ensures
            changed@ == (Settings { abi: Some(abi@), ..self@ }),
    {
        let mut changed = self;
        changed.abi = Some(abi);
        changed
    }

    /// Follows calls no further than `depth` levels.
    pub fn with_max_depth(self, depth: u32) -> (changed: Decompiler)
        ensures
            changed@ == (Settings { max_depth: Some(depth), ..self@ }),
    {
        let mut changed = self;
        changed.max_depth = Some(depth);
        changed
    }

    /// Takes the function at `address` for one that returns: a value of the size of a pointer.
    pub fn with_returning_function(self, address: Address) -> (changed: Decompiler)
        ensures
            changed@.declared.len() == self@.declared.len() + 1,
            changed@.declared.drop_last() == self@.declared,
            changed@.declared.last().address == address,
            changed@.declared.last().prototype.arguments@ == Seq::<Primitive>::empty(),
            changed@.declared.last().prototype.returns == Some(
                Primitive {
                    kind: PrimitiveKind::Generic,
                    size: self@.architecture().pointer_bytes(),
                },
            ),
            changed@ == (Settings { declared: changed@.declared, ..self@ }),
    {
        let pointer_size = self.binary.architecture().pointer_size();
        self.with_declared_function(
            address,
            Prototype::returning(Primitive::generic(pointer_size)),
        )
    }

    /// Gives the function at `address` its prototype.
    pub fn with_declared_function(self, address: Address, prototype: Prototype) -> (changed:
        Decompiler)
        ensures
            changed@ == (Settings {
                declared: self@.declared.push(DeclaredFunction { address, prototype }),
                ..self@
            }),
    {
        let mut changed = self;
        changed.declared.push(DeclaredFunction { address, prototype });
        changed
    }

    /// Gives the function that is decompiled its prototype.
    pub fn with_prototype(self, prototype: Prototype) -> (changed: Decompiler)
        ensures
            changed@ == (Settings { prototype: Some(prototype), ..self@ }),
    {
        let mut changed = self;
        changed.prototype = Some(prototype);
        changed
    }

    /// Makes the import at `address` known.
    pub fn with_import(self, name: String, address: Address, prototype: Prototype) -> (changed:
        Decompiler)
        ensures
            changed@ == (Settings {
                imports: self@.imports.push(Import { name, address, prototype }),
                ..self@
            }),
    {
        let mut changed = self;
        changed.imports.push(Import { name, address, prototype });
        changed
    }

    /// The architecture of the binary.
    pub fn architecture(&self) -> (architecture: Architecture)
        ensures
            architecture == self@.binary.architecture,
    {
        self.binary.architecture()
    }

    /// Where the binary starts, if it says so.
    pub fn entry(&self) -> (entry: Option<Address>)
        ensures
            entry == self@.binary.entry,
    {
        self.binary.entry()
    }

    /// The functions that the binary names.
    pub fn symbols(&self) -> (symbols: &[FunctionSymbol])
        ensures
            symbols@ == self@.binary.symbols@,
    {
        self.binary.symbols()
    }
}

/// The names of imports are known at their addresses, and nowhere else.
pub proof fn names_are_at_imports(settings: Settings, address: u64)
    ensures
        names_by_address(settings.imports).contains_key(address) <==> settings.imports_at(address),
    decreases settings.imports.len(),
{
    let imports = settings.imports;
    if imports.len() > 0 {
        let earlier = Settings { imports: imports.drop_last(), ..settings };
        names_are_at_imports(earlier, address);
        if earlier.imports_at(address) {
            let i = choose|i: int|
                0 <= i < earlier.imports.len() && (#[trigger] earlier.imports[i]).address.0 == address;
            assert(imports[i].address.0 == address);
        }
        if settings.imports_at(address) {
            let i = choose|i: int|
                0 <= i < imports.len() && (#[trigger] imports[i]).address.0 == address;
            if i < imports.len() - 1 {
                assert(earlier.imports[i].address.0 == address);
            }
        }
        if imports.last().address.0 == address {
            assert(imports[imports.len() - 1].address.0 == address);
        }
    }
}

impl Decompiler {
    /// The ABI to assume.
    fn assumed_abi(&self) -> (abi: String)
        ensures
            abi@ == self@.assumed_abi(),
    {
        match &self.abi {
            Some(abi) => abi.clone(),
            None => self.binary.architecture().default_abi().to_owned(),
        }
    }

    /// Whether the ABI to assume can be handed over as a C string, as an analysis needs it.
    pub fn has_c_abi(&self) -> (can: bool)
        ensures
            can == nul_free(self@.assumed_abi()),
    {
        !has_nul(self.assumed_abi().as_str())
    }

    /// The names of the imports by address.
    fn import_names(&self) -> (names: FxHashMap<u64, String>)
        ensures
            names@ == names_by_address(self@.imports),
    {
        let mut names: FxHashMap<u64, String> = FxHashMap::default();
        for i in 0..self.imports.len()
            invariant
                names@ == names_by_address(self.imports@.take(i as int)),
        {
            map_insert(&mut names, self.imports[i].address.value(), self.imports[i].name.clone());
            assert(self.imports@.take(i + 1).drop_last() == self.imports@.take(i as int));
        }
        assert(self.imports@.take(self.imports@.len() as int) == self.imports@);
        names
    }

    /// What the lifter works from when the function at `seed` is analysed.
    pub fn lift_context(&self, seed: u64) -> (context: LiftContext)
        ensures
            self@.begins_lifting(seed, context),
    {
        LiftContext {
            binary: Rc::clone(&self.binary),
            architecture: self.binary.architecture(),
            entry: seed,
            imports: self.import_names(),
            error: String::new(),
            llvm_ir: String::new(),
            functions: FxHashSet::default(),
            lifted: FxHashSet::default(),
            untranslated: Vec::new(),
            max_depth: self.max_depth,
        }
    }

    /// What to ask for until the code is lifted.
    pub(crate) fn opening_requests(&self, seed: u64) -> (requests: Vec<Request<'_>>)
        ensures
            actions(requests@) == self@.opening(seed),
    {
        let pointer_size = self.binary.architecture().pointer_size();
        let mut requests: Vec<Request<'_>> = Vec::new();
        requests.push(Request::Initialise);
        requests.push(Request::CreateManager { seed });
        requests.push(Request::SetDefaultAbi { abi: self.assumed_abi() });
        requests.push(
            Request::RegisterImports {
                abi: self.assumed_abi(),
                imports: self.imports.as_slice(),
                pointer_size,
            },
        );
        requests.push(Request::SetLifter);
        requests.push(Request::ProduceRoot);
        assert(actions(requests@) == self@.opening(seed));
        requests
    }

    /// The meta addresses of the functions to analyse.
    fn function_texts(
        &self,
        seed: u64,
        reached: &FxHashSet<u64>,
        imports: &FxHashMap<u64, String>,
    ) -> (texts: Vec<String>)
        requires
            imports@ == names_by_address(self@.imports),
        ensures
            all_characters(texts@) == self@.function_texts(seed, reached@),
    {
        let ghost settings = self@;
        let values = set_values(reached);
        let mut targets: BTreeSet<u64> = BTreeSet::new();
        if !map_contains(imports, seed) {
            targets.insert(seed);
        }
        proof {
            names_are_at_imports(settings, seed);
        }
        for i in 0..values.len()
            invariant
                settings == self@,
                imports@ == names_by_address(settings.imports),
                targets@ == settings.functions(seed, values@.take(i as int).to_set()),
        {
            let value = values[i];
            proof {
                names_are_at_imports(settings, value);
                assert(values@.take(i + 1) == values@.take(i as int).push(value));
                assert forall|address: u64|
                    values@.take(i + 1).to_set().contains(address) <==> (address == value
                        || values@.take(i as int).to_set().contains(address)) by {
                    pushed_set(values@.take(i as int), value, address);
                }
            }
            if !map_contains(imports, value) {
                targets.insert(value);
            }
            assert(targets@ == settings.functions(seed, values@.take(i + 1).to_set()));
        }
        assert(values@.take(values@.len() as int) == values@);
        let addresses = listed(&targets);
        let architecture = self.binary.architecture();
        let mut texts: Vec<String> = Vec::new();
        for i in 0..addresses.len()
            invariant
                architecture == settings.architecture(),
                texts@.len() == i,
                forall|j: int|
                    0 <= j < i ==> #[trigger] texts@[j]@ == meta_address_text(
                        addresses@[j],
                        architecture,
                    ),
        {
            texts.push(meta_address(addresses[i], architecture));
        }
        assert(all_characters(texts@) == settings.function_texts(seed, reached@));
        texts
    }

    /// What to ask for to make the functions known that were declared and that were lifted.
    fn declaration_requests(&self, lifted: &FxHashSet<u64>) -> (requests: Vec<Request<'_>>)
        ensures
            actions(requests@) == declarations(
                self@.declared,
                lifted@,
                self@.assumed_abi(),
                self@.architecture(),
            ),
    {
        let ghost settings = self@;
        let architecture = self.binary.architecture();
        let mut requests: Vec<Request<'_>> = Vec::new();
        assert(actions(requests@) == Seq::<Action>::empty());
        for i in 0..self.declared.len()
            invariant
                settings == self@,
                architecture == settings.architecture(),
                actions(requests@) == declarations(
                    self.declared@.take(i as int),
                    lifted@,
                    settings.assumed_abi(),
                    architecture,
                ),
        {
            let address = self.declared[i].address.value();
            let ghost earlier = requests@;
            assert(self.declared@.take(i + 1).drop_last() == self.declared@.take(i as int));
            if set_contains(lifted, address) {
                requests.push(
                    Request::AddFunction {
                        meta_address: meta_address(address, architecture),
                        name: function_name(address),
                    },
                );
                requests.push(
                    Request::SetPrototype {
                        meta_address: meta_address(address, architecture),
                        abi: self.assumed_abi(),
                        name: function_name(address),
                        prototype: &self.declared[i].prototype,
                        pointer_size: architecture.pointer_size(),
                    },
                );
                let ghost n = earlier.len() as int;
                assert(actions(requests@) == actions(earlier).push(requests@[n]@).push(
                    requests@[n + 1]@,
                ));
            }
        }
        assert(self.declared@.take(self.declared@.len() as int) == self.declared@);
        requests
    }

    /// What to ask for once the code is lifted.
    pub(crate) fn analysis_requests(
        &self,
        seed: u64,
        lifted: &FxHashSet<u64>,
        reached: &FxHashSet<u64>,
    ) -> (requests: Vec<Request<'_>>)
        ensures
            actions(requests@) == self@.analyses(seed, lifted@, reached@),
    {
        let architecture = self.binary.architecture();
        match &self.prototype {
            Some(prototype) => {
                let mut requests: Vec<Request<'_>> = Vec::new();
                requests.push(
                    Request::SetPrototype {
                        meta_address: meta_address(seed, architecture),
                        abi: self.assumed_abi(),
                        name: "function".to_owned(),
                        prototype,
                        pointer_size: architecture.pointer_size(),
                    },
                );
                assert(actions(requests@) == self@.analyses(seed, lifted@, reached@));
                requests
            },
            None => {
                let imports = self.import_names();
                let mut requests = self.declaration_requests(lifted);
                let ghost declared = requests@;
                requests.push(Request::DetectAbi);
                requests.push(
                    Request::RunFunctionAnalysis {
                        analysis: "detect-c-strings",
                        functions: self.function_texts(seed, reached, &imports),
                    },
                );
                requests.push(
                    Request::RunFunctionAnalysis {
                        analysis: "analyze-data-layout",
                        functions: self.function_texts(seed, reached, &imports),
                    },
                );
                requests.push(
                    Request::RunAnalysis { stage: "", analysis: "convert-functions-to-cabi" },
                );
                let ghost n = declared.len() as int;
                assert(actions(requests@) == actions(declared) + seq![
                    requests@[n]@,
                    requests@[n + 1]@,
                    requests@[n + 2]@,
                    requests@[n + 3]@,
                ]);
                requests
            },
        }
    }

    /// The functions that can be decompiled from the analysis.
    pub(crate) fn covered(&self, seed: u64, reached: &FxHashSet<u64>) -> (covered: FxHashSet<u64>)
        ensures
            covered@ == self@.covered(seed, reached@),
    {
        let ghost settings = self@;
        let mut covered: FxHashSet<u64> = FxHashSet::default();
        set_insert(&mut covered, seed);
        if self.prototype.is_none() && self.max_depth.is_none() {
            let imports = self.import_names();
            let values = set_values(reached);
            for i in 0..values.len()
                invariant
                    settings == self@,
                    settings.prototype is None && settings.max_depth is None,
                    imports@ == names_by_address(settings.imports),
                    covered@ == settings.covered(seed, values@.take(i as int).to_set()),
            {
                let value = values[i];
                let ghost before = covered@;
                proof {
                    names_are_at_imports(settings, value);
                    assert(values@.take(i + 1) == values@.take(i as int).push(value));
                    assert forall|address: u64|
                        values@.take(i + 1).to_set().contains(address) <==> (address == value
                            || values@.take(i as int).to_set().contains(address)) by {
                        pushed_set(values@.take(i as int), value, address);
                    }
                }
                if !map_contains(&imports, value) {
                    set_insert(&mut covered, value);
                }
                proof {
                    let now = settings.covered(seed, values@.take(i + 1).to_set());
                    assert forall|address: u64| covered@.contains(address) <==> now.contains(
                        address,
                    ) by {
                        assert(before.contains(address) <==> (address == seed || (values@.take(
                            i as int,
                        ).to_set().contains(address) && !settings.imports_at(address))));
                    }
                    assert(covered@ == now);
                }
            }
            assert(values@.take(values@.len() as int) == values@);
        }
        assert(covered@ == settings.covered(seed, reached@));
        covered
    }
}

/// What a sequence holds after something is put at its end.
proof fn pushed_set(values: Seq<u64>, value: u64, address: u64)
    ensures
        values.push(value).to_set().contains(address) <==> address == value
            || values.to_set().contains(address),
{
    if values.to_set().contains(address) {
        let i = choose|i: int| 0 <= i < values.len() && values[i] == address;
        assert(values.push(value)[i] == address);
    }
    if address == value {
        assert(values.push(value)[values.len() as int] == address);
    }
}

/// Of several imports at one address, the name of the last is known; where there is no import, no
/// name is.
pub proof fn last_import_names_the_address(imports: Seq<Import>, last: int, address: u64)
    ensures
        0 <= last < imports.len() && imports[last].address.0 == address && (forall|i: int|
            last < i < imports.len() ==> (#[trigger] imports[i]).address.0 != address) ==> {
            &&& names_by_address(imports).contains_key(address)
            &&& names_by_address(imports)[address] == imports[last].name
        },
        (forall|i: int| 0 <= i < imports.len() ==> (#[trigger] imports[i]).address.0 != address)
            ==> !names_by_address(imports).contains_key(address),
    decreases imports.len(),
{
    if imports.len() > 0 {
        let earlier = imports.drop_last();
        last_import_names_the_address(earlier, last, address);
        assert forall|i: int| 0 <= i < earlier.len() implies (#[trigger] earlier[i]) == imports[i] by {}
        assert(imports.last() == imports[imports.len() - 1]);
    }
}

/// The lifter starts out with the binary and its architecture, the address that was asked for, the
/// limit on the depth and the names of the imports, and has found nothing.
pub proof fn lifting_begins_with_the_task(settings: Settings, seed: u64, context: LiftContext)
    requires
        settings.begins_lifting(seed, context),
    ensures
        *context.binary == settings.binary,
        context.architecture == settings.binary.architecture,
        context.entry == seed,
        context.max_depth == settings.max_depth,
        context.error@.len() == 0,
        context.llvm_ir@.len() == 0,
        context.untranslated@.len() == 0,
        forall|address: u64| !#[trigger] context.functions@.contains(address),
        forall|address: u64| !#[trigger] context.lifted@.contains(address),
        forall|address: u64| #[trigger]
            context.imports@.contains_key(address) <==> exists|i: int|
                0 <= i < settings.imports.len() && (#[trigger] settings.imports[i]).address.0
                    == address,
        forall|i: int|
            0 <= i < settings.imports.len() && (forall|j: int|
                i < j < settings.imports.len() ==> (#[trigger] settings.imports[j]).address
                    != settings.imports[i].address) ==> context.imports@[(
            #[trigger] settings.imports[i]).address.0] == settings.imports[i].name,
{
    assert forall|address: u64| #[trigger]
        context.imports@.contains_key(address) <==> exists|i: int|
            0 <= i < settings.imports.len() && (#[trigger] settings.imports[i]).address.0
                == address by {
        names_are_at_imports(settings, address);
    }
    assert forall|i: int|
        0 <= i < settings.imports.len() && (forall|j: int|
            i < j < settings.imports.len() ==> (#[trigger] settings.imports[j]).address
                != settings.imports[i].address) implies context.imports@[(
    #[trigger] settings.imports[i]).address.0] == settings.imports[i].name by {
        last_import_names_the_address(settings.imports, i, settings.imports[i].address.0);
    }
}

/// A decompiler starts out with its binary and nothing else.
pub proof fn decompiler_starts_with_the_binary(binary: Binary)
    ensures
        Settings::fresh(binary).binary == binary,
        Settings::fresh(binary).abi is None,
        Settings::fresh(binary).prototype is None,
        Settings::fresh(binary).max_depth is None,
        Settings::fresh(binary).declared.len() == 0,
        Settings::fresh(binary).imports.len() == 0,
{
}

/// A request asks for what its parts say, each in its place.
pub proof fn request_asks_for_its_parts(request: Request<'_>)
    ensures
        match request {
            Request::Initialise => request@ is Initialise,
            Request::CreateManager { seed } => request@ matches Action::CreateManager { seed: said }
                && said == seed,
            Request::SetDefaultAbi { abi } => request@ matches Action::SetDefaultAbi { abi: said }
                && said == abi@,
            Request::RegisterImports { abi, imports, pointer_size } => {
                &&& request@ is RegisterImports
                &&& request@->RegisterImports_abi == abi@
                &&& request@->imports == imports@
                &&& request@->RegisterImports_pointer_size == pointer_size
            },
            Request::SetLifter => request@ is SetLifter,
            Request::ProduceRoot => request@ is ProduceRoot,
            Request::AddFunction { meta_address, name } => {
                &&& request@ is AddFunction
                &&& request@->AddFunction_meta_address == meta_address@
                &&& request@->AddFunction_name == name@
            },
            Request::SetPrototype { meta_address, abi, name, prototype, pointer_size } => {
                &&& request@ is SetPrototype
                &&& request@->SetPrototype_meta_address == meta_address@
                &&& request@->SetPrototype_abi == abi@
                &&& request@->SetPrototype_name == name@
                &&& request@->prototype == *prototype
                &&& request@->SetPrototype_pointer_size == pointer_size
            },
            Request::DetectAbi => request@ is DetectAbi,
            Request::RunFunctionAnalysis { analysis, functions } => {
                &&& request@ is RunFunctionAnalysis
                &&& request@->RunFunctionAnalysis_analysis == analysis@
                &&& request@->functions.len() == functions@.len()
                &&& forall|i: int|
                    0 <= i < functions@.len() ==> #[trigger] request@->functions[i]
                        == functions@[i]@
            },
            Request::RunAnalysis { stage, analysis } => {
                &&& request@ is RunAnalysis
                &&& request@->stage == stage@
                &&& request@->RunAnalysis_analysis == analysis@
            },
        },
{
}

} // verus!
