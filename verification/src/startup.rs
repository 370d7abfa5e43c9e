//! Bringing revng up, once in a process.

use vstd::prelude::*;

use crate::error::Error;
#[allow(unused_imports)]
use crate::error::Failure;
use crate::text::has_nul;
#[allow(unused_imports)]
use crate::text::nul_free;

verus! {

/// Whether this process has begun to bring revng up.
#[derive(Clone, Copy, Debug, PartialEq, Eq, Structural)]
pub struct Startup {
    pub begun: bool,
}

/// How revng is to be started: it takes over LLVM's global state, so a process that it shares says
/// which of its signal handlers to keep.
#[derive(Debug)]
pub struct StartRequest {
    /// The name of the program, the only argument; it can be handed over as a C string.
    pub program: String,
    /// The signals whose handlers are kept.
    pub signals: Vec<i32>,
}

/// What a [`StartRequest`] asks for.
pub struct StartView {
    pub program: Seq<char>,
    pub signals: Seq<i32>,
}

impl View for StartRequest {
    type V = StartView;

    open spec fn view(&self) -> StartView {
        StartView { program: self.program@, signals: self.signals@ }
    }
}

/// The name that revng is started under: the first argument of the process, or `revng` where there
/// is none that can be handed over as a C string.
pub open spec fn name_to_start_under(first_argument: Option<Seq<char>>) -> Seq<char> {
    match first_argument {
        Some(name) => if nul_free(name) {
            name
        } else {
            "revng"@
        },
        None => "revng"@,
    }
}

/// A text that may be missing, as its characters.
pub open spec fn characters_of(text: Option<String>) -> Option<Seq<char>> {
    match text {
        Some(text) => Some(text@),
        None => None,
    }
}

/// The name that revng is started under.
pub fn program_name(first_argument: Option<String>) -> (name: String)
    ensures
        name@ == name_to_start_under(characters_of(first_argument)),
        nul_free(name@),
{
    proof {
        reveal_strlit("revng");
    }
    match first_argument {
        Some(name) => if has_nul(name.as_str()) {
            "revng".to_owned()
        } else {
            name
        },
        None => "revng".to_owned(),
    }
}

impl Startup {
    /// Nothing was done yet.
    pub fn new() -> (startup: Startup)
        ensures
            !startup.begun,
    {
        Startup { begun: false }
    }

    /// The start to ask for: one, the first time, unless revng is up already.
    pub open spec fn start(
        self,
        up: bool,
        first_argument: Option<Seq<char>>,
        preserve_signals: Seq<i32>,
    ) -> Option<StartView> {
        if self.begun || up {
            None
        } else {
            Some(
                StartView {
                    program: name_to_start_under(first_argument),
                    signals: preserve_signals,
                },
            )
        }
    }
}

/// Begins to bring revng up, with `up` whether it is up already. If a start is to be asked for,
/// this is it; [`initialised`] takes what comes of it.
pub fn initialise(
    startup: &mut Startup,
    up: bool,
    first_argument: Option<String>,
    preserve_signals: &[i32],
) -> (start: Option<StartRequest>)
    ensures
        final(startup).begun,
        match start {
            Some(request) => nul_free(request.program@) && old(startup).start(
                up,
                characters_of(first_argument),
                preserve_signals@,
            ) == Some(request@),
            None => old(startup).start(up, characters_of(first_argument), preserve_signals@) is None,
        },
{
    if startup.begun {
        return None;
    }
    startup.begun = true;
    if up {
        return None;
    }
    let mut signals: Vec<i32> = Vec::new();
    signals.extend_from_slice(preserve_signals);
    assert(signals@ == preserve_signals@);
    Some(StartRequest { program: program_name(first_argument), signals })
}

/// What bringing revng up has come to: with `started` what the start has answered, if one was
/// asked for, and `up` whether revng is up now.
pub open spec fn startup_failure(started: Option<bool>, up: bool) -> Option<Failure> {
    if started == Some(false) {
        Some(Failure::Pipeline("rp_initialise failed"@))
    } else if !up {
        Some(Failure::Pipeline("revng is not initialised"@))
    } else {
        None
    }
}

/// Tells whether bringing revng up has succeeded.
pub fn initialised(started: Option<bool>, up: bool) -> (outcome: Result<(), Error>)
    ensures
        match outcome {
            Ok(_) => startup_failure(started, up) is None,
            Err(error) => startup_failure(started, up) == Some(error@),
        },
{
    match started {
        Some(false) => {
            return Err(Error::pipeline("rp_initialise failed"));
        },
        _ => {},
    }
    if up {
        Ok(())
    } else {
        Err(Error::pipeline("revng is not initialised"))
    }
}

/// A start is asked for at most once in a process: once it was begun to bring revng up, no later
/// attempt asks for one, whatever it finds.
pub proof fn start_is_asked_for_once(
    startup: Startup,
    up: bool,
    first_argument: Option<Seq<char>>,
    preserve_signals: Seq<i32>,
)
    requires
        startup.begun,
    ensures
        startup.start(up, first_argument, preserve_signals) is None,
{
}

/// Bringing revng up succeeds only where it is up.
pub proof fn initialised_means_up(started: Option<bool>, up: bool)
    requires
        startup_failure(started, up) is None,
    ensures
        up,
{
}

/// The first attempt to bring revng up asks for a start, unless it is up, with the signals that were
/// given; under the first argument of the process where that is a C string, and as `revng` where it
/// is not or there is none.
pub proof fn first_attempt_asks_for_a_start(
    startup: Startup,
    up: bool,
    first_argument: Option<String>,
    preserve_signals: Seq<i32>,
)
    requires
        !startup.begun,
    ensures
        ({
            let start = startup.start(up, characters_of(first_argument), preserve_signals);
            &&& up ==> start is None
            &&& !up ==> start is Some && start->0.signals == preserve_signals
            &&& !up ==> match first_argument {
                Some(name) => if name@.contains('\0') {
                    start->0.program == "revng"@
                } else {
                    start->0.program == name@
                },
                None => start->0.program == "revng"@,
            }
        }),
{
}

/// A start that has failed is reported whether or not revng is up; without one, it is reported that
/// revng is not up if it is not; and nothing else is a failure.
pub proof fn startup_fails_in_two_ways(started: Option<bool>, up: bool)
    ensures
        started matches Some(answer) && !answer ==> startup_failure(started, up) == Some(
            Failure::Pipeline("rp_initialise failed"@),
        ),
        !(started matches Some(answer) && !answer) && !up ==> startup_failure(started, up) == Some(
            Failure::Pipeline("revng is not initialised"@),
        ),
        !(started matches Some(answer) && !answer) && up ==> startup_failure(started, up) is None,
{
}

/// A request for a start says what it holds.
pub proof fn start_request_says_its_parts(request: StartRequest)
    ensures
        request@.program == request.program@,
        request@.signals == request.signals@,
{
}

} // verus!
