use vstd::prelude::*;

use rokit::tool::ToolAlias;

use crate::alias::{is_alias_error, is_valid_alias, parse_tool_alias, AliasError};
use crate::identity::Runner;

verus! {

/// Why a dispatch failed, naming the stage that failed.
#[derive(Debug, Clone)]
pub enum DispatchError {
    /// The logical name is no valid alias.
    InvalidAlias(AliasError),
    /// The store of installed tools could not be loaded; holds the cause.
    HomeLoad(String),
    /// No specification is bound to the alias; holds the alias.
    ToolNotFound(String),
    /// The tool could not be run, or waiting for it failed.
    Execution { alias: String, cause: String },
}

/// The arguments meant for the tool: all but the first, which names the
/// dispatcher.
pub open spec fn forwarded(args: Seq<String>) -> Seq<String> {
    if args.len() == 0 {
        args
    } else {
        args.subrange(1, args.len() as int)
    }
}

/// Collects the arguments meant for the tool, in their order.
pub fn forwarded_args(args: &Vec<String>) -> (r: Vec<String>)
    ensures
        r@ == forwarded(args@),
{
    let mut r: Vec<String> = Vec::new();
    if args.len() == 0 {
        assert(r@ =~= args@);
        return r;
    }
    let mut i: usize = 1;
    assert(r@ =~= args@.subrange(1, 1));
    while i < args.len()
        invariant
            1 <= i <= args@.len(),
            r@ == args@.subrange(1, i as int),
        decreases args.len() - i,
    {
        r.push(args[i].clone());
        i = i + 1;
        assert(r@ =~= args@.subrange(1, i as int));
    }
    r
}

/// Forwarding drops exactly the first argument and keeps the order of the
/// rest.
pub proof fn lemma_forwarding_drops_first(args: Seq<String>)
    requires
        args.len() > 0,
    ensures
        forwarded(args).len() == args.len() - 1,
        forall|i: int| 0 <= i < forwarded(args).len() ==> #[trigger] forwarded(args)[i] == args[i + 1],
{
}

pub open spec fn alias_error_message(e: AliasError) -> Seq<char> {
    match e {
        AliasError::Empty => "alias is empty"@,
        AliasError::Invalid(t) => "alias '"@ + t@ + "' is invalid"@,
        AliasError::ContainsWhitespace(t) => "alias '"@ + t@ + "' contains whitespace"@,
    }
}

pub open spec fn not_found_message(alias: Seq<char>) -> Seq<char> {
    "Failed to find tool '"@ + alias + "'"@
}

pub open spec fn error_message(e: DispatchError) -> Seq<char> {
    match e {
        DispatchError::InvalidAlias(a) => alias_error_message(a),
        DispatchError::HomeLoad(cause) => "Failed to load the tool home: "@ + cause@,
        DispatchError::ToolNotFound(alias) => not_found_message(alias@),
        DispatchError::Execution { alias, cause } => "Failed to run tool '"@ + alias@ + "': "@
            + cause@,
    }
}

impl DispatchError {
    /// The message that reports this error to the operator.
    pub fn message(&self) -> (r: String)
        ensures
            r@ == error_message(*self),
    {
        match self {
            DispatchError::InvalidAlias(a) => match a {
                AliasError::Empty => String::from_str("alias is empty"),
                AliasError::Invalid(t) => String::from_str("alias '").concat(t.as_str()).concat(
                    "' is invalid",
                ),
                AliasError::ContainsWhitespace(t) => String::from_str("alias '").concat(
                    t.as_str(),
                ).concat("' contains whitespace"),
            },
            DispatchError::HomeLoad(cause) => String::from_str(
                "Failed to load the tool home: ",
            ).concat(cause.as_str()),
            DispatchError::ToolNotFound(alias) => String::from_str("Failed to find tool '").concat(
                alias.as_str(),
            ).concat("'"),
            DispatchError::Execution { alias, cause } => String::from_str(
                "Failed to run tool '",
            ).concat(alias.as_str()).concat("': ").concat(cause.as_str()),
        }
    }
}

/// The stage that a dispatch has reached; each waits for one outcome.
#[derive(Debug, Clone, Copy, PartialEq, Eq, Structural)]
pub enum Stage {
    /// The alias is parsed; the store of installed tools is being loaded.
    AliasParsed,
    /// The store is loaded; the tool's specification is being looked for.
    HomeLoaded,
    /// The specification is found; its executable's path is being computed.
    SpecResolved,
    /// The tool runs; its termination is awaited.
    ChildRunning,
}

/// The outcome of the work that an action asked for.
#[derive(Debug, Clone)]
pub enum Event {
    HomeLoaded,
    HomeLoadFailed(String),
    SpecFound,
    SpecMissing,
    PathResolved,
    ChildExited(i32),
    ChildFailed(String),
}

/// The work that the caller is to do next.
#[derive(Debug, Clone)]
pub enum Action {
    LoadHome,
    DiscoverSpec,
    ResolvePath,
    /// Run the tool with these arguments and await its termination.
    Spawn(Vec<String>),
    /// End the process with this code.
    Exit(i32),
    /// End the run reporting this error.
    Fail(DispatchError),
}

/// Whether `event` is an outcome of the work that `stage` waits for.
pub open spec fn accepts(stage: Stage, event: Event) -> bool {
    match event {
        Event::HomeLoaded | Event::HomeLoadFailed(_) => stage == Stage::AliasParsed,
        Event::SpecFound | Event::SpecMissing => stage == Stage::HomeLoaded,
        Event::PathResolved => stage == Stage::SpecResolved,
        Event::ChildExited(_) | Event::ChildFailed(_) => stage == Stage::ChildRunning,
    }
}

/// One run of the dispatcher, from a parsed alias to the tool's termination.
#[derive(Debug)]
pub struct Dispatch {
    alias: String,
    args: Vec<String>,
    stage: Stage,
}

impl Dispatch {
    pub closed spec fn alias(&self) -> Seq<char> {
        self.alias@
    }

    pub closed spec fn args(&self) -> Seq<String> {
        self.args@
    }

    pub closed spec fn stage(&self) -> Stage {
        self.stage
    }

    /// `next` is this dispatch moved on to `stage`.
    pub open spec fn moved_to(&self, next: Dispatch, stage: Stage) -> bool {
        next.alias() == self.alias() && next.args() == self.args() && next.stage() == stage
    }

    /// What one step does on `event`: `next` and `action` are its result.
    pub open spec fn steps_to(&self, event: Event, next: Option<Dispatch>, action: Action) -> bool {
        match event {
            Event::HomeLoaded => match next {
                Some(n) => self.moved_to(n, Stage::HomeLoaded) && action is DiscoverSpec,
                None => false,
            },
            Event::SpecFound => match next {
                Some(n) => self.moved_to(n, Stage::SpecResolved) && action is ResolvePath,
                None => false,
            },
            Event::PathResolved => match (next, action) {
                (Some(n), Action::Spawn(args)) => self.moved_to(n, Stage::ChildRunning) && args@
                    == self.args(),
                _ => false,
            },
            Event::HomeLoadFailed(cause) => match (next, action) {
                (None, Action::Fail(DispatchError::HomeLoad(c))) => c == cause,
                _ => false,
            },
            Event::SpecMissing => match (next, action) {
                (None, Action::Fail(DispatchError::ToolNotFound(a))) => a@ == self.alias(),
                _ => false,
            },
            Event::ChildExited(code) => match (next, action) {
                (None, Action::Exit(c)) => c == code,
                _ => false,
            },
            Event::ChildFailed(cause) => match (next, action) {
                (None, Action::Fail(DispatchError::Execution { alias, cause: c })) => alias@
                    == self.alias() && c == cause,
                _ => false,
            },
        }
    }

    /// Starts the dispatch of `runner`'s logical name, for a process whose
    /// arguments are `process_args`: parses the name as an alias. Fails
    /// exactly where the name is no valid alias.
    pub fn begin(runner: &Runner, process_args: &Vec<String>) -> (r: Result<
        (Dispatch, ToolAlias, Action),
        DispatchError,
    >)
        ensures
            match r {
                Ok((d, _, action)) => {
                    &&& is_valid_alias(runner.name())
                    &&& d.alias() == runner.name()
                    &&& d.args() == forwarded(process_args@)
                    &&& d.stage() == Stage::AliasParsed
                    &&& action is LoadHome
                },
                Err(e) => {
                    &&& !is_valid_alias(runner.name())
                    &&& e matches DispatchError::InvalidAlias(a) && is_alias_error(a, runner.name())
                },
            },
    {
        match parse_tool_alias(runner.exe_name()) {
            Ok(alias) => {
                let d = Dispatch {
                    alias: String::from_str(runner.exe_name()),
                    args: forwarded_args(process_args),
                    stage: Stage::AliasParsed,
                };
                Ok((d, alias, Action::LoadHome))
            },
            Err(e) => Err(DispatchError::InvalidAlias(e)),
        }
    }

    /// Whether `event` is an outcome of the work that this dispatch waits for.
    pub fn accepts(&self, event: &Event) -> (r: bool)
        ensures
            r == accepts(self.stage(), *event),
    {
        match event {
            Event::HomeLoaded | Event::HomeLoadFailed(_) => self.stage == Stage::AliasParsed,
            Event::SpecFound | Event::SpecMissing => self.stage == Stage::HomeLoaded,
            Event::PathResolved => self.stage == Stage::SpecResolved,
            Event::ChildExited(_) | Event::ChildFailed(_) => self.stage == Stage::ChildRunning,
        }
    }

    /// Moves the dispatch on by the outcome of its stage's work. A success
    /// moves it to the next stage with the next action; a failure ends it
    /// with an error that names the failing stage; the tool's termination
    /// ends it with the tool's exit code, unchanged.
    pub fn step(self, event: Event) -> (r: (Option<Dispatch>, Action))
        requires
            accepts(self.stage(), event),
        ensures
            self.steps_to(event, r.0, r.1),
    {
        let Dispatch { alias, args, stage } = self;
        match event {
            Event::HomeLoaded => (
                Some(Dispatch { alias, args, stage: Stage::HomeLoaded }),
                Action::DiscoverSpec,
            ),
            Event::HomeLoadFailed(cause) => (None, Action::Fail(DispatchError::HomeLoad(cause))),
            Event::SpecFound => (
                Some(Dispatch { alias, args, stage: Stage::SpecResolved }),
                Action::ResolvePath,
            ),
            Event::SpecMissing => (None, Action::Fail(DispatchError::ToolNotFound(alias))),
            Event::PathResolved => {
                let spawn_args = args.clone();
                (
                    Some(Dispatch { alias, args, stage: Stage::ChildRunning }),
                    Action::Spawn(spawn_args),
                )
            },
            Event::ChildExited(code) => (None, Action::Exit(code)),
            Event::ChildFailed(cause) => (
                None,
                Action::Fail(DispatchError::Execution { alias, cause }),
            ),
        }
    }
}

/// Where discovery finds no specification, the run fails with an error
/// whose message holds the alias exactly as it was invoked.
pub proof fn lemma_not_found_names_alias(d: Dispatch, next: Option<Dispatch>, action: Action)
    requires
        d.stage() == Stage::HomeLoaded,
        d.steps_to(Event::SpecMissing, next, action),
    ensures
        next is None,
        action matches Action::Fail(e) && e matches DispatchError::ToolNotFound(a) && a@
            == d.alias(),
        action matches Action::Fail(e) && exists|i: int|
            0 <= i && i + d.alias().len() <= error_message(e).len() && #[trigger] error_message(
                e,
            ).subrange(i, i + d.alias().len()) == d.alias(),
{
    if let Action::Fail(e) = action {
        let p = "Failed to find tool '"@;
        let m = error_message(e);
        assert(m.subrange(p.len() as int, (p.len() + d.alias().len()) as int) =~= d.alias());
        assert(0 <= p.len() && p.len() + d.alias().len() <= m.len());
    }
}

/// A tool that terminates with any code ends the run with that code.
pub proof fn lemma_exit_code_passes_through(
    d: Dispatch,
    code: i32,
    next: Option<Dispatch>,
    action: Action,
)
    requires
        d.stage() == Stage::ChildRunning,
        d.steps_to(Event::ChildExited(code), next, action),
    ensures
        next is None,
        action == Action::Exit(code),
{
}

/// Once the tool runs, every outcome of the wait ends the run: with the
/// tool's code, or with an error that names the alias.
pub proof fn lemma_wait_always_ends(d: Dispatch, event: Event, next: Option<Dispatch>, action: Action)
    requires
        d.stage() == Stage::ChildRunning,
        accepts(d.stage(), event),
        d.steps_to(event, next, action),
    ensures
        next is None,
        action is Exit || (action matches Action::Fail(e) && e matches DispatchError::Execution {
            alias,
            cause: _,
        } && alias@ == d.alias()),
{
}

} // verus!
