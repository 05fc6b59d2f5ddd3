use vstd::prelude::*;

verus! {

/// Where the install-and-launch of a profile stands.
#[derive(Debug, Clone, Copy, PartialEq, Eq, Structural)]
pub enum Stage {
    Uninitialized,
    DescriptorReady,
    AssetsInstalled,
    LibrariesInstalled,
    /// The client jar is in place: the profile can be launched.
    Ready,
    Running,
    Succeeded,
    Failed,
}

/// What the runner of the pipeline does in a stage.
#[derive(Debug, Clone, Copy, PartialEq, Eq, Structural)]
pub enum Action {
    /// Read the cached client descriptor, or fetch and cache it.
    EnsureDescriptor,
    /// Fetch the asset index, then every asset object missing from disk.
    InstallAssets,
    /// Fetch each allowed library and its native archive, and unpack the latter.
    InstallLibraries,
    InstallClientJar,
    /// Spawn the game, with inherited standard streams.
    Launch,
    /// Wait for the game to exit and report its code.
    AwaitExit,
    /// Nothing is left to do.
    Stop,
}

/// What the runner reports after doing an action.
#[derive(Debug, Clone, Copy, PartialEq, Eq, Structural)]
pub enum Event {
    /// The action's work succeeded.
    Done,
    /// The action's work failed; the error goes to the caller as it is.
    Failed,
    /// The game exited with this code.
    Exited(i32),
}

/// The position of a stage along the pipeline.
pub open spec fn rank(s: Stage) -> int {
    match s {
        Stage::Uninitialized => 0,
        Stage::DescriptorReady => 1,
        Stage::AssetsInstalled => 2,
        Stage::LibrariesInstalled => 3,
        Stage::Ready => 4,
        Stage::Running => 5,
        Stage::Succeeded => 6,
        Stage::Failed => 6,
    }
}

pub open spec fn spec_action(s: Stage) -> Action {
    match s {
        Stage::Uninitialized => Action::EnsureDescriptor,
        Stage::DescriptorReady => Action::InstallAssets,
        Stage::AssetsInstalled => Action::InstallLibraries,
        Stage::LibrariesInstalled => Action::InstallClientJar,
        Stage::Ready => Action::Launch,
        Stage::Running => Action::AwaitExit,
        _ => Action::Stop,
    }
}

/// The stage after `s` when the runner reports `e`.
pub open spec fn spec_next(s: Stage, e: Event) -> Stage {
    match s {
        Stage::Succeeded | Stage::Failed => s,
        Stage::Running => match e {
            Event::Exited(code) => if code == 0 {
                Stage::Succeeded
            } else {
                Stage::Failed
            },
            Event::Failed => Stage::Failed,
            Event::Done => s,
        },
        _ => match e {
            Event::Done => match s {
                Stage::Uninitialized => Stage::DescriptorReady,
                Stage::DescriptorReady => Stage::AssetsInstalled,
                Stage::AssetsInstalled => Stage::LibrariesInstalled,
                Stage::LibrariesInstalled => Stage::Ready,
                _ => Stage::Running,
            },
            _ => Stage::Failed,
        },
    }
}

impl Stage {
    /// The work to do in this stage.
    pub fn action(&self) -> (r: Action)
        ensures
            r == spec_action(*self),
    {
        match self {
            Stage::Uninitialized => Action::EnsureDescriptor,
            Stage::DescriptorReady => Action::InstallAssets,
            Stage::AssetsInstalled => Action::InstallLibraries,
            Stage::LibrariesInstalled => Action::InstallClientJar,
            Stage::Ready => Action::Launch,
            Stage::Running => Action::AwaitExit,
            _ => Action::Stop,
        }
    }

    /// The stage reached when the runner reports `event`: the next stage on
    /// success, `Failed` on the first failure, and after the game exits,
    /// `Succeeded` for code zero and `Failed` otherwise.
    pub fn next(&self, event: Event) -> (r: Stage)
        ensures
            r == spec_next(*self, event),
            rank(r) >= rank(*self),
    {
        match self {
            Stage::Succeeded | Stage::Failed => *self,
            Stage::Running => match event {
                Event::Exited(code) => if code == 0 {
                    Stage::Succeeded
                } else {
                    Stage::Failed
                },
                Event::Failed => Stage::Failed,
                Event::Done => *self,
            },
            _ => match event {
                Event::Done => match self {
                    Stage::Uninitialized => Stage::DescriptorReady,
                    Stage::DescriptorReady => Stage::AssetsInstalled,
                    Stage::AssetsInstalled => Stage::LibrariesInstalled,
                    Stage::LibrariesInstalled => Stage::Ready,
                    _ => Stage::Running,
                },
                _ => Stage::Failed,
            },
        }
    }
}

/// The install stages come in a fixed order: from the start, reports of
/// success pass through the descriptor, the assets, the libraries and the
/// client jar, in that order, before the launch.
pub proof fn lemma_stage_order()
    ensures
        spec_action(Stage::Uninitialized) == Action::EnsureDescriptor,
        spec_action(spec_next(Stage::Uninitialized, Event::Done)) == Action::InstallAssets,
        spec_action(spec_next(spec_next(Stage::Uninitialized, Event::Done), Event::Done))
            == Action::InstallLibraries,
        spec_action(
            spec_next(
                spec_next(spec_next(Stage::Uninitialized, Event::Done), Event::Done),
                Event::Done,
            ),
        ) == Action::InstallClientJar,
        spec_action(
            spec_next(
                spec_next(
                    spec_next(spec_next(Stage::Uninitialized, Event::Done), Event::Done),
                    Event::Done,
                ),
                Event::Done,
            ),
        ) == Action::Launch,
{
}

/// A failure stops the pipeline: no later action is taken.
pub proof fn lemma_failure_stops(s: Stage)
    ensures
        spec_action(spec_next(s, Event::Failed)) == Action::Stop,
{
}

} // verus!
