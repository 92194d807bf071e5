//! One activation of the overlay, from the request to the clean-up.
//!
//! A session takes what the compositor reported and answers with the commands
//! that the caller has to carry out, in order. Whatever way a session ends,
//! its last commands put back what it changed in the compositor: the dim
//! setting goes back to the value it had, and a window that was taken out of
//! fullscreen goes back into the mode it was in.

use vstd::prelude::*;

use crate::config::AppConfig;
use crate::input::{handle_keypress, key_outcome, keypress_outcome, normalized, KeyOutcome};
use crate::labels::{eligible, labelling, Label, LabelAssignment, LabelError};
use crate::overlay::{
    build_overlay, lemma_assignment_is_one_to_one, overlay_assignment, shows, Indicator,
};
use crate::snapshot::{
    active_workspace_of, client_addresses_distinct, get_windows, is_snapshot,
    lemma_snapshot_addresses_distinct, lemma_workspace_order_len, on_workspace, windows_of,
};
use crate::window::{addresses_distinct, Address, Client, FullscreenMode, Window};

verus! {

/// The fullscreen changes that the compositor is asked for.
#[derive(Debug, Clone, Copy, PartialEq, Eq, Structural)]
pub enum FullscreenType {
    /// True fullscreen.
    Real,
    /// Maximized: the window fills the workspace, bars stay.
    Maximize,
    /// Maximized and fullscreen at once.
    MaximizedFullscreen,
    /// Whatever the compositor toggles without an argument. It takes a window
    /// out of the mode it is in.
    NoParam,
}

/// One thing the caller has to do for the session.
#[derive(Debug, PartialEq, Eq)]
pub enum Command {
    /// Turn the dimming of unfocused windows on.
    DimInactive,
    /// Put the dim setting back to this value, as it was captured.
    RestoreDim(String),
    /// Move focus to the next window.
    CycleNext,
    /// Toggle the fullscreen state of the active window.
    ToggleFullscreen(FullscreenType),
    /// Show the overlay with these indicators and listen for one key at a
    /// time.
    Present(Vec<Indicator>),
    /// Move focus to the window at this address.
    FocusWindow(Address),
    /// Destroy the overlay window.
    Close,
    /// Hide the overlay window and stop listening for keys.
    Hide,
    /// Give up with this error, after the commands before it.
    Abort(LabelError),
}

/// How far a session has come.
#[derive(Debug, Clone, Copy, PartialEq, Eq, Structural)]
pub enum Phase {
    /// The dim setting is captured; the snapshot is still to come.
    Begun,
    /// The overlay is on screen and waits for a key.
    Armed,
    /// The session is over and has put back what it changed.
    Ended,
}

/// The ways a session ends.
pub enum Ending {
    /// The snapshot held no window.
    NoWindows,
    /// There were too few windows for labels: focus cycled instead.
    Cycled,
    /// The alphabet was too short for the snapshot.
    Exhausted,
    /// The key that cancels was pressed.
    Cancelled,
    /// A label was picked.
    Focused(Address),
}

/// What becomes of a session once its snapshot is there.
pub enum Opening {
    /// The session ends in the way given.
    Ends(Ending),
    /// The overlay is shown.
    Shows,
}

/// The fullscreen mode of the active window; without an active window there
/// is none to leave.
pub open spec fn fullscreen_of(active: Option<Client>) -> FullscreenMode {
    match active {
        Some(client) => client.fullscreen,
        None => FullscreenMode::Normal,
    }
}

/// The toggle that brings a window back into the fullscreen mode it was
/// taken out of. Each mode has a toggle of its own; a window that was in none
/// needs none.
pub open spec fn toggle_back(mode: FullscreenMode) -> Option<FullscreenType> {
    match mode {
        FullscreenMode::Fullscreen => Some(FullscreenType::Real),
        FullscreenMode::Maximized => Some(FullscreenType::Maximize),
        FullscreenMode::MaximizedFullscreen => Some(FullscreenType::MaximizedFullscreen),
        FullscreenMode::Normal => None,
    }
}

/// Whether every window sits on `workspace`.
pub open spec fn all_on_workspace(windows: Seq<Window>, workspace: i32) -> bool {
    forall|i: int| 0 <= i < windows.len() ==> (#[trigger] windows[i]).workspace == workspace
}

/// What becomes of a session with the snapshot `windows`.
///
/// Without windows there is nothing to show. With fewer windows than
/// `cycle_before`, all of them on the active workspace, focus cycles and no
/// overlay is shown. Otherwise the overlay is shown, unless the alphabet is
/// too short for it.
pub open spec fn opening_of(windows: Seq<Window>, active: i32, config: AppConfig) -> Opening {
    if windows.len() == 0 {
        Opening::Ends(Ending::NoWindows)
    } else if windows.len() < config.cycle_before && all_on_workspace(windows, active) {
        Opening::Ends(Ending::Cycled)
    } else if eligible(windows, config.ignore_current).len() > config.labels@.len() {
        Opening::Ends(Ending::Exhausted)
    } else {
        Opening::Shows
    }
}

/// The commands that make room for the overlay: a window in a fullscreen mode
/// is taken out of it.
pub open spec fn leaving(mode: FullscreenMode) -> Seq<Command> {
    if mode == FullscreenMode::Normal {
        Seq::empty()
    } else {
        seq![Command::ToggleFullscreen(FullscreenType::NoParam)]
    }
}

/// The commands that put back what a session changed: the dim setting first,
/// then the fullscreen mode `left`, if one was left.
pub open spec fn cleanup(dim_prior: String, left: FullscreenMode) -> Seq<Command> {
    match toggle_back(left) {
        Some(toggle) => seq![Command::RestoreDim(dim_prior), Command::ToggleFullscreen(toggle)],
        None => seq![Command::RestoreDim(dim_prior)],
    }
}

/// How the overlay window goes away: a service keeps it for the next
/// activation.
pub open spec fn dismissal(service: bool) -> Command {
    if service {
        Command::Hide
    } else {
        Command::Close
    }
}

/// The commands with which a session ends. `left` is the fullscreen mode that
/// the session took the active window out of, `Normal` if it took it out of
/// none.
pub open spec fn exit_commands(
    ending: Ending,
    dim_prior: String,
    left: FullscreenMode,
    service: bool,
) -> Seq<Command> {
    match ending {
        Ending::NoWindows => seq![Command::RestoreDim(dim_prior)],
        Ending::Cycled => seq![Command::CycleNext, Command::RestoreDim(dim_prior)],
        Ending::Exhausted => seq![
            Command::RestoreDim(dim_prior),
            Command::Abort(LabelError::AlphabetExhausted),
        ],
        Ending::Cancelled => cleanup(dim_prior, left).push(dismissal(service)),
        Ending::Focused(address) => seq![Command::FocusWindow(address)] + cleanup(
            dim_prior,
            left,
        ).push(dismissal(service)),
    }
}

/// The commands that answer a keystroke: none for a key that means nothing,
/// and else those with which the session ends.
pub open spec fn key_commands(
    outcome: KeyOutcome,
    dim_prior: String,
    left: FullscreenMode,
    service: bool,
) -> Seq<Command> {
    match outcome {
        KeyOutcome::Armed => Seq::empty(),
        KeyOutcome::Cancelled => exit_commands(Ending::Cancelled, dim_prior, left, service),
        KeyOutcome::Focused(address) => exit_commands(
            Ending::Focused(address),
            dim_prior,
            left,
            service,
        ),
    }
}

/// The phase an armed session is in after a keystroke.
pub open spec fn phase_after(outcome: KeyOutcome) -> Phase {
    if outcome is Armed {
        Phase::Armed
    } else {
        Phase::Ended
    }
}

/// Picks out the commands that put the dim setting back.
pub open spec fn restores_dim() -> spec_fn(Command) -> bool {
    |command: Command| command is RestoreDim
}

/// Picks out the commands that show the overlay.
pub open spec fn presents() -> spec_fn(Command) -> bool {
    |command: Command| command is Present
}

/// Picks out the commands that toggle fullscreen.
pub open spec fn toggles_fullscreen() -> spec_fn(Command) -> bool {
    |command: Command| command is ToggleFullscreen
}

/// Whether a session that ends this way had its overlay on screen.
pub open spec fn was_armed(ending: Ending) -> bool {
    ending is Cancelled || ending is Focused
}

/// The toggle that restores a fullscreen mode names that mode: no two modes
/// share a toggle, none is restored by the toggle without an argument, and
/// only a window that was in no mode gets no toggle.
pub proof fn lemma_toggle_back_names_the_mode(first: FullscreenMode, second: FullscreenMode)
    ensures
        toggle_back(first) == toggle_back(second) ==> first == second,
        toggle_back(first) != Some(FullscreenType::NoParam),
        toggle_back(first) is None <==> first == FullscreenMode::Normal,
{
}

/// Whatever way a session ends, its last commands put the dim setting back
/// exactly once, to the value that was captured. They toggle fullscreen
/// exactly when the session took a window out of fullscreen to show its
/// overlay, once, and into the mode the window was in. They never show an
/// overlay.
pub proof fn lemma_exit_restores(
    ending: Ending,
    dim_prior: String,
    left: FullscreenMode,
    service: bool,
)
    ensures
        exit_commands(ending, dim_prior, left, service).filter(restores_dim())
            == seq![Command::RestoreDim(dim_prior)],
        exit_commands(ending, dim_prior, left, service).filter(toggles_fullscreen())
            == if was_armed(ending) && left != FullscreenMode::Normal {
            seq![Command::ToggleFullscreen(toggle_back(left).unwrap())]
        } else {
            Seq::<Command>::empty()
        },
        exit_commands(ending, dim_prior, left, service).filter(presents())
            == Seq::<Command>::empty(),
{
    broadcast use Seq::lemma_filter_push;

    let none = Seq::<Command>::empty();
    let restore = Command::RestoreDim(dim_prior);
    let toggle = Command::ToggleFullscreen(toggle_back(left).unwrap());
    let tidy = cleanup(dim_prior, left);
    let leave = tidy.push(dismissal(service));
    assert(none.filter(restores_dim()) =~= none && none.filter(toggles_fullscreen()) =~= none
        && none.filter(presents()) =~= none) by {
        none.lemma_all_neg_filter_empty(restores_dim());
        none.lemma_all_neg_filter_empty(toggles_fullscreen());
        none.lemma_all_neg_filter_empty(presents());
    }
    assert(tidy =~= if left == FullscreenMode::Normal {
        none.push(restore)
    } else {
        none.push(restore).push(toggle)
    });
    match ending {
        Ending::NoWindows => {
            assert(exit_commands(ending, dim_prior, left, service) =~= none.push(restore));
        },
        Ending::Cycled => {
            assert(exit_commands(ending, dim_prior, left, service) =~= none.push(
                Command::CycleNext,
            ).push(restore));
        },
        Ending::Exhausted => {
            assert(exit_commands(ending, dim_prior, left, service) =~= none.push(restore).push(
                Command::Abort(LabelError::AlphabetExhausted),
            ));
        },
        Ending::Cancelled => {},
        Ending::Focused(address) => {
            let focus = seq![Command::FocusWindow(address)];
            assert(focus =~= none.push(Command::FocusWindow(address)));
            Seq::filter_distributes_over_add(focus, leave, restores_dim());
            Seq::filter_distributes_over_add(focus, leave, toggles_fullscreen());
            Seq::filter_distributes_over_add(focus, leave, presents());
        },
    }
}

/// A session that picks a label moves focus first and dismisses the overlay
/// last; what it puts back, it puts back in between.
pub proof fn lemma_focus_comes_first(
    address: Address,
    dim_prior: String,
    left: FullscreenMode,
    service: bool,
)
    ensures
        exit_commands(Ending::Focused(address), dim_prior, left, service)[0]
            == Command::FocusWindow(address),
        exit_commands(Ending::Focused(address), dim_prior, left, service).last()
            == dismissal(service),
{
}

/// Every label on screen can be picked: where the alphabet has no character
/// twice and the snapshot no address twice, the key of a label, typed as the
/// alphabet has it, moves focus to the window of that label.
pub proof fn lemma_label_key_picks_its_window(
    windows: Seq<Window>,
    alphabet: Seq<char>,
    ignore_current: bool,
    k: int,
)
    requires
        windows.len() <= usize::MAX,
        alphabet.no_duplicates(),
        addresses_distinct(windows),
        eligible(windows, ignore_current).len() <= alphabet.len(),
        0 <= k < eligible(windows, ignore_current).len(),
    ensures
        normalized(seq![alphabet[k]], alphabet) == seq![alphabet[k]],
        key_outcome(
            overlay_assignment(windows, alphabet, ignore_current),
            seq![alphabet[k]],
            alphabet,
        ) == KeyOutcome::Focused(
            windows[labelling(windows, alphabet, ignore_current)[k].window as int].address,
        ),
{
    let labels = labelling(windows, alphabet, ignore_current);
    lemma_assignment_is_one_to_one(windows, alphabet, ignore_current);
    assert(labels[k].key == alphabet[k]);
    assert(alphabet.contains(alphabet[k]));
    assert(seq![alphabet[k]][0] == alphabet[k]);
}

/// The labels that a session shows for its snapshot.
pub open spec fn shown_labels(windows: Seq<Window>, config: AppConfig) -> Seq<Label> {
    labelling(windows, config.labels@, config.ignore_current)
}

/// The mapping from keys to addresses that a session shows for its snapshot.
pub open spec fn shown_assignment(windows: Seq<Window>, config: AppConfig) -> Map<char, Address> {
    overlay_assignment(windows, config.labels@, config.ignore_current)
}

/// Where the compositor reports no address twice and the alphabet has no
/// character twice, the overlay that a session shows leads every key to the
/// window of its own label, and no two keys to one window.
pub proof fn lemma_shown_keys_are_one_to_one(
    active: Option<Client>,
    clients: Seq<Client>,
    windows: Seq<Window>,
    config: AppConfig,
)
    requires
        clients.len() <= usize::MAX,
        client_addresses_distinct(clients),
        config.labels@.no_duplicates(),
        is_snapshot(active, clients, config.ignore_workspace, windows),
        opening_of(windows, active_workspace_of(active), config) is Shows,
    ensures
        forall|k: int|
            #![trigger shown_labels(windows, config)[k]]
            0 <= k < shown_labels(windows, config).len() ==> {
                let label = shown_labels(windows, config)[k];
                &&& shown_assignment(windows, config).contains_key(label.key)
                &&& shown_assignment(windows, config)[label.key]
                    == windows[label.window as int].address
            },
        forall|c: char, d: char|
            #![trigger shown_assignment(windows, config)[c], shown_assignment(windows, config)[d]]
            shown_assignment(windows, config).contains_key(c) && shown_assignment(
                windows,
                config,
            ).contains_key(d) && c != d ==> shown_assignment(windows, config)[c]@
                != shown_assignment(windows, config)[d]@,
{
    let input = windows_of(clients);
    if config.ignore_workspace {
        lemma_workspace_order_len(input, windows, active_workspace_of(active));
    } else {
        input.lemma_filter_len(on_workspace(active_workspace_of(active)));
    }
    lemma_snapshot_addresses_distinct(active, clients, config.ignore_workspace, windows);
    lemma_assignment_is_one_to_one(windows, config.labels@, config.ignore_current);
}

/// One activation in progress. It owns what has to be put back at its end.
#[derive(Debug)]
pub struct Session {
    phase: Phase,
    config: AppConfig,
    service: bool,
    dim_prior: String,
    left: FullscreenMode,
    windows: Vec<Window>,
    assignment: LabelAssignment,
}

impl Session {
    /// How far the session has come.
    pub closed spec fn phase(&self) -> Phase {
        self.phase
    }

    /// The settings the session runs under.
    pub closed spec fn config(&self) -> AppConfig {
        self.config
    }

    /// Whether the overlay window outlives the session.
    pub closed spec fn service(&self) -> bool {
        self.service
    }

    /// The dim setting as it was when the session began.
    pub closed spec fn dim_prior(&self) -> String {
        self.dim_prior
    }

    /// The fullscreen mode that the session took the active window out of.
    pub closed spec fn left_fullscreen(&self) -> FullscreenMode {
        self.left
    }

    /// The snapshot of the session.
    pub closed spec fn windows(&self) -> Seq<Window> {
        self.windows@
    }

    /// Which key leads to which window.
    pub closed spec fn assignment(&self) -> Map<char, Address> {
        self.assignment@
    }

    /// Whether `self` differs from `before` in nothing but its phase.
    pub open spec fn moved_on_from(&self, before: Session) -> bool {
        &&& self.config() == before.config()
        &&& self.service() == before.service()
        &&& self.dim_prior() == before.dim_prior()
        &&& self.left_fullscreen() == before.left_fullscreen()
        &&& self.windows() == before.windows()
        &&& self.assignment() == before.assignment()
    }

    /// Begins a session. `dim_inactive` is the dim setting as the compositor
    /// has it now; it is kept to be put back. With dimming configured, the
    /// session asks for it to be turned on.
    pub fn begin(
        config: AppConfig,
        dim_inactive: String,
        service: bool,
    ) -> (r: (Session, Vec<Command>))
        ensures
            r.0.phase() == Phase::Begun,
            r.0.config() == config,
            r.0.service() == service,
            r.0.dim_prior() == dim_inactive,
            r.0.left_fullscreen() == FullscreenMode::Normal,
            r.0.windows() == Seq::<Window>::empty(),
            r.0.assignment() == Map::<char, Address>::empty(),
            r.1@ == if config.dim_inactive {
                seq![Command::DimInactive]
            } else {
                Seq::<Command>::empty()
            },
    {
        let mut commands: Vec<Command> = Vec::new();
        if config.dim_inactive {
            commands.push(Command::DimInactive);
        }
        let session = Session {
            phase: Phase::Begun,
            config,
            service,
            dim_prior: dim_inactive,
            left: FullscreenMode::Normal,
            windows: Vec::new(),
            assignment: LabelAssignment::new(),
        };
        (session, commands)
    }

    /// How far the session has come.
    pub fn current_phase(&self) -> (phase: Phase)
        ensures
            phase == self.phase(),
    {
        self.phase
    }

    /// The snapshot of the session.
    pub fn snapshot(&self) -> (windows: &Vec<Window>)
        ensures
            windows@ == self.windows(),
    {
        &self.windows
    }

    /// Takes the snapshot and decides what the session does with it.
    ///
    /// `active` is the active window and `clients` the client list, as the
    /// compositor reported them. A session that is past this step ignores the
    /// call.
    pub fn open(
        &mut self,
        active: Option<Client>,
        clients: Vec<Client>,
    ) -> (commands: Vec<Command>)
        ensures
            old(self).phase() != Phase::Begun ==> {
                &&& *final(self) == *old(self)
                &&& commands@ == Seq::<Command>::empty()
            },
            old(self).phase() == Phase::Begun ==> {
                let config = old(self).config();
                let workspace = active_workspace_of(active);
                let windows = final(self).windows();
                &&& final(self).config() == config
                &&& final(self).service() == old(self).service()
                &&& final(self).dim_prior() == old(self).dim_prior()
                &&& is_snapshot(active, clients@, config.ignore_workspace, windows)
                &&& match opening_of(windows, workspace, config) {
                    Opening::Ends(ending) => {
                        &&& final(self).phase() == Phase::Ended
                        &&& final(self).left_fullscreen() == old(self).left_fullscreen()
                        &&& final(self).assignment() == old(self).assignment()
                        &&& commands@ == exit_commands(
                            ending,
                            old(self).dim_prior(),
                            FullscreenMode::Normal,
                            old(self).service(),
                        )
                    },
                    Opening::Shows => {
                        let labels = shown_labels(windows, config);
                        &&& final(self).phase() == Phase::Armed
                        &&& final(self).left_fullscreen() == fullscreen_of(active)
                        &&& final(self).assignment() == shown_assignment(windows, config)
                        &&& commands@.len() > 0
                        &&& commands@.last() matches Command::Present(indicators)
                        &&& shows(
                            indicators@,
                            windows,
                            labels,
                            workspace,
                            config.label_position,
                            config.box_size,
                        )
                        &&& commands@.drop_last() == leaving(fullscreen_of(active))
                    },
                }
            },
    {
        let mut commands: Vec<Command> = Vec::new();
        if self.phase != Phase::Begun {
            return commands;
        }
        let mode = fullscreen_mode(&active);
        let (windows, workspace) = get_windows(active, clients, self.config.ignore_workspace);
        self.windows = windows;
        if self.windows.len() == 0 {
            commands.push(Command::RestoreDim(self.dim_prior.clone()));
            self.phase = Phase::Ended;
            return commands;
        }
        let few = self.windows.len() < self.config.cycle_before;
        if few && stays_on_workspace(&self.windows, workspace) {
            commands.push(Command::CycleNext);
            commands.push(Command::RestoreDim(self.dim_prior.clone()));
            self.phase = Phase::Ended;
            return commands;
        }
        match build_overlay(&self.windows, workspace, &self.config) {
            Err(e) => {
                commands.push(Command::RestoreDim(self.dim_prior.clone()));
                commands.push(Command::Abort(e));
                self.phase = Phase::Ended;
                commands
            },
            Ok(overlay) => {
                if mode != FullscreenMode::Normal {
                    commands.push(Command::ToggleFullscreen(FullscreenType::NoParam));
                }
                self.left = mode;
                self.assignment = overlay.assignment;
                self.phase = Phase::Armed;
                let ghost before = commands@;
                commands.push(Command::Present(overlay.indicators));
                assert(commands@.drop_last() =~= before);
                commands
            },
        }
    }

    /// Takes one keystroke, by the name the toolkit gives the key.
    ///
    /// The case of the key is brought in line with the alphabet first. A key
    /// that names a label on screen ends the session with focus on that
    /// label's window; the key that cancels ends it without; any other key
    /// changes nothing. A session that is not armed ignores the call.
    pub fn key(&mut self, key: &str) -> (commands: Vec<Command>)
        ensures
            final(self).moved_on_from(*old(self)),
            old(self).phase() != Phase::Armed ==> {
                &&& final(self).phase() == old(self).phase()
                &&& commands@ == Seq::<Command>::empty()
            },
            old(self).phase() == Phase::Armed ==> {
                let outcome = keypress_outcome(
                    old(self).assignment(),
                    key@,
                    old(self).config().labels@,
                );
                &&& final(self).phase() == phase_after(outcome)
                &&& commands@ == key_commands(
                    outcome,
                    old(self).dim_prior(),
                    old(self).left_fullscreen(),
                    old(self).service(),
                )
            },
    {
        let mut commands: Vec<Command> = Vec::new();
        if self.phase != Phase::Armed {
            return commands;
        }
        match handle_keypress(&self.assignment, key, self.config.labels.as_str()) {
            KeyOutcome::Armed => {
                return commands;
            },
            KeyOutcome::Cancelled => {},
            KeyOutcome::Focused(address) => {
                commands.push(Command::FocusWindow(address));
            },
        }
        let ghost head = commands@;
        commands.push(Command::RestoreDim(self.dim_prior.clone()));
        match restore_toggle(self.left) {
            Some(toggle) => {
                commands.push(Command::ToggleFullscreen(toggle));
            },
            None => {},
        }
        if self.service {
            commands.push(Command::Hide);
        } else {
            commands.push(Command::Close);
        }
        self.phase = Phase::Ended;
        assert(commands@ =~= head + cleanup(self.dim_prior, self.left).push(
            dismissal(self.service),
        ));
        commands
    }
}

/// Where a process that shows the overlay stands between activations.
#[derive(Debug, Clone, Copy, PartialEq, Eq, Structural)]
pub enum Lifecycle {
    /// Nothing was set up yet.
    Uninitialized,
    /// Window and settings exist; no session is running.
    Ready,
    /// A session is running.
    Active,
}

/// What a request for activation leads to.
#[derive(Debug, Clone, Copy, PartialEq, Eq, Structural)]
pub enum Activation {
    /// First activation: set up the window and the settings, then begin a
    /// session.
    Setup,
    /// Begin a session on the window that is there.
    Rearm,
    /// A session is running already: do nothing.
    Ignored,
}

impl Lifecycle {
    /// The state a process starts in.
    pub fn new() -> (state: Lifecycle)
        ensures
            state == Lifecycle::Uninitialized,
    {
        Lifecycle::Uninitialized
    }

    /// What a request for activation leads to in this state.
    pub open spec fn activation(self) -> Activation {
        match self {
            Lifecycle::Uninitialized => Activation::Setup,
            Lifecycle::Ready => Activation::Rearm,
            Lifecycle::Active => Activation::Ignored,
        }
    }

    /// The state after a session has ended.
    pub open spec fn released(self) -> Lifecycle {
        match self {
            Lifecycle::Uninitialized => Lifecycle::Uninitialized,
            Lifecycle::Ready => Lifecycle::Ready,
            Lifecycle::Active => Lifecycle::Ready,
        }
    }

    /// Takes a request for activation. After it a session is running: the one
    /// that was running before, or the one the caller now begins.
    pub fn activate(&mut self) -> (r: Activation)
        ensures
            r == old(self).activation(),
            *final(self) == Lifecycle::Active,
    {
        let r = match self {
            Lifecycle::Uninitialized => Activation::Setup,
            Lifecycle::Ready => Activation::Rearm,
            Lifecycle::Active => Activation::Ignored,
        };
        *self = Lifecycle::Active;
        r
    }

    /// Notes that the running session has ended.
    pub fn release(&mut self)
        ensures
            *final(self) == old(self).released(),
    {
        if *self == Lifecycle::Active {
            *self = Lifecycle::Ready;
        }
    }
}

/// Setting up happens once: no state that an activation or the end of a
/// session leaves behind asks for it again, and while a session runs no
/// second one is begun.
pub proof fn lemma_setup_once(state: Lifecycle)
    ensures
        Lifecycle::Active.activation() == Activation::Ignored,
        Lifecycle::Active.released().activation() == Activation::Rearm,
        state != Lifecycle::Uninitialized ==> state.released() != Lifecycle::Uninitialized
            && state.activation() != Activation::Setup,
{
}

/// Reads the fullscreen mode off the active window.
pub fn fullscreen_mode(active: &Option<Client>) -> (mode: FullscreenMode)
    ensures
        mode == fullscreen_of(*active),
{
    match active {
        Some(client) => client.fullscreen,
        None => FullscreenMode::Normal,
    }
}

/// Picks the toggle that brings a window back into `mode`, if it was in one.
pub fn restore_toggle(mode: FullscreenMode) -> (toggle: Option<FullscreenType>)
    ensures
        toggle == toggle_back(mode),
{
    match mode {
        FullscreenMode::Fullscreen => Some(FullscreenType::Real),
        FullscreenMode::Maximized => Some(FullscreenType::Maximize),
        FullscreenMode::MaximizedFullscreen => Some(FullscreenType::MaximizedFullscreen),
        FullscreenMode::Normal => None,
    }
}

/// Tells whether every window sits on `workspace`.
pub fn stays_on_workspace(windows: &Vec<Window>, workspace: i32) -> (r: bool)
    ensures
        r == all_on_workspace(windows@, workspace),
{
    let mut i: usize = 0;
    while i < windows.len()
        invariant
            i <= windows.len(),
            forall|j: int| 0 <= j < i ==> (#[trigger] windows@[j]).workspace == workspace,
        decreases windows.len() - i,
    {
        if windows[i].workspace != workspace {
            return false;
        }
        i += 1;
    }
    true
}

} // verus!
