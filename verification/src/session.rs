//! The steps that settle the geometry of a capture: which selection or
//! compositor query comes next for a capture mode, and what the replies add
//! up to. Running `slurp` and querying the compositor are left to the caller,
//! which hands each reply back as an event.

use vstd::prelude::*;
use vstd::utf8::{decode_utf8, valid_utf8};
use crate::geometry::{
    active_output_geometry, active_window_geometry, active_workspace_ids, active_workspaces,
    boxes_on, clip_geometry, clipped_geometry, geometry_active_output, law_read_geometry_text,
    monitors_view, parse_geometry, read_geometry, trimmed_geometry, window_selection_input,
    GeometryError, Monitor, Window,
};
use crate::text::{is_white_space, join, law_trim_removes_only_edge_whitespace, result_text, texts, trim, trim_text};

verus! {

/// What to capture.
#[derive(Clone, Copy, Debug, PartialEq, Eq, Structural)]
pub enum Mode {
    /// A region selected interactively.
    Region,
    /// A window on an active workspace, selected by a click.
    Window,
    /// A monitor, selected by a click.
    Output,
    /// The focused window.
    ActiveWindow,
    /// The monitor that shows the active workspace.
    ActiveOutput,
}

/// A question to the compositor.
#[derive(Clone, Copy, Debug, PartialEq, Eq, Structural)]
pub enum Query {
    Monitors,
    Clients,
    ActiveWindow,
    ActiveWorkspace,
}

impl Query {
    /// The compositor subcommand that answers the query.
    pub fn subcommand(&self) -> (s: String)
        ensures
            s@ == query_subcommand(*self),
    {
        match self {
            Query::Monitors => String::from_str("monitors"),
            Query::Clients => String::from_str("clients"),
            Query::ActiveWindow => String::from_str("activewindow"),
            Query::ActiveWorkspace => String::from_str("activeworkspace"),
        }
    }
}

/// The compositor subcommand of each query.
pub open spec fn query_subcommand(q: Query) -> Seq<char> {
    match q {
        Query::Monitors => "monitors"@,
        Query::Clients => "clients"@,
        Query::ActiveWindow => "activewindow"@,
        Query::ActiveWorkspace => "activeworkspace"@,
    }
}

/// What `String::from_utf8_lossy` makes of some bytes.
pub uninterp spec fn utf8_lossy(bytes: Seq<u8>) -> Seq<char>;

/// `String::from_utf8_lossy`: the bytes decoded as UTF-8, each invalid
/// sequence replaced by U+FFFD. The contract names the result, and states,
/// as the documentation does, that valid UTF-8 is decoded as it is; how
/// invalid sequences are replaced is left unsaid.
#[verifier::external_body]
fn decode_lossy(bytes: &[u8]) -> (s: String)
    ensures
        s@ == utf8_lossy(bytes@),
        valid_utf8(bytes@) ==> s@ == decode_utf8(bytes@),
{
    String::from_utf8_lossy(bytes).into_owned()
}

/// What a selection gives: a cancelled (unsuccessful) selection is an error;
/// otherwise the output, decoded, with surrounding whitespace trimmed.
pub open spec fn selection(success: bool, output: Seq<u8>) -> Result<Seq<char>, GeometryError> {
    if success {
        Ok(trim(utf8_lossy(output)))
    } else {
        Err(GeometryError::SelectionCancelled)
    }
}

/// The geometry that a finished `slurp` run selected.
pub fn selection_text(success: bool, output: &[u8]) -> (r: Result<String, GeometryError>)
    ensures
        result_text(r) == selection(success, output@),
{
    if !success {
        return Err(GeometryError::SelectionCancelled);
    }
    let s = decode_lossy(output);
    Ok(trim_text(s.as_str()))
}

/// The next piece of outside work, or the settled geometry.
pub enum GeometryAction {
    /// Run `slurp` with these arguments, writing `input` to its standard
    /// input where there is one.
    Select { args: Vec<String>, input: Option<String> },
    /// Ask the compositor.
    Ask(Query),
    /// The geometry is settled.
    Done(Result<String, GeometryError>),
}

/// A reply to the last action.
pub enum GeometryEvent {
    /// `slurp` finished: whether it succeeded, and what it wrote.
    Selected { success: bool, output: Vec<u8> },
    /// The monitors (`None` where the reply was not a list).
    Monitors(Option<Vec<Monitor>>),
    /// The windows (`None` where the reply was not a list).
    Clients(Option<Vec<Window>>),
    /// The focused window.
    ActiveWindow(Window),
    /// The id of the active workspace, where it has one.
    ActiveWorkspace(Option<i64>),
}

/// How far the settling of a geometry has come.
pub enum GeometryTask {
    /// Waiting for a selection; `clip` where the selection is a window's box
    /// that is then clipped to the monitor layout.
    Selecting { clip: bool },
    /// Window mode, waiting for the monitors.
    WindowMonitors,
    /// Window mode, waiting for the windows; `ids` are the active workspaces.
    WindowClients { ids: Vec<i64> },
    /// Waiting for the focused window.
    ActiveWindow,
    /// Waiting for the active workspace.
    ActiveWorkspace,
    /// Waiting for the monitors, to find the one that shows `workspace`.
    OutputMonitors { workspace: i64 },
    /// Waiting for the monitors, to clip the box `x,y wxh` to their layout.
    ClipMonitors { x: i64, y: i64, w: i64, h: i64 },
    /// The geometry is settled.
    Finished,
}

/// A `GeometryAction` as values.
pub enum ActionView {
    Select { args: Seq<Seq<char>>, input: Option<Seq<char>> },
    Ask(Query),
    Done(Result<Seq<char>, GeometryError>),
}

/// A `GeometryEvent` as values.
pub enum EventView {
    Selected { success: bool, output: Seq<u8> },
    Monitors(Option<Seq<Monitor>>),
    Clients(Option<Seq<Window>>),
    ActiveWindow(Window),
    ActiveWorkspace(Option<i64>),
}

/// A `GeometryTask` as values.
pub enum TaskView {
    Selecting { clip: bool },
    WindowMonitors,
    WindowClients { ids: Seq<i64> },
    ActiveWindow,
    ActiveWorkspace,
    OutputMonitors { workspace: i64 },
    ClipMonitors { x: i64, y: i64, w: i64, h: i64 },
    Finished,
}

impl View for GeometryAction {
    type V = ActionView;

    open spec fn view(&self) -> ActionView {
        match self {
            GeometryAction::Select { args, input } => ActionView::Select {
                args: texts(args@),
                input: match input {
                    Some(s) => Some(s@),
                    None => None,
                },
            },
            GeometryAction::Ask(q) => ActionView::Ask(*q),
            GeometryAction::Done(r) => ActionView::Done(result_text(*r)),
        }
    }
}

impl View for GeometryEvent {
    type V = EventView;

    open spec fn view(&self) -> EventView {
        match self {
            GeometryEvent::Selected { success, output } => EventView::Selected {
                success: *success,
                output: output@,
            },
            GeometryEvent::Monitors(ms) => EventView::Monitors(monitors_view(*ms)),
            GeometryEvent::Clients(ws) => EventView::Clients(
                match ws {
                    Some(v) => Some(v@),
                    None => None,
                },
            ),
            GeometryEvent::ActiveWindow(w) => EventView::ActiveWindow(*w),
            GeometryEvent::ActiveWorkspace(id) => EventView::ActiveWorkspace(*id),
        }
    }
}

impl View for GeometryTask {
    type V = TaskView;

    open spec fn view(&self) -> TaskView {
        match self {
            GeometryTask::Selecting { clip } => TaskView::Selecting { clip: *clip },
            GeometryTask::WindowMonitors => TaskView::WindowMonitors,
            GeometryTask::WindowClients { ids } => TaskView::WindowClients { ids: ids@ },
            GeometryTask::ActiveWindow => TaskView::ActiveWindow,
            GeometryTask::ActiveWorkspace => TaskView::ActiveWorkspace,
            GeometryTask::OutputMonitors { workspace } => TaskView::OutputMonitors {
                workspace: *workspace,
            },
            GeometryTask::ClipMonitors { x, y, w, h } => TaskView::ClipMonitors {
                x: *x,
                y: *y,
                w: *w,
                h: *h,
            },
            GeometryTask::Finished => TaskView::Finished,
        }
    }
}

/// The `slurp` arguments for interactive region selection.
pub open spec fn region_args() -> Seq<Seq<char>> {
    seq!["-d"@]
}

/// The `slurp` arguments for selecting a monitor.
pub open spec fn output_args() -> Seq<Seq<char>> {
    seq!["-or"@]
}

/// The `slurp` arguments for selecting one of the offered window boxes.
pub open spec fn window_args() -> Seq<Seq<char>> {
    seq!["-r"@]
}

/// Where a capture mode begins: region and output modes select at once,
/// window mode first asks for the monitors (to learn the active
/// workspaces), the active-window mode for the focused window, and the
/// active-output mode for the active workspace.
pub open spec fn start(mode: Mode) -> (TaskView, ActionView) {
    match mode {
        Mode::Region => (
            TaskView::Selecting { clip: false },
            ActionView::Select { args: region_args(), input: None },
        ),
        Mode::Output => (
            TaskView::Selecting { clip: false },
            ActionView::Select { args: output_args(), input: None },
        ),
        Mode::Window => (TaskView::WindowMonitors, ActionView::Ask(Query::Monitors)),
        Mode::ActiveWindow => (TaskView::ActiveWindow, ActionView::Ask(Query::ActiveWindow)),
        Mode::ActiveOutput => (TaskView::ActiveWorkspace, ActionView::Ask(Query::ActiveWorkspace)),
    }
}

/// The step from a task on a reply: the next task and action, or `None`
/// where the reply is not the one the task waits for.
///
/// - The monitors, in window mode, give the active workspaces; the windows
///   on them are offered for selection, one box per line.
/// - A selection settles the geometry, unless it is a window's box, which is
///   read (its numbers) and then clipped once the monitors are known.
/// - The focused window's box is clipped to the monitor layout in the same
///   way.
/// - The active workspace leads to the monitor that shows it.
pub open spec fn transition(t: TaskView, e: EventView) -> Option<(TaskView, ActionView)> {
    match (t, e) {
        (TaskView::WindowMonitors, EventView::Monitors(ms)) => Some(
            (
                TaskView::WindowClients {
                    ids: match ms {
                        Some(ms) => active_workspaces(ms),
                        None => Seq::empty(),
                    },
                },
                ActionView::Ask(Query::Clients),
            ),
        ),
        (TaskView::WindowClients { ids }, EventView::Clients(ws)) => Some(
            (
                TaskView::Selecting { clip: true },
                ActionView::Select {
                    args: window_args(),
                    input: Some(
                        join(
                            match ws {
                                Some(ws) => boxes_on(ws, ids),
                                None => Seq::empty(),
                            },
                            seq!['\n'],
                        ),
                    ),
                },
            ),
        ),
        (TaskView::Selecting { clip }, EventView::Selected { success, output }) => {
            match selection(success, output) {
                Err(err) => Some((TaskView::Finished, ActionView::Done(Err(err)))),
                Ok(g) => if !clip {
                    Some((TaskView::Finished, ActionView::Done(Ok(g))))
                } else {
                    match read_geometry(g) {
                        Err(err) => Some((TaskView::Finished, ActionView::Done(Err(err)))),
                        Ok((x, y, w, h)) => Some(
                            (TaskView::ClipMonitors { x, y, w, h }, ActionView::Ask(Query::Monitors)),
                        ),
                    }
                },
            }
        },
        (TaskView::ClipMonitors { x, y, w, h }, EventView::Monitors(ms)) => Some(
            (TaskView::Finished, ActionView::Done(clipped_geometry(x, y, w, h, ms))),
        ),
        (TaskView::ActiveWindow, EventView::ActiveWindow(win)) => match active_window_geometry(
            win,
        ) {
            Err(err) => Some((TaskView::Finished, ActionView::Done(Err(err)))),
            Ok(_) => Some(
                (
                    TaskView::ClipMonitors {
                        x: win.at_x->0,
                        y: win.at_y->0,
                        w: win.width->0,
                        h: win.height->0,
                    },
                    ActionView::Ask(Query::Monitors),
                ),
            ),
        },
        (TaskView::ActiveWorkspace, EventView::ActiveWorkspace(id)) => match id {
            None => Some((TaskView::Finished, ActionView::Done(Err(GeometryError::NoActiveWorkspaceId)))),
            Some(id) => Some(
                (TaskView::OutputMonitors { workspace: id }, ActionView::Ask(Query::Monitors)),
            ),
        },
        (TaskView::OutputMonitors { workspace }, EventView::Monitors(ms)) => Some(
            (TaskView::Finished, ActionView::Done(active_output_geometry(workspace, ms))),
        ),
        _ => None,
    }
}

fn strings_of_one(s: &str) -> (v: Vec<String>)
    ensures
        texts(v@) == seq![s@],
{
    let mut v: Vec<String> = Vec::new();
    v.push(String::from_str(s));
    assert(texts(v@) =~= seq![s@]);
    v
}

/// The first task and action for a capture mode.
pub fn geometry_for_mode(mode: Mode) -> (r: (GeometryTask, GeometryAction))
    ensures
        (r.0@, r.1@) == start(mode),
{
    proof {
        reveal_strlit("-d");
        reveal_strlit("-or");
        reveal_strlit("-r");
    }
    match mode {
        Mode::Region => (
            GeometryTask::Selecting { clip: false },
            GeometryAction::Select { args: strings_of_one("-d"), input: None },
        ),
        Mode::Output => (
            GeometryTask::Selecting { clip: false },
            GeometryAction::Select { args: strings_of_one("-or"), input: None },
        ),
        Mode::Window => (GeometryTask::WindowMonitors, GeometryAction::Ask(Query::Monitors)),
        Mode::ActiveWindow => (GeometryTask::ActiveWindow, GeometryAction::Ask(Query::ActiveWindow)),
        Mode::ActiveOutput => (
            GeometryTask::ActiveWorkspace,
            GeometryAction::Ask(Query::ActiveWorkspace),
        ),
    }
}

impl GeometryTask {
    /// Whether `event` is the reply awaited here.
    pub fn accepts(&self, event: &GeometryEvent) -> (b: bool)
        ensures
            b == transition(self@, event@) is Some,
    {
        match (self, event) {
            (GeometryTask::WindowMonitors, GeometryEvent::Monitors(_)) => true,
            (GeometryTask::WindowClients { .. }, GeometryEvent::Clients(_)) => true,
            (GeometryTask::Selecting { .. }, GeometryEvent::Selected { .. }) => true,
            (GeometryTask::ClipMonitors { .. }, GeometryEvent::Monitors(_)) => true,
            (GeometryTask::ActiveWindow, GeometryEvent::ActiveWindow(_)) => true,
            (GeometryTask::ActiveWorkspace, GeometryEvent::ActiveWorkspace(_)) => true,
            (GeometryTask::OutputMonitors { .. }, GeometryEvent::Monitors(_)) => true,
            _ => false,
        }
    }

    /// The next task and action on the reply `event`.
    pub fn step(self, event: GeometryEvent) -> (r: (GeometryTask, GeometryAction))
        requires
            transition(self@, event@) is Some,
        ensures
            Some((r.0@, r.1@)) == transition(self@, event@),
    {
        let ghost t = self@;
        let ghost e = event@;
        match (self, event) {
            (GeometryTask::WindowMonitors, GeometryEvent::Monitors(ms)) => (
                GeometryTask::WindowClients { ids: active_workspace_ids(&ms) },
                GeometryAction::Ask(Query::Clients),
            ),
            (GeometryTask::WindowClients { ids }, GeometryEvent::Clients(ws)) => {
                let input = window_selection_input(&ids, &ws);
                proof {
                    reveal_strlit("-r");
                }
                (
                    GeometryTask::Selecting { clip: true },
                    GeometryAction::Select { args: strings_of_one("-r"), input: Some(input) },
                )
            },
            (GeometryTask::Selecting { clip }, GeometryEvent::Selected { success, output }) => {
                match selection_text(success, output.as_slice()) {
                    Err(err) => (GeometryTask::Finished, GeometryAction::Done(Err(err))),
                    Ok(g) => if !clip {
                        (GeometryTask::Finished, GeometryAction::Done(Ok(g)))
                    } else {
                        match parse_geometry(g.as_str()) {
                            Err(err) => (GeometryTask::Finished, GeometryAction::Done(Err(err))),
                            Ok((x, y, w, h)) => (
                                GeometryTask::ClipMonitors { x, y, w, h },
                                GeometryAction::Ask(Query::Monitors),
                            ),
                        }
                    },
                }
            },
            (GeometryTask::ClipMonitors { x, y, w, h }, GeometryEvent::Monitors(ms)) => (
                GeometryTask::Finished,
                GeometryAction::Done(clip_geometry(x, y, w, h, &ms)),
            ),
            (GeometryTask::ActiveWindow, GeometryEvent::ActiveWindow(win)) => {
                match (win.at_x, win.at_y, win.width, win.height) {
                    (Some(x), Some(y), Some(w), Some(h)) => (
                        GeometryTask::ClipMonitors { x, y, w, h },
                        GeometryAction::Ask(Query::Monitors),
                    ),
                    _ => {
                        let err = if win.at_x.is_none() {
                            GeometryError::MissingAt0
                        } else if win.at_y.is_none() {
                            GeometryError::MissingAt1
                        } else if win.width.is_none() {
                            GeometryError::MissingSize0
                        } else {
                            GeometryError::MissingSize1
                        };
                        (GeometryTask::Finished, GeometryAction::Done(Err(err)))
                    },
                }
            },
            (GeometryTask::ActiveWorkspace, GeometryEvent::ActiveWorkspace(id)) => match id {
                None => (
                    GeometryTask::Finished,
                    GeometryAction::Done(Err(GeometryError::NoActiveWorkspaceId)),
                ),
                Some(id) => (
                    GeometryTask::OutputMonitors { workspace: id },
                    GeometryAction::Ask(Query::Monitors),
                ),
            },
            (GeometryTask::OutputMonitors { workspace }, GeometryEvent::Monitors(ms)) => (
                GeometryTask::Finished,
                GeometryAction::Done(geometry_active_output(workspace, &ms)),
            ),
            _ => {
                assert(false);
                (GeometryTask::Finished, GeometryAction::Done(Err(GeometryError::SelectionCancelled)))
            },
        }
    }
}

/// The geometry that a run of replies settles, from the task `t`: the
/// replies are taken in order until one settles the geometry; `None` where
/// they run out first or one is not the reply awaited.
pub open spec fn settle(t: TaskView, events: Seq<EventView>) -> Option<
    Result<Seq<char>, GeometryError>,
>
    decreases events.len(),
{
    if events.len() == 0 {
        None
    } else {
        match transition(t, events[0]) {
            None => None,
            Some((next, action)) => match action {
                ActionView::Done(r) => Some(r),
                _ => settle(next, events.drop_first()),
            },
        }
    }
}

/// In region and output modes the geometry is the selection itself.
pub proof fn law_selection_modes_settle(mode: Mode, success: bool, output: Seq<u8>)
    requires
        mode == Mode::Region || mode == Mode::Output,
    ensures
        settle(start(mode).0, seq![EventView::Selected { success, output }]) == Some(
            selection(success, output),
        ),
{
    let events = seq![EventView::Selected { success, output }];
    assert(events[0] == EventView::Selected { success, output });
}

/// In window mode the geometry is the selected window box clipped to the
/// monitor layout, as the monitors are when the selection is made.
pub proof fn law_window_mode_settles(
    monitors: Option<Seq<Monitor>>,
    windows: Option<Seq<Window>>,
    success: bool,
    output: Seq<u8>,
    layout: Option<Seq<Monitor>>,
)
    ensures
        settle(
            start(Mode::Window).0,
            seq![
                EventView::Monitors(monitors),
                EventView::Clients(windows),
                EventView::Selected { success, output },
                EventView::Monitors(layout),
            ],
        ) == Some(
            match selection(success, output) {
                Err(e) => Err(e),
                Ok(g) => trimmed_geometry(g, layout),
            },
        ),
{
    let e0 = EventView::Monitors(monitors);
    let e1 = EventView::Clients(windows);
    let e2 = EventView::Selected { success, output };
    let e3 = EventView::Monitors(layout);
    let events = seq![e0, e1, e2, e3];
    let ids = match monitors {
        Some(ms) => active_workspaces(ms),
        None => Seq::empty(),
    };
    assert(events.drop_first() =~= seq![e1, e2, e3]);
    assert(seq![e1, e2, e3].drop_first() =~= seq![e2, e3]);
    assert(seq![e2, e3].drop_first() =~= seq![e3]);
    assert(seq![e3].drop_first() =~= Seq::<EventView>::empty());
    assert(settle(start(Mode::Window).0, events) == settle(
        TaskView::WindowClients { ids },
        seq![e1, e2, e3],
    ));
    assert(settle(TaskView::WindowClients { ids }, seq![e1, e2, e3]) == settle(
        TaskView::Selecting { clip: true },
        seq![e2, e3],
    ));
    if let Ok(g) = selection(success, output) {
        if let Ok((x, y, w, h)) = read_geometry(g) {
            assert(settle(TaskView::Selecting { clip: true }, seq![e2, e3]) == settle(
                TaskView::ClipMonitors { x, y, w, h },
                seq![e3],
            ));
        }
    }
}

/// In active-window mode the geometry is the focused window's box clipped to
/// the monitor layout.
pub proof fn law_active_window_mode_settles(window: Window, layout: Option<Seq<Monitor>>)
    ensures
        settle(
            start(Mode::ActiveWindow).0,
            seq![EventView::ActiveWindow(window), EventView::Monitors(layout)],
        ) == Some(
            match active_window_geometry(window) {
                Err(e) => Err(e),
                Ok(g) => trimmed_geometry(g, layout),
            },
        ),
{
    let e0 = EventView::ActiveWindow(window);
    let e1 = EventView::Monitors(layout);
    let events = seq![e0, e1];
    reveal_with_fuel(settle, 3);
    assert(events.drop_first() =~= seq![e1]);
    assert(seq![e1].drop_first() =~= Seq::<EventView>::empty());
    if let Ok(g) = active_window_geometry(window) {
        law_read_geometry_text(
            window.at_x->0,
            window.at_y->0,
            window.width->0,
            window.height->0,
        );
    }
}

/// In active-output mode the geometry is that of the monitor that shows the
/// active workspace.
pub proof fn law_active_output_mode_settles(workspace: Option<i64>, layout: Option<Seq<Monitor>>)
    ensures
        settle(
            start(Mode::ActiveOutput).0,
            seq![EventView::ActiveWorkspace(workspace), EventView::Monitors(layout)],
        ) == Some(
            match workspace {
                None => Err(GeometryError::NoActiveWorkspaceId),
                Some(id) => active_output_geometry(id, layout),
            },
        ),
{
    let e0 = EventView::ActiveWorkspace(workspace);
    let e1 = EventView::Monitors(layout);
    let events = seq![e0, e1];
    reveal_with_fuel(settle, 3);
    assert(events.drop_first() =~= seq![e1]);
    assert(seq![e1].drop_first() =~= Seq::<EventView>::empty());
}

/// A cancelled selection is an error; a finished one gives its output with
/// no whitespace at either end, and valid UTF-8 output is taken as it is.
pub proof fn law_selection_outcome(success: bool, output: Seq<u8>)
    ensures
        !success ==> selection(success, output) == Err::<Seq<char>, _>(
            GeometryError::SelectionCancelled,
        ),
        success ==> (selection(success, output) matches Ok(g) && (g.len() > 0 ==> !is_white_space(
            g[0],
        ) && !is_white_space(g.last()))),
{
    if success {
        law_trim_removes_only_edge_whitespace(utf8_lossy(output));
    }
}

} // verus!
