//! What the fleet client exchanges with the instances, with the sidebar, and
//! with the program around it.

use vstd::prelude::*;
use vstd::string::*;

use crate::compare::{opt_text, result_view, views};
use crate::frame::{texts, FrameData, FrameView};
use crate::instance::{ApiTarget, ApiTargetView};
use crate::projection::PaneId;
use crate::snapshot::{AgentStatus, SessionSnapshot, SnapshotView};
use crate::tokens::Tokens;

verus! {

/// A button of the mouse, as the host terminal reports it.
#[derive(Debug, Clone, Copy, PartialEq, Eq, Structural)]
pub enum MouseButton {
    Left,
    Right,
    Middle,
}

/// What the mouse did, as the host terminal reports it.
#[derive(Debug, Clone, Copy, PartialEq, Eq, Structural)]
pub enum MouseEventKind {
    Down(MouseButton),
    Up(MouseButton),
    Drag(MouseButton),
    Moved,
    ScrollUp,
    ScrollDown,
    ScrollLeft,
    ScrollRight,
}

/// Something the mouse did at a place of the screen, with the modifiers held,
/// as bits.
#[derive(Debug, Clone, Copy, PartialEq, Eq, Structural)]
pub struct MouseEvent {
    pub kind: MouseEventKind,
    pub column: u16,
    pub row: u16,
    pub modifiers: u8,
}

/// A button of the mouse, as instances are told of it.
#[derive(Debug, Clone, Copy, PartialEq, Eq, Structural)]
pub enum ClientMouseButton {
    Left,
    Right,
    Middle,
}

/// What the mouse did, as instances are told of it.
#[derive(Debug, Clone, Copy, PartialEq, Eq, Structural)]
pub enum ClientMouseKind {
    Down(ClientMouseButton),
    Up(ClientMouseButton),
    Drag(ClientMouseButton),
    Moved,
    ScrollUp,
    ScrollDown,
    ScrollLeft,
    ScrollRight,
}

/// An event that an instance is told of.
#[derive(Debug, Clone, Copy, PartialEq, Eq, Structural)]
pub enum ClientInputEvent {
    Mouse { kind: ClientMouseKind, column: u16, row: u16, modifiers: u8 },
}

/// How instances are told of a button.
pub open spec fn told_button(button: MouseButton) -> ClientMouseButton {
    match button {
        MouseButton::Left => ClientMouseButton::Left,
        MouseButton::Right => ClientMouseButton::Right,
        MouseButton::Middle => ClientMouseButton::Middle,
    }
}

/// How instances are told of what the mouse did.
pub open spec fn told_kind(kind: MouseEventKind) -> ClientMouseKind {
    match kind {
        MouseEventKind::Down(button) => ClientMouseKind::Down(told_button(button)),
        MouseEventKind::Up(button) => ClientMouseKind::Up(told_button(button)),
        MouseEventKind::Drag(button) => ClientMouseKind::Drag(told_button(button)),
        MouseEventKind::Moved => ClientMouseKind::Moved,
        MouseEventKind::ScrollUp => ClientMouseKind::ScrollUp,
        MouseEventKind::ScrollDown => ClientMouseKind::ScrollDown,
        MouseEventKind::ScrollLeft => ClientMouseKind::ScrollLeft,
        MouseEventKind::ScrollRight => ClientMouseKind::ScrollRight,
    }
}

/// How instances are told of a button.
pub fn mouse_button(button: MouseButton) -> (r: ClientMouseButton)
    ensures
        r == told_button(button),
{
    match button {
        MouseButton::Left => ClientMouseButton::Left,
        MouseButton::Right => ClientMouseButton::Right,
        MouseButton::Middle => ClientMouseButton::Middle,
    }
}

/// How instances are told of what the mouse did. There is nothing that they are
/// not told of.
pub fn mouse_kind(kind: MouseEventKind) -> (r: Option<ClientMouseKind>)
    ensures
        r == Some(told_kind(kind)),
{
    Some(
        match kind {
            MouseEventKind::Down(button) => ClientMouseKind::Down(mouse_button(button)),
            MouseEventKind::Up(button) => ClientMouseKind::Up(mouse_button(button)),
            MouseEventKind::Drag(button) => ClientMouseKind::Drag(mouse_button(button)),
            MouseEventKind::Moved => ClientMouseKind::Moved,
            MouseEventKind::ScrollUp => ClientMouseKind::ScrollUp,
            MouseEventKind::ScrollDown => ClientMouseKind::ScrollDown,
            MouseEventKind::ScrollLeft => ClientMouseKind::ScrollLeft,
            MouseEventKind::ScrollRight => ClientMouseKind::ScrollRight,
        },
    )
}

/// No two things that the mouse can do are told alike.
pub proof fn law_mouse_kinds_stay_apart(a: MouseEventKind, b: MouseEventKind)
    requires
        told_kind(a) == told_kind(b),
    ensures
        a == b,
{
}

/// A message to the content stream of an instance.
#[derive(Debug)]
pub enum ClientMessage {
    Input { data: Vec<u8> },
    InputEvents { events: Vec<ClientInputEvent> },
    Resize { cols: u16, rows: u16, cell_width_px: u32, cell_height_px: u32 },
    Detach,
}

/// The mathematical model of a message to an instance.
pub enum ClientMessageView {
    Input { data: Seq<u8> },
    InputEvents { events: Seq<ClientInputEvent> },
    Resize { cols: u16, rows: u16, cell_width_px: u32, cell_height_px: u32 },
    Detach,
}

impl View for ClientMessage {
    type V = ClientMessageView;

    open spec fn view(&self) -> ClientMessageView {
        match self {
            ClientMessage::Input { data } => ClientMessageView::Input {
                data: data@,
            },
            ClientMessage::InputEvents { events } => ClientMessageView::InputEvents {
                events: events@,
            },
            ClientMessage::Resize {
                cols,
                rows,
                cell_width_px,
                cell_height_px,
            } => ClientMessageView::Resize {
                cols: *cols,
                rows: *rows,
                cell_width_px: *cell_width_px,
                cell_height_px: *cell_height_px,
            },
            ClientMessage::Detach => ClientMessageView::Detach,
        }
    }
}

/// A kind of event that an instance can be asked to report.
#[derive(Debug)]
pub enum Subscription {
    WorkspaceCreated,
    WorkspaceUpdated,
    WorkspaceMetadataUpdated,
    WorkspaceRenamed,
    WorkspaceMoved,
    WorkspaceReordered,
    WorkspaceClosed,
    WorkspaceFocused,
    WorktreeCreated,
    WorktreeOpened,
    WorktreeRemoved,
    TabCreated,
    TabClosed,
    TabFocused,
    TabRenamed,
    TabMoved,
    PaneCreated,
    PaneClosed,
    PaneUpdated,
    PaneFocused,
    PaneMoved,
    PaneExited,
    PaneAgentDetected,
    LayoutUpdated,
    PaneAgentStatusChanged { pane_id: String, agent_status: Option<AgentStatus> },
}

/// The mathematical model of a kind of event.
pub enum SubscriptionView {
    WorkspaceCreated,
    WorkspaceUpdated,
    WorkspaceMetadataUpdated,
    WorkspaceRenamed,
    WorkspaceMoved,
    WorkspaceReordered,
    WorkspaceClosed,
    WorkspaceFocused,
    WorktreeCreated,
    WorktreeOpened,
    WorktreeRemoved,
    TabCreated,
    TabClosed,
    TabFocused,
    TabRenamed,
    TabMoved,
    PaneCreated,
    PaneClosed,
    PaneUpdated,
    PaneFocused,
    PaneMoved,
    PaneExited,
    PaneAgentDetected,
    LayoutUpdated,
    PaneAgentStatusChanged { pane_id: Seq<char>, agent_status: Option<AgentStatus> },
}

impl View for Subscription {
    type V = SubscriptionView;

    open spec fn view(&self) -> SubscriptionView {
        match self {
            Subscription::WorkspaceCreated => SubscriptionView::WorkspaceCreated,
            Subscription::WorkspaceUpdated => SubscriptionView::WorkspaceUpdated,
            Subscription::WorkspaceMetadataUpdated => SubscriptionView::WorkspaceMetadataUpdated,
            Subscription::WorkspaceRenamed => SubscriptionView::WorkspaceRenamed,
            Subscription::WorkspaceMoved => SubscriptionView::WorkspaceMoved,
            Subscription::WorkspaceReordered => SubscriptionView::WorkspaceReordered,
            Subscription::WorkspaceClosed => SubscriptionView::WorkspaceClosed,
            Subscription::WorkspaceFocused => SubscriptionView::WorkspaceFocused,
            Subscription::WorktreeCreated => SubscriptionView::WorktreeCreated,
            Subscription::WorktreeOpened => SubscriptionView::WorktreeOpened,
            Subscription::WorktreeRemoved => SubscriptionView::WorktreeRemoved,
            Subscription::TabCreated => SubscriptionView::TabCreated,
            Subscription::TabClosed => SubscriptionView::TabClosed,
            Subscription::TabFocused => SubscriptionView::TabFocused,
            Subscription::TabRenamed => SubscriptionView::TabRenamed,
            Subscription::TabMoved => SubscriptionView::TabMoved,
            Subscription::PaneCreated => SubscriptionView::PaneCreated,
            Subscription::PaneClosed => SubscriptionView::PaneClosed,
            Subscription::PaneUpdated => SubscriptionView::PaneUpdated,
            Subscription::PaneFocused => SubscriptionView::PaneFocused,
            Subscription::PaneMoved => SubscriptionView::PaneMoved,
            Subscription::PaneExited => SubscriptionView::PaneExited,
            Subscription::PaneAgentDetected => SubscriptionView::PaneAgentDetected,
            Subscription::LayoutUpdated => SubscriptionView::LayoutUpdated,
            Subscription::PaneAgentStatusChanged {
                pane_id,
                agent_status,
            } => SubscriptionView::PaneAgentStatusChanged {
                pane_id: pane_id@,
                agent_status: *agent_status,
            },
        }
    }
}

/// A request to the API of an instance.
#[derive(Debug)]
#[allow(inconsistent_fields)]
pub enum Method {
    SessionSnapshot,
    EventsSubscribe { subscriptions: Vec<Subscription> },
    WorkspaceCreate { cwd: Option<String>, focus: bool, label: Option<String>, env: Tokens },
    WorkspaceFocus { workspace_id: String },
    WorkspaceRename { workspace_id: String, label: String },
    WorkspaceClose { workspace_id: String },
    TabFocus { tab_id: String },
    PaneFocus { pane_id: String },
    ServerReloadConfig,
}

/// The mathematical model of a request.
#[allow(inconsistent_fields)]
pub enum MethodView {
    SessionSnapshot,
    EventsSubscribe { subscriptions: Seq<SubscriptionView> },
    WorkspaceCreate {
        cwd: Option<Seq<char>>,
        focus: bool,
        label: Option<Seq<char>>,
        env: Map<Seq<char>, Seq<char>>,
    },
    WorkspaceFocus { workspace_id: Seq<char> },
    WorkspaceRename { workspace_id: Seq<char>, label: Seq<char> },
    WorkspaceClose { workspace_id: Seq<char> },
    TabFocus { tab_id: Seq<char> },
    PaneFocus { pane_id: Seq<char> },
    ServerReloadConfig,
}

impl View for Method {
    type V = MethodView;

    open spec fn view(&self) -> MethodView {
        match self {
            Method::SessionSnapshot => MethodView::SessionSnapshot,
            Method::EventsSubscribe { subscriptions } => MethodView::EventsSubscribe {
                subscriptions: views(subscriptions@),
            },
            Method::WorkspaceCreate { cwd, focus, label, env } => MethodView::WorkspaceCreate {
                cwd: opt_text(*cwd),
                focus: *focus,
                label: opt_text(*label),
                env: env@,
            },
            Method::WorkspaceFocus { workspace_id } => MethodView::WorkspaceFocus {
                workspace_id: workspace_id@,
            },
            Method::WorkspaceRename { workspace_id, label } => MethodView::WorkspaceRename {
                workspace_id: workspace_id@,
                label: label@,
            },
            Method::WorkspaceClose { workspace_id } => MethodView::WorkspaceClose {
                workspace_id: workspace_id@,
            },
            Method::TabFocus { tab_id } => MethodView::TabFocus {
                tab_id: tab_id@,
            },
            Method::PaneFocus { pane_id } => MethodView::PaneFocus {
                pane_id: pane_id@,
            },
            Method::ServerReloadConfig => MethodView::ServerReloadConfig,
        }
    }
}

/// A message from the content stream of an instance. `Other` is any that a
/// fleet client does not act on.
#[derive(Debug)]
pub enum ServerMessage {
    Frame { frame: FrameData },
    Terminal,
    Graphics,
    Notify { kind: String, message: String, body: Option<String> },
    Clipboard { data: Vec<u8> },
    WindowTitle { title: Option<String> },
    ReloadSoundConfig,
    MouseCapture { enabled: bool },
    KittyKeyboardReportAll { enabled: bool },
    PrefixInputSource { active: bool },
    ServerShutdown { reason: Option<String> },
    Other,
}

/// The mathematical model of a message from an instance.
pub enum ServerMessageView {
    Frame { frame: FrameView },
    Terminal,
    Graphics,
    Notify { kind: Seq<char>, message: Seq<char>, body: Option<Seq<char>> },
    Clipboard { data: Seq<u8> },
    WindowTitle { title: Option<Seq<char>> },
    ReloadSoundConfig,
    MouseCapture { enabled: bool },
    KittyKeyboardReportAll { enabled: bool },
    PrefixInputSource { active: bool },
    ServerShutdown { reason: Option<Seq<char>> },
    Other,
}

impl View for ServerMessage {
    type V = ServerMessageView;

    open spec fn view(&self) -> ServerMessageView {
        match self {
            ServerMessage::Frame { frame } => ServerMessageView::Frame {
                frame: frame@,
            },
            ServerMessage::Terminal => ServerMessageView::Terminal,
            ServerMessage::Graphics => ServerMessageView::Graphics,
            ServerMessage::Notify { kind, message, body } => ServerMessageView::Notify {
                kind: kind@,
                message: message@,
                body: opt_text(*body),
            },
            ServerMessage::Clipboard { data } => ServerMessageView::Clipboard {
                data: data@,
            },
            ServerMessage::WindowTitle { title } => ServerMessageView::WindowTitle {
                title: opt_text(*title),
            },
            ServerMessage::ReloadSoundConfig => ServerMessageView::ReloadSoundConfig,
            ServerMessage::MouseCapture { enabled } => ServerMessageView::MouseCapture {
                enabled: *enabled,
            },
            ServerMessage::KittyKeyboardReportAll {
                enabled,
            } => ServerMessageView::KittyKeyboardReportAll {
                enabled: *enabled,
            },
            ServerMessage::PrefixInputSource { active } => ServerMessageView::PrefixInputSource {
                active: *active,
            },
            ServerMessage::ServerShutdown { reason } => ServerMessageView::ServerShutdown {
                reason: opt_text(*reason),
            },
            ServerMessage::Other => ServerMessageView::Other,
        }
    }
}

/// Where a bridge to a remote instance is reached.
#[derive(Debug)]
pub struct BridgeSockets {
    pub client_socket: String,
    pub api_socket: String,
}

/// The mathematical model of a bridge.
pub struct BridgeSocketsView {
    pub client_socket: Seq<char>,
    pub api_socket: Seq<char>,
}

impl View for BridgeSockets {
    type V = BridgeSocketsView;

    open spec fn view(&self) -> BridgeSocketsView {
        BridgeSocketsView {
            client_socket: self.client_socket@,
            api_socket: self.api_socket@,
        }
    }
}

/// Something that happened to an instance.
#[derive(Debug)]
#[allow(inconsistent_fields)]
pub enum FleetEvent {
    BridgeReady { instance_id: String, result: Result<BridgeSockets, String> },
    ServerMessage { instance_id: String, message: ServerMessage },
    Disconnected { instance_id: String },
    Snapshot { instance_id: String, result: Result<SessionSnapshot, String> },
}

/// The mathematical model of an event.
#[allow(inconsistent_fields)]
pub enum FleetEventView {
    BridgeReady { instance_id: Seq<char>, result: Result<BridgeSocketsView, Seq<char>> },
    ServerMessage { instance_id: Seq<char>, message: ServerMessageView },
    Disconnected { instance_id: Seq<char> },
    Snapshot { instance_id: Seq<char>, result: Result<SnapshotView, Seq<char>> },
}

impl View for FleetEvent {
    type V = FleetEventView;

    open spec fn view(&self) -> FleetEventView {
        match self {
            FleetEvent::BridgeReady { instance_id, result } => FleetEventView::BridgeReady {
                instance_id: instance_id@,
                result: result_view(*result),
            },
            FleetEvent::ServerMessage { instance_id, message } => FleetEventView::ServerMessage {
                instance_id: instance_id@,
                message: message@,
            },
            FleetEvent::Disconnected { instance_id } => FleetEventView::Disconnected {
                instance_id: instance_id@,
            },
            FleetEvent::Snapshot { instance_id, result } => FleetEventView::Snapshot {
                instance_id: instance_id@,
                result: result_view(*result),
            },
        }
    }
}

/// How notifications are delivered.
#[derive(Debug, Clone, Copy, PartialEq, Eq, Structural)]
pub enum ToastDelivery {
    Off,
    Herdr,
    Terminal,
    System,
}

/// What the user asked of the sidebar. Choices are given as the configuration
/// words them.
#[derive(Debug)]
pub enum ClientSidebarAction {
    Redraw,
    NewWorkspace,
    FocusWorkspace { ws_idx: usize },
    FocusTab { ws_idx: usize, tab_idx: usize },
    FocusPane { ws_idx: usize, pane_id: PaneId },
    RenameStarted { ws_idx: usize },
    RenameWorkspace { ws_idx: usize, label: String },
    CloseWorkspace { ws_idx: usize },
    SaveTheme { name: String },
    SaveStatusIndicators { style: String },
    SaveSound { enabled: bool },
    SaveToastDelivery { delivery: ToastDelivery },
    SaveAgentBorderLabels { enabled: bool },
    InstallRecommendedIntegrations,
    SaveAgentPanelSort { sort: String },
    ReloadConfig,
    Detach,
}

/// The mathematical model of what the user asked of the sidebar.
pub enum ClientSidebarActionView {
    Redraw,
    NewWorkspace,
    FocusWorkspace { ws_idx: usize },
    FocusTab { ws_idx: usize, tab_idx: usize },
    FocusPane { ws_idx: usize, pane_id: PaneId },
    RenameStarted { ws_idx: usize },
    RenameWorkspace { ws_idx: usize, label: Seq<char> },
    CloseWorkspace { ws_idx: usize },
    SaveTheme { name: Seq<char> },
    SaveStatusIndicators { style: Seq<char> },
    SaveSound { enabled: bool },
    SaveToastDelivery { delivery: ToastDelivery },
    SaveAgentBorderLabels { enabled: bool },
    InstallRecommendedIntegrations,
    SaveAgentPanelSort { sort: Seq<char> },
    ReloadConfig,
    Detach,
}

impl View for ClientSidebarAction {
    type V = ClientSidebarActionView;

    open spec fn view(&self) -> ClientSidebarActionView {
        match self {
            ClientSidebarAction::Redraw => ClientSidebarActionView::Redraw,
            ClientSidebarAction::NewWorkspace => ClientSidebarActionView::NewWorkspace,
            ClientSidebarAction::FocusWorkspace {
                ws_idx,
            } => ClientSidebarActionView::FocusWorkspace {
                ws_idx: *ws_idx,
            },
            ClientSidebarAction::FocusTab { ws_idx, tab_idx } => ClientSidebarActionView::FocusTab {
                ws_idx: *ws_idx,
                tab_idx: *tab_idx,
            },
            ClientSidebarAction::FocusPane {
                ws_idx,
                pane_id,
            } => ClientSidebarActionView::FocusPane {
                ws_idx: *ws_idx,
                pane_id: *pane_id,
            },
            ClientSidebarAction::RenameStarted {
                ws_idx,
            } => ClientSidebarActionView::RenameStarted {
                ws_idx: *ws_idx,
            },
            ClientSidebarAction::RenameWorkspace {
                ws_idx,
                label,
            } => ClientSidebarActionView::RenameWorkspace {
                ws_idx: *ws_idx,
                label: label@,
            },
            ClientSidebarAction::CloseWorkspace {
                ws_idx,
            } => ClientSidebarActionView::CloseWorkspace {
                ws_idx: *ws_idx,
            },
            ClientSidebarAction::SaveTheme { name } => ClientSidebarActionView::SaveTheme {
                name: name@,
            },
            ClientSidebarAction::SaveStatusIndicators {
                style,
            } => ClientSidebarActionView::SaveStatusIndicators {
                style: style@,
            },
            ClientSidebarAction::SaveSound { enabled } => ClientSidebarActionView::SaveSound {
                enabled: *enabled,
            },
            ClientSidebarAction::SaveToastDelivery {
                delivery,
            } => ClientSidebarActionView::SaveToastDelivery {
                delivery: *delivery,
            },
            ClientSidebarAction::SaveAgentBorderLabels {
                enabled,
            } => ClientSidebarActionView::SaveAgentBorderLabels {
                enabled: *enabled,
            },
            ClientSidebarAction::InstallRecommendedIntegrations =>
                ClientSidebarActionView::InstallRecommendedIntegrations,
            ClientSidebarAction::SaveAgentPanelSort {
                sort,
            } => ClientSidebarActionView::SaveAgentPanelSort {
                sort: sort@,
            },
            ClientSidebarAction::ReloadConfig => ClientSidebarActionView::ReloadConfig,
            ClientSidebarAction::Detach => ClientSidebarActionView::Detach,
        }
    }
}

/// A change to the configuration file. A value is given as the file words it.
#[derive(Debug)]
#[allow(inconsistent_fields)]
pub enum ConfigEdit {
    SetValue { section: String, key: String, value: String },
    SetBool { section: String, key: String, value: bool },
    RemoveKey { section: String, key: String },
}

/// The mathematical model of a change to the configuration file.
#[allow(inconsistent_fields)]
pub enum ConfigEditView {
    SetValue { section: Seq<char>, key: Seq<char>, value: Seq<char> },
    SetBool { section: Seq<char>, key: Seq<char>, value: bool },
    RemoveKey { section: Seq<char>, key: Seq<char> },
}

impl View for ConfigEdit {
    type V = ConfigEditView;

    open spec fn view(&self) -> ConfigEditView {
        match self {
            ConfigEdit::SetValue { section, key, value } => ConfigEditView::SetValue {
                section: section@,
                key: key@,
                value: value@,
            },
            ConfigEdit::SetBool { section, key, value } => ConfigEditView::SetBool {
                section: section@,
                key: key@,
                value: *value,
            },
            ConfigEdit::RemoveKey { section, key } => ConfigEditView::RemoveKey {
                section: section@,
                key: key@,
            },
        }
    }
}

/// What the fleet client wants done. The program around it does so in order.
#[derive(Debug)]
#[allow(inconsistent_fields)]
pub enum Effect {
    Send { index: usize, message: ClientMessage },
    SendImage { index: usize, source: String },
    Request { index: usize, id: String, method: Method },
    ApplyHostModes,
    SwitchPrefixInput,
    RestorePrefixInput,
    WriteWindowTitle { title: Option<String> },
    Notify { kind: String, message: String, body: Option<String> },
    ForwardClipboard { data: Vec<u8> },
    QueryHostTheme,
    ReloadLocalConfig,
    ReloadVisualConfig,
    StartServerReader { index: usize },
    StartApiWorker { index: usize, target: ApiTarget },
    StartSnapshotWatcher { instance_id: String, target: ApiTarget },
    StartBridge { instance_id: String, target: String, session: Option<String> },
    KeepBridge,
    ConnectContent {
        index: usize,
        socket: String,
        cols: u16,
        rows: u16,
        cell_width_px: u32,
        cell_height_px: u32,
    },
    UpdateConfigFile { context: String, edits: Vec<ConfigEdit> },
    InstallIntegrations { labels: Vec<String> },
    PersistPresentation,
    Render,
}

/// The mathematical model of something that is wanted done.
#[allow(inconsistent_fields)]
pub enum EffectView {
    Send { index: usize, message: ClientMessageView },
    SendImage { index: usize, source: Seq<char> },
    Request { index: usize, id: Seq<char>, method: MethodView },
    ApplyHostModes,
    SwitchPrefixInput,
    RestorePrefixInput,
    WriteWindowTitle { title: Option<Seq<char>> },
    Notify { kind: Seq<char>, message: Seq<char>, body: Option<Seq<char>> },
    ForwardClipboard { data: Seq<u8> },
    QueryHostTheme,
    ReloadLocalConfig,
    ReloadVisualConfig,
    StartServerReader { index: usize },
    StartApiWorker { index: usize, target: ApiTargetView },
    StartSnapshotWatcher { instance_id: Seq<char>, target: ApiTargetView },
    StartBridge { instance_id: Seq<char>, target: Seq<char>, session: Option<Seq<char>> },
    KeepBridge,
    ConnectContent {
        index: usize,
        socket: Seq<char>,
        cols: u16,
        rows: u16,
        cell_width_px: u32,
        cell_height_px: u32,
    },
    UpdateConfigFile { context: Seq<char>, edits: Seq<ConfigEditView> },
    InstallIntegrations { labels: Seq<Seq<char>> },
    PersistPresentation,
    Render,
}

impl View for Effect {
    type V = EffectView;

    open spec fn view(&self) -> EffectView {
        match self {
            Effect::Send { index, message } => EffectView::Send {
                index: *index,
                message: message@,
            },
            Effect::SendImage { index, source } => EffectView::SendImage {
                index: *index,
                source: source@,
            },
            Effect::Request { index, id, method } => EffectView::Request {
                index: *index,
                id: id@,
                method: method@,
            },
            Effect::ApplyHostModes => EffectView::ApplyHostModes,
            Effect::SwitchPrefixInput => EffectView::SwitchPrefixInput,
            Effect::RestorePrefixInput => EffectView::RestorePrefixInput,
            Effect::WriteWindowTitle { title } => EffectView::WriteWindowTitle {
                title: opt_text(*title),
            },
            Effect::Notify { kind, message, body } => EffectView::Notify {
                kind: kind@,
                message: message@,
                body: opt_text(*body),
            },
            Effect::ForwardClipboard { data } => EffectView::ForwardClipboard {
                data: data@,
            },
            Effect::QueryHostTheme => EffectView::QueryHostTheme,
            Effect::ReloadLocalConfig => EffectView::ReloadLocalConfig,
            Effect::ReloadVisualConfig => EffectView::ReloadVisualConfig,
            Effect::StartServerReader { index } => EffectView::StartServerReader {
                index: *index,
            },
            Effect::StartApiWorker { index, target } => EffectView::StartApiWorker {
                index: *index,
                target: target@,
            },
            Effect::StartSnapshotWatcher {
                instance_id,
                target,
            } => EffectView::StartSnapshotWatcher {
                instance_id: instance_id@,
                target: target@,
            },
            Effect::StartBridge { instance_id, target, session } => EffectView::StartBridge {
                instance_id: instance_id@,
                target: target@,
                session: opt_text(*session),
            },
            Effect::KeepBridge => EffectView::KeepBridge,
            Effect::ConnectContent {
                index,
                socket,
                cols,
                rows,
                cell_width_px,
                cell_height_px,
            } => EffectView::ConnectContent {
                index: *index,
                socket: socket@,
                cols: *cols,
                rows: *rows,
                cell_width_px: *cell_width_px,
                cell_height_px: *cell_height_px,
            },
            Effect::UpdateConfigFile { context, edits } => EffectView::UpdateConfigFile {
                context: context@,
                edits: views(edits@),
            },
            Effect::InstallIntegrations { labels } => EffectView::InstallIntegrations {
                labels: texts(labels@),
            },
            Effect::PersistPresentation => EffectView::PersistPresentation,
            Effect::Render => EffectView::Render,
        }
    }
}

/// A button is told under its own name.
pub proof fn law_buttons_are_told_by_name(button: MouseButton)
    ensures
        told_button(button) is Left <==> button is Left,
        told_button(button) is Right <==> button is Right,
        told_button(button) is Middle <==> button is Middle,
{
}

/// What the mouse did is told under its own name: a turn of the wheel as a turn
/// the same way, a move as a move, and what was done with a button as done with
/// that button.
pub proof fn law_mouse_is_told_by_name(kind: MouseEventKind)
    ensures
        told_kind(kind) is ScrollUp <==> kind is ScrollUp,
        told_kind(kind) is ScrollDown <==> kind is ScrollDown,
        told_kind(kind) is ScrollLeft <==> kind is ScrollLeft,
        told_kind(kind) is ScrollRight <==> kind is ScrollRight,
        told_kind(kind) is Moved <==> kind is Moved,
        told_kind(kind) is Down <==> kind is Down,
        told_kind(kind) is Up <==> kind is Up,
        told_kind(kind) is Drag <==> kind is Drag,
        kind matches MouseEventKind::Down(button) ==> {
            &&& told_kind(kind) matches ClientMouseKind::Down(told)
            &&& told is Left <==> button is Left
            &&& told is Right <==> button is Right
            &&& told is Middle <==> button is Middle
        },
        kind matches MouseEventKind::Up(button) ==> {
            &&& told_kind(kind) matches ClientMouseKind::Up(told)
            &&& told is Left <==> button is Left
            &&& told is Right <==> button is Right
            &&& told is Middle <==> button is Middle
        },
        kind matches MouseEventKind::Drag(button) ==> {
            &&& told_kind(kind) matches ClientMouseKind::Drag(told)
            &&& told is Left <==> button is Left
            &&& told is Right <==> button is Right
            &&& told is Middle <==> button is Middle
        },
{
}

} // verus!
