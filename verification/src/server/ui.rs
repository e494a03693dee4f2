//! What the server's window shows: where the pairing QR code is drawn, the
//! notification-area menu, the status line and the informational texts.
//! The window system draws and dispatches; these functions decide.

use vstd::prelude::*;
use crate::server::pairing::PairingInfo;
use crate::server::qr::{qr_matrix_of, QrMatrix};
use crate::text::{decimal_digits, push_decimal, push_str};
use crate::transport::pairing::{ipv4_text, push_ipv4};

verus! {

/// Left edge of the panel that holds the pairing QR code.
pub const QR_PANEL_LEFT: i32 = 410;
/// Top edge of the QR panel.
pub const QR_PANEL_TOP: i32 = 95;
/// Width and height of the QR panel.
pub const QR_PANEL_SIZE: i32 = 380;
/// Light modules kept around the code on every side.
pub const QR_QUIET_ZONE_MODULES: i32 = 4;

/// A rectangle in window coordinates; `right` and `bottom` are exclusive.
#[derive(Clone, Copy, Debug, PartialEq, Eq, Structural)]
pub struct Rect {
    pub left: i32,
    pub top: i32,
    pub right: i32,
    pub bottom: i32,
}

/// Where a QR code of a given size is drawn inside the panel.
#[derive(Clone, Copy, Debug, PartialEq, Eq, Structural)]
pub struct QrLayout {
    /// The white panel, clipped to the client area.
    pub panel: Rect,
    /// Edge length of one module in pixels.
    pub module_size: i32,
    /// Top-left corner of the code including its quiet zone.
    pub origin_x: i32,
    pub origin_y: i32,
}

pub open spec fn min_int(a: int, b: int) -> int {
    if a <= b { a } else { b }
}

pub open spec fn max_int(a: int, b: int) -> int {
    if a >= b { a } else { b }
}

/// Half of `d`, rounded toward zero as integer division does.
pub open spec fn half_toward_zero(d: int) -> int {
    if d >= 0 { d / 2 } else { -((-d) / 2) }
}

/// The layout of a code of `size` modules in a client area whose right and
/// bottom edges are given; `None` when the visible panel is empty.
pub open spec fn spec_qr_layout(client_right: i32, client_bottom: i32, size: int) -> Option<QrLayout> {
    let right = min_int(QR_PANEL_LEFT + QR_PANEL_SIZE, client_right as int);
    let bottom = min_int(QR_PANEL_TOP + QR_PANEL_SIZE, client_bottom as int);
    if right <= QR_PANEL_LEFT || bottom <= QR_PANEL_TOP {
        None
    } else {
        let width = right - QR_PANEL_LEFT;
        let height = bottom - QR_PANEL_TOP;
        let total = size + 2 * QR_QUIET_ZONE_MODULES;
        let module_size = max_int(min_int(width, height) / total, 1);
        let rendered = module_size * total;
        Some(
            QrLayout {
                panel: Rect { left: QR_PANEL_LEFT, top: QR_PANEL_TOP, right: right as i32, bottom: bottom as i32 },
                module_size: module_size as i32,
                origin_x: (QR_PANEL_LEFT + half_toward_zero(width - rendered)) as i32,
                origin_y: (QR_PANEL_TOP + half_toward_zero(height - rendered)) as i32,
            },
        )
    }
}

/// The square of the module at column `x`, row `y`.
pub open spec fn module_rect(layout: QrLayout, x: int, y: int) -> Rect {
    let left = layout.origin_x + (x + QR_QUIET_ZONE_MODULES) * layout.module_size;
    let top = layout.origin_y + (y + QR_QUIET_ZONE_MODULES) * layout.module_size;
    Rect {
        left: left as i32,
        top: top as i32,
        right: (left + layout.module_size) as i32,
        bottom: (top + layout.module_size) as i32,
    }
}

/// The squares of the dark modules among the first `columns` of row `y`, left to right.
pub open spec fn dark_row_rects(modules: Seq<bool>, size: int, layout: QrLayout, y: int, columns: nat) -> Seq<Rect>
    decreases columns,
{
    if columns == 0 {
        Seq::empty()
    } else {
        let x = columns - 1;
        let before = dark_row_rects(modules, size, layout, y, (columns - 1) as nat);
        if modules[y * size + x] {
            before.push(module_rect(layout, x, y))
        } else {
            before
        }
    }
}

/// The squares of the dark modules in the first `rows` rows, row by row.
pub open spec fn dark_rects(modules: Seq<bool>, size: int, layout: QrLayout, rows: nat) -> Seq<Rect>
    decreases rows,
{
    if rows == 0 {
        Seq::empty()
    } else {
        dark_rects(modules, size, layout, (rows - 1) as nat) + dark_row_rects(
            modules,
            size,
            layout,
            rows - 1,
            size as nat,
        )
    }
}

/// What to paint for the pairing QR code: the white panel, then each dark module.
#[derive(Clone, Debug)]
pub struct QrPaint {
    pub panel: Rect,
    pub dark_modules: Vec<Rect>,
}

/// Lays out a code of `matrix_size` modules in the client area.
pub fn qr_layout(client_right: i32, client_bottom: i32, matrix_size: i32) -> (layout: Option<QrLayout>)
    requires
        21 <= matrix_size <= 177,
    ensures
        layout == spec_qr_layout(client_right, client_bottom, matrix_size as int),
        layout matches Some(l) ==> {
            &&& 1 <= l.module_size
            &&& l.module_size * (matrix_size + 2 * QR_QUIET_ZONE_MODULES) <= 380
            &&& QR_PANEL_LEFT - 92 <= l.origin_x <= QR_PANEL_LEFT + 190
            &&& QR_PANEL_TOP - 92 <= l.origin_y <= QR_PANEL_TOP + 190
        },
{
    let right: i32 = if client_right < QR_PANEL_LEFT + QR_PANEL_SIZE { client_right } else { QR_PANEL_LEFT + QR_PANEL_SIZE };
    let bottom: i32 = if client_bottom < QR_PANEL_TOP + QR_PANEL_SIZE { client_bottom } else { QR_PANEL_TOP + QR_PANEL_SIZE };
    if right <= QR_PANEL_LEFT || bottom <= QR_PANEL_TOP {
        return None;
    }
    let width: i32 = right - QR_PANEL_LEFT;
    let height: i32 = bottom - QR_PANEL_TOP;
    let total: i32 = matrix_size + 2 * QR_QUIET_ZONE_MODULES;
    let shorter: i32 = if width < height { width } else { height };
    let fitted: i32 = shorter / total;
    let module_size: i32 = if fitted > 1 { fitted } else { 1 };
    assert(module_size * total <= 380) by (nonlinear_arith)
        requires
            1 <= shorter <= 380,
            29 <= total <= 185,
            fitted == shorter / total,
            module_size == if fitted > 1 { fitted } else { 1 },
    ;
    assert(module_size * total >= 29) by (nonlinear_arith)
        requires
            29 <= total,
            1 <= module_size,
    ;
    assert(module_size * total <= shorter || module_size * total == total) by (nonlinear_arith)
        requires
            1 <= shorter,
            29 <= total,
            fitted == shorter / total,
            module_size == if fitted > 1 { fitted } else { 1 },
    ;
    let rendered: i32 = module_size * total;
    let dx: i32 = width - rendered;
    let dy: i32 = height - rendered;
    let half_x: i32 = if dx >= 0 { dx / 2 } else { -((-dx) / 2) };
    let half_y: i32 = if dy >= 0 { dy / 2 } else { -((-dy) / 2) };
    Some(
        QrLayout {
            panel: Rect { left: QR_PANEL_LEFT, top: QR_PANEL_TOP, right, bottom },
            module_size,
            origin_x: QR_PANEL_LEFT + half_x,
            origin_y: QR_PANEL_TOP + half_y,
        },
    )
}

/// Everything that painting the QR code fills, or `None` when the panel is not visible.
pub fn qr_paint(client_right: i32, client_bottom: i32, matrix: &QrMatrix) -> (paint: Option<QrPaint>)
    requires
        matrix.wf(),
    ensures
        match spec_qr_layout(client_right, client_bottom, matrix.spec_size()) {
            None => paint is None,
            Some(l) => paint matches Some(p) && p.panel == l.panel && p.dark_modules@ == dark_rects(
                matrix.spec_modules(),
                matrix.spec_size(),
                l,
                matrix.spec_size() as nat,
            ),
        },
{
    let size = matrix.size();
    let layout = match qr_layout(client_right, client_bottom, size) {
        Some(l) => l,
        None => return None,
    };
    let ms = layout.module_size;
    assert(ms <= 380) by (nonlinear_arith)
        requires
            1 <= ms,
            ms * (size + 8) <= 380,
            21 <= size,
    ;
    let mut rects: Vec<Rect> = Vec::new();
    let mut y: i32 = 0;
    while y < size
        invariant
            matrix.wf(),
            size == matrix.spec_size(),
            21 <= size <= 177,
            0 <= y <= size,
            ms == layout.module_size,
            1 <= ms <= 380,
            ms * (size + 8) <= 380,
            QR_PANEL_LEFT - 92 <= layout.origin_x <= QR_PANEL_LEFT + 190,
            QR_PANEL_TOP - 92 <= layout.origin_y <= QR_PANEL_TOP + 190,
            rects@ == dark_rects(matrix.spec_modules(), size as int, layout, y as nat),
            matrix.spec_modules().len() == size * size,
        decreases size - y,
    {
        let mut x: i32 = 0;
        let ghost rows_before = rects@;
        assert((y + 4) * ms <= 380 && (y + 4) * ms >= 0) by (nonlinear_arith)
            requires
                1 <= ms,
                ms * (size + 8) <= 380,
                0 <= y < size,
        ;
        while x < size
            invariant
                matrix.wf(),
                size == matrix.spec_size(),
                21 <= size <= 177,
                0 <= y < size,
                0 <= x <= size,
                ms == layout.module_size,
                1 <= ms <= 380,
                ms * (size + 8) <= 380,
                (y + 4) * ms <= 380,
                (y + 4) * ms >= 0,
                matrix.spec_modules().len() == size * size,
                QR_PANEL_LEFT - 92 <= layout.origin_x <= QR_PANEL_LEFT + 190,
                QR_PANEL_TOP - 92 <= layout.origin_y <= QR_PANEL_TOP + 190,
                rows_before == dark_rects(matrix.spec_modules(), size as int, layout, y as nat),
                rects@ == rows_before + dark_row_rects(matrix.spec_modules(), size as int, layout, y as int, x as nat),
            decreases size - x,
        {
            assert(0 <= y * size + x < size * size && y * size <= 177 * 177) by (nonlinear_arith)
                requires
                    0 <= x < size,
                    0 <= y < size,
                    size <= 177,
            ;
            assert((x + 4) * ms <= 380 && (x + 4) * ms >= 0) by (nonlinear_arith)
                requires
                    1 <= ms,
                    ms * (size + 8) <= 380,
                    0 <= x < size,
            ;
            if matrix.is_dark(x, y) {
                let left: i32 = layout.origin_x + (x + QR_QUIET_ZONE_MODULES) * ms;
                let top: i32 = layout.origin_y + (y + QR_QUIET_ZONE_MODULES) * ms;
                rects.push(Rect { left, top, right: left + ms, bottom: top + ms });
            }
            proof {
                assert(rects@ =~= rows_before + dark_row_rects(
                    matrix.spec_modules(),
                    size as int,
                    layout,
                    y as int,
                    (x + 1) as nat,
                ));
            }
            x += 1;
        }
        proof {
            assert(rects@ =~= dark_rects(matrix.spec_modules(), size as int, layout, (y + 1) as nat));
        }
        y += 1;
    }
    Some(QrPaint { panel: layout.panel, dark_modules: rects })
}

/// Menu and button command: restore the server window.
pub const COMMAND_SHOW_SERVER: u16 = 1;
/// Menu and button command: show the server information box.
pub const COMMAND_SERVER_INFORMATION: u16 = 2;
/// Menu and button command: show the startup settings box.
pub const COMMAND_SETTINGS: u16 = 3;
/// Menu command: enable or disable audio transmission.
pub const COMMAND_TOGGLE_SERVICE: u16 = 4;
/// Menu and button command: shut the server down.
pub const COMMAND_EXIT: u16 = 5;

/// What the window does for a command.
#[derive(Clone, Copy, Debug, PartialEq, Eq, Structural)]
pub enum UiAction {
    ShowDashboard,
    ShowServerInformation,
    ShowSettings,
    ToggleService,
    Exit,
    Nothing,
}

/// The action of a menu or button command; unknown commands do nothing.
pub fn command_action(command: u16) -> (action: UiAction)
    ensures
        action == if command == COMMAND_SHOW_SERVER {
            UiAction::ShowDashboard
        } else if command == COMMAND_SERVER_INFORMATION {
            UiAction::ShowServerInformation
        } else if command == COMMAND_SETTINGS {
            UiAction::ShowSettings
        } else if command == COMMAND_TOGGLE_SERVICE {
            UiAction::ToggleService
        } else if command == COMMAND_EXIT {
            UiAction::Exit
        } else {
            UiAction::Nothing
        },
{
    if command == COMMAND_SHOW_SERVER {
        UiAction::ShowDashboard
    } else if command == COMMAND_SERVER_INFORMATION {
        UiAction::ShowServerInformation
    } else if command == COMMAND_SETTINGS {
        UiAction::ShowSettings
    } else if command == COMMAND_TOGGLE_SERVICE {
        UiAction::ToggleService
    } else if command == COMMAND_EXIT {
        UiAction::Exit
    } else {
        UiAction::Nothing
    }
}

/// One entry of the notification-area menu.
#[derive(Clone, Copy, Debug)]
pub enum MenuEntry {
    Item { command: u16, label: &'static str },
    Separator,
}

/// The label of the entry that switches audio transmission.
pub open spec fn toggle_label(transmission_enabled: bool) -> Seq<char> {
    if transmission_enabled { "Disable service"@ } else { "Enable service"@ }
}

/// The notification-area menu: show, toggle, a separator, information,
/// settings, a separator and exit.
pub fn context_menu_entries(transmission_enabled: bool) -> (entries: Vec<MenuEntry>)
    ensures
        entries@.len() == 7,
        entries@[0] matches MenuEntry::Item { command, label } && command == COMMAND_SHOW_SERVER && label@
            == "Show server"@,
        entries@[1] matches MenuEntry::Item { command, label } && command == COMMAND_TOGGLE_SERVICE && label@
            == toggle_label(transmission_enabled),
        entries@[2] is Separator,
        entries@[3] matches MenuEntry::Item { command, label } && command == COMMAND_SERVER_INFORMATION && label@
            == "Server information"@,
        entries@[4] matches MenuEntry::Item { command, label } && command == COMMAND_SETTINGS && label@
            == "Settings"@,
        entries@[5] is Separator,
        entries@[6] matches MenuEntry::Item { command, label } && command == COMMAND_EXIT && label@ == "Exit"@,
{
    let toggle: &'static str = if transmission_enabled { "Disable service" } else { "Enable service" };
    let mut entries: Vec<MenuEntry> = Vec::new();
    entries.push(MenuEntry::Item { command: COMMAND_SHOW_SERVER, label: "Show server" });
    entries.push(MenuEntry::Item { command: COMMAND_TOGGLE_SERVICE, label: toggle });
    entries.push(MenuEntry::Separator);
    entries.push(MenuEntry::Item { command: COMMAND_SERVER_INFORMATION, label: "Server information" });
    entries.push(MenuEntry::Item { command: COMMAND_SETTINGS, label: "Settings" });
    entries.push(MenuEntry::Separator);
    entries.push(MenuEntry::Item { command: COMMAND_EXIT, label: "Exit" });
    entries
}

/// What the window last heard from the stream workers.
#[derive(Clone, Debug)]
pub enum UiStatus {
    WaitingForClient,
    /// Streaming to this peer, written as its socket address.
    Streaming(String),
}

/// The status line for a status and the transmission switch.
pub open spec fn status_label_text(status: UiStatus, transmission_enabled: bool) -> Seq<char> {
    match status {
        UiStatus::WaitingForClient => if transmission_enabled {
            "Status: Waiting for Android client"@
        } else {
            "Status: Disabled; no audio will be sent"@
        },
        UiStatus::Streaming(peer) => if transmission_enabled {
            "Status: Streaming to "@ + peer@
        } else {
            "Status: Disabled; audio paused for "@ + peer@
        },
    }
}

impl UiStatus {
    /// The status line shown in the window and the information box.
    pub fn label(&self, transmission_enabled: bool) -> (text: String)
        ensures
            text@ == status_label_text(*self, transmission_enabled),
    {
        let mut text = String::new();
        match self {
            UiStatus::WaitingForClient => {
                if transmission_enabled {
                    push_str(&mut text, "Status: Waiting for Android client");
                } else {
                    push_str(&mut text, "Status: Disabled; no audio will be sent");
                }
            },
            UiStatus::Streaming(peer) => {
                if transmission_enabled {
                    push_str(&mut text, "Status: Streaming to ");
                } else {
                    push_str(&mut text, "Status: Disabled; audio paused for ");
                }
                push_str(&mut text, peer.as_str());
            },
        }
        assert(text@ =~= status_label_text(*self, transmission_enabled));
        text
    }
}

/// What the window's command queue delivered.
#[derive(Clone, Debug)]
pub enum UiReceive {
    SetStatus(UiStatus),
    Shutdown,
    /// Every sender is gone.
    Disconnected,
    /// Nothing is queued now.
    Empty,
}

/// Whether to keep draining the command queue.
#[derive(Clone, Copy, Debug, PartialEq, Eq, Structural)]
pub enum UiStep {
    /// The status changed; read the next command.
    StatusChanged,
    /// The window must close.
    Close,
    /// The queue is drained for now.
    Idle,
}

/// Applies one received command: a new status replaces the old one, and a
/// shutdown or a vanished sender closes the window.
pub fn ui_command_step(status: &mut UiStatus, received: UiReceive) -> (step: UiStep)
    ensures
        match received {
            UiReceive::SetStatus(s) => step == UiStep::StatusChanged && *final(status) == s,
            UiReceive::Shutdown => step == UiStep::Close && *final(status) == *old(status),
            UiReceive::Disconnected => step == UiStep::Close && *final(status) == *old(status),
            UiReceive::Empty => step == UiStep::Idle && *final(status) == *old(status),
        },
{
    match received {
        UiReceive::SetStatus(s) => {
            *status = s;
            UiStep::StatusChanged
        },
        UiReceive::Shutdown => UiStep::Close,
        UiReceive::Disconnected => UiStep::Close,
        UiReceive::Empty => UiStep::Idle,
    }
}

/// Fixed details of the running server, as the window shows them.
#[derive(Debug)]
pub struct ServerUiInfo {
    pub device_name: String,
    pub mix_sample_rate: u32,
    pub mix_channels: u16,
    pub mix_bits_per_sample: u16,
    pub mix_sample_type: String,
    /// The listening socket address, written out.
    pub bind: String,
    /// The certificate fingerprint, formatted.
    pub fingerprint: String,
    /// The identity directory, written out.
    pub identity_dir: String,
    /// The pairing endpoint, or why there is no pairing QR code.
    pub pairing: Result<PairingInfo, String>,
}

/// `host:port` of a pairing endpoint.
pub open spec fn endpoint_text(info: PairingInfo) -> Seq<char> {
    ipv4_text(info.host@) + ":"@ + decimal_digits(info.port as nat)
}

/// Appends `host:port` of a pairing endpoint.
pub fn push_endpoint(s: &mut String, info: &PairingInfo)
    ensures
        final(s)@ == old(s)@ + endpoint_text(*info),
{
    push_ipv4(s, &info.host);
    push_str(s, ":");
    push_decimal(s, info.port as u64);
    assert(final(s)@ =~= old(s)@ + endpoint_text(*info));
}

/// The pairing paragraph of the information box.
pub open spec fn information_pairing_text(pairing: Result<PairingInfo, String>) -> Seq<char> {
    match pairing {
        Ok(p) => "Pairing QR endpoint:\r\n"@ + endpoint_text(p),
        Err(e) => "Pairing QR unavailable:\r\n"@ + e@,
    }
}

/// The text of the server information box.
pub open spec fn server_information_text(info: ServerUiInfo, status: UiStatus, transmission_enabled: bool) -> Seq<char> {
    status_label_text(status, transmission_enabled) + "\r\n\r\nAudio device:\r\n"@ + info.device_name@
        + "\r\nMix format: "@ + decimal_digits(info.mix_sample_rate as nat) + " Hz / "@ + decimal_digits(
        info.mix_channels as nat,
    ) + " channels / "@ + decimal_digits(info.mix_bits_per_sample as nat) + " bit "@ + info.mix_sample_type@
        + "\r\nCapture format: 48000 Hz / Stereo / i16\r\n\r\nListening address:\r\n"@ + info.bind@
        + "\r\n\r\n"@ + information_pairing_text(info.pairing) + "\r\n\r\nTLS certificate fingerprint:\r\n"@
        + info.fingerprint@ + "\r\n\r\nIdentity directory:\r\n"@ + info.identity_dir@
        + "\r\n\r\nScan the pairing QR code in Audio Stream, then review the fields before connecting."@
}

/// Writes the server information box.
pub fn server_information(info: &ServerUiInfo, status: &UiStatus, transmission_enabled: bool) -> (text: String)
    ensures
        text@ == server_information_text(*info, *status, transmission_enabled),
{
    let mut text = status.label(transmission_enabled);
    push_str(&mut text, "\r\n\r\nAudio device:\r\n");
    push_str(&mut text, info.device_name.as_str());
    push_str(&mut text, "\r\nMix format: ");
    push_decimal(&mut text, info.mix_sample_rate as u64);
    push_str(&mut text, " Hz / ");
    push_decimal(&mut text, info.mix_channels as u64);
    push_str(&mut text, " channels / ");
    push_decimal(&mut text, info.mix_bits_per_sample as u64);
    push_str(&mut text, " bit ");
    push_str(&mut text, info.mix_sample_type.as_str());
    push_str(&mut text, "\r\nCapture format: 48000 Hz / Stereo / i16\r\n\r\nListening address:\r\n");
    push_str(&mut text, info.bind.as_str());
    push_str(&mut text, "\r\n\r\n");
    match &info.pairing {
        Ok(p) => {
            push_str(&mut text, "Pairing QR endpoint:\r\n");
            push_endpoint(&mut text, p);
        },
        Err(e) => {
            push_str(&mut text, "Pairing QR unavailable:\r\n");
            push_str(&mut text, e.as_str());
        },
    }
    push_str(&mut text, "\r\n\r\nTLS certificate fingerprint:\r\n");
    push_str(&mut text, info.fingerprint.as_str());
    push_str(&mut text, "\r\n\r\nIdentity directory:\r\n");
    push_str(&mut text, info.identity_dir.as_str());
    push_str(
        &mut text,
        "\r\n\r\nScan the pairing QR code in Audio Stream, then review the fields before connecting.",
    );
    assert(text@ =~= server_information_text(*info, *status, transmission_enabled));
    text
}

/// The pairing line of the settings box.
pub open spec fn settings_pairing_text(pairing: Result<PairingInfo, String>) -> Seq<char> {
    match pairing {
        Ok(p) => "Pairing QR endpoint: "@ + endpoint_text(p),
        Err(e) => "Pairing QR unavailable: "@ + e@,
    }
}

/// The text of the settings box.
pub open spec fn settings_text(info: ServerUiInfo) -> Seq<char> {
    "Current startup settings\r\n\r\nBind address: "@ + info.bind@ + "\r\nIdentity directory: "@
        + info.identity_dir@ + "\r\n"@ + settings_pairing_text(info.pairing)
        + "\r\n\r\nThese settings are applied when the server starts. To change them, exit Soundwave and start it again with:\r\n\r\naudio-stream-server --bind <ADDRESS> --identity-dir <DIRECTORY> --pairing-host <IPv4>\r\n\r\nUse --pairing-host when the QR code must advertise a specific LAN adapter. Soundwave V0.1 always captures the default Windows output device."@
}

/// Writes the settings box.
pub fn settings(info: &ServerUiInfo) -> (text: String)
    ensures
        text@ == settings_text(*info),
{
    let mut text = String::new();
    push_str(&mut text, "Current startup settings\r\n\r\nBind address: ");
    push_str(&mut text, info.bind.as_str());
    push_str(&mut text, "\r\nIdentity directory: ");
    push_str(&mut text, info.identity_dir.as_str());
    push_str(&mut text, "\r\n");
    match &info.pairing {
        Ok(p) => {
            push_str(&mut text, "Pairing QR endpoint: ");
            push_endpoint(&mut text, p);
        },
        Err(e) => {
            push_str(&mut text, "Pairing QR unavailable: ");
            push_str(&mut text, e.as_str());
        },
    }
    push_str(
        &mut text,
        "\r\n\r\nThese settings are applied when the server starts. To change them, exit Soundwave and start it again with:\r\n\r\naudio-stream-server --bind <ADDRESS> --identity-dir <DIRECTORY> --pairing-host <IPv4>\r\n\r\nUse --pairing-host when the QR code must advertise a specific LAN adapter. Soundwave V0.1 always captures the default Windows output device.",
    );
    assert(text@ =~= settings_text(*info));
    text
}

/// A control of the server window.
#[derive(Clone, Copy, Debug, PartialEq, Eq, Structural)]
pub enum ControlKind {
    Static,
    Button { command: u16 },
}

/// Position and size of a control, in pixels.
#[derive(Clone, Copy, Debug, PartialEq, Eq, Structural)]
pub struct ControlBounds {
    pub x: i32,
    pub y: i32,
    pub width: i32,
    pub height: i32,
}

/// A control to create, with its text.
#[derive(Clone, Debug)]
pub struct DashboardControl {
    pub kind: ControlKind,
    pub text: String,
    pub bounds: ControlBounds,
}

/// The position, among the dashboard controls, of the status line that later updates rewrite.
pub const DASHBOARD_STATUS_CONTROL: usize = 1;

/// The listening details shown under the status line.
pub open spec fn dashboard_details_text(info: ServerUiInfo) -> Seq<char> {
    "Listening: "@ + info.bind@ + "\r\nDefault output: "@ + info.device_name@
        + "\r\nThe QR code contains the LAN endpoint and pinned TLS fingerprint."@
}

/// The caption above the QR code.
pub open spec fn dashboard_pairing_text(pairing: Result<PairingInfo, String>) -> Seq<char> {
    match pairing {
        Ok(p) => "Scan in Audio Stream\r\nPairing endpoint: "@ + endpoint_text(p),
        Err(e) => "QR pairing unavailable\r\n"@ + e@,
    }
}

pub open spec fn bounds(x: i32, y: i32, width: i32, height: i32) -> ControlBounds {
    ControlBounds { x, y, width, height }
}

/// `c` is a control of this kind, text and place.
pub open spec fn control_is(c: DashboardControl, kind: ControlKind, text: Seq<char>, b: ControlBounds) -> bool {
    c.kind == kind && c.text@ == text && c.bounds == b
}

fn control(kind: ControlKind, text: String, x: i32, y: i32, width: i32, height: i32) -> (c: DashboardControl)
    ensures
        control_is(c, kind, text@, bounds(x, y, width, height)),
{
    DashboardControl { kind, text, bounds: ControlBounds { x, y, width, height } }
}

fn text_of(t: &str) -> (s: String)
    ensures
        s@ == t@,
{
    let mut s = String::new();
    push_str(&mut s, t);
    s
}

/// The controls of the server window, in creation order: the title, the
/// status line, the listening details, three buttons and the QR caption.
pub fn dashboard_controls(info: &ServerUiInfo, status: &UiStatus, transmission_enabled: bool) -> (controls: Vec<
    DashboardControl,
>)
    ensures
        controls@.len() == 7,
        control_is(controls@[0], ControlKind::Static, "Soundwave Server"@, bounds(20, 18, 360, 24)),
        control_is(
            controls@[1],
            ControlKind::Static,
            status_label_text(*status, transmission_enabled),
            bounds(20, 55, 360, 24),
        ),
        control_is(controls@[2], ControlKind::Static, dashboard_details_text(*info), bounds(20, 92, 360, 90)),
        control_is(
            controls@[3],
            ControlKind::Button { command: COMMAND_SERVER_INFORMATION },
            "Server information"@,
            bounds(20, 220, 155, 30),
        ),
        control_is(
            controls@[4],
            ControlKind::Button { command: COMMAND_SETTINGS },
            "Settings"@,
            bounds(190, 220, 110, 30),
        ),
        control_is(controls@[5], ControlKind::Button { command: COMMAND_EXIT }, "Exit"@, bounds(315, 220, 70, 30)),
        control_is(
            controls@[6],
            ControlKind::Static,
            dashboard_pairing_text(info.pairing),
            bounds(410, 18, 380, 65),
        ),
{
    let mut details = String::new();
    push_str(&mut details, "Listening: ");
    push_str(&mut details, info.bind.as_str());
    push_str(&mut details, "\r\nDefault output: ");
    push_str(&mut details, info.device_name.as_str());
    push_str(&mut details, "\r\nThe QR code contains the LAN endpoint and pinned TLS fingerprint.");
    assert(details@ =~= dashboard_details_text(*info));
    let mut pairing = String::new();
    match &info.pairing {
        Ok(p) => {
            push_str(&mut pairing, "Scan in Audio Stream\r\nPairing endpoint: ");
            push_endpoint(&mut pairing, p);
        },
        Err(e) => {
            push_str(&mut pairing, "QR pairing unavailable\r\n");
            push_str(&mut pairing, e.as_str());
        },
    }
    assert(pairing@ =~= dashboard_pairing_text(info.pairing));
    let mut controls: Vec<DashboardControl> = Vec::new();
    controls.push(control(ControlKind::Static, text_of("Soundwave Server"), 20, 18, 360, 24));
    controls.push(control(ControlKind::Static, status.label(transmission_enabled), 20, 55, 360, 24));
    controls.push(control(ControlKind::Static, details, 20, 92, 360, 90));
    controls.push(
        control(
            ControlKind::Button { command: COMMAND_SERVER_INFORMATION },
            text_of("Server information"),
            20,
            220,
            155,
            30,
        ),
    );
    controls.push(
        control(ControlKind::Button { command: COMMAND_SETTINGS }, text_of("Settings"), 190, 220, 110, 30),
    );
    controls.push(control(ControlKind::Button { command: COMMAND_EXIT }, text_of("Exit"), 315, 220, 70, 30));
    controls.push(control(ControlKind::Static, pairing, 410, 18, 380, 65));
    controls
}

/// The message shown when the server cannot start.
pub fn startup_error_text(error: &str) -> (text: String)
    ensures
        text@ == "Soundwave Server could not start.\r\n\r\n"@ + error@,
{
    let mut text = String::new();
    push_str(&mut text, "Soundwave Server could not start.\r\n\r\n");
    push_str(&mut text, error);
    text
}

/// The message shown when a debug capture has been written.
pub fn capture_complete_text(path: &str) -> (text: String)
    ensures
        text@ == "Wrote 48 kHz stereo i16 little-endian PCM to:\r\n"@ + path@,
{
    let mut text = String::new();
    push_str(&mut text, "Wrote 48 kHz stereo i16 little-endian PCM to:\r\n");
    push_str(&mut text, path);
    text
}

/// Prepares the pairing QR code: the matrix of the pairing URI; when the URI
/// cannot be encoded, the pairing becomes unavailable with the encoder's
/// message; without a pairing there is no code.
pub fn pairing_qr(info: &mut ServerUiInfo) -> (matrix: Option<QrMatrix>)
    ensures
        match old(info).pairing {
            Err(_) => matrix is None && *final(info) == *old(info),
            Ok(p) => exists|r: Result<QrMatrix, String>| {
                &&& qr_matrix_of(p.uri@, r)
                &&& match r {
                    Ok(m) => matrix == Some(m) && *final(info) == *old(info),
                    Err(e) => matrix is None && *final(info) == (ServerUiInfo {
                        pairing: Err(e),
                        ..*old(info)
                    }),
                }
            },
        },
{
    let encoded = match &info.pairing {
        Ok(p) => QrMatrix::encode(p.uri.as_str()),
        Err(_) => return None,
    };
    match encoded {
        Ok(m) => Some(m),
        Err(e) => {
            info.pairing = Err(e);
            None
        },
    }
}

} // verus!
