//! State of the interactive interface and its key handling.

use vstd::prelude::*;
use vstd::string::*;
use crate::audit::entry::{LogEntry, LogEntryView, entries_view};
use crate::device::info::{Device, DeviceView, devices_view};
use crate::text::{push_char, str_eq, trim, trim_chars};

verus! {

/// The screen on display.
#[derive(Clone, Copy, Debug, PartialEq, Eq, Structural)]
pub enum Screen {
    /// Device list.
    Home,
    /// Typing the serial number to confirm a wipe.
    Confirm,
    /// A wipe is running.
    Progress,
    /// Outcome of a wipe.
    Result,
    /// Audit log viewer.
    Logs,
}

/// A key press, as far as the interface tells keys apart.
#[derive(Clone, Copy, Debug, PartialEq, Eq, Structural)]
pub enum Key {
    Char(char),
    Up,
    Down,
    Enter,
    Esc,
    Backspace,
    Home,
    End,
    Other,
}

/// What the caller must do after a key.
#[derive(Clone, Copy, Debug, PartialEq, Eq, Structural)]
pub enum AppCommand {
    Nothing,
    /// Ask the running wipe to stop.
    CancelWipe,
    /// Load the audit log in the background.
    LoadLogs,
    /// The serial number was confirmed: start wiping the selected device.
    StartWipe,
    /// The result screen was left: forget the last wipe result.
    DismissResult,
}

/// The interface state.
pub struct App {
    pub screen: Screen,
    pub should_quit: bool,
    pub devices: Vec<Device>,
    /// Index of the selected device.
    pub selected_device: usize,
    /// Whether the device scan has finished.
    pub devices_loaded: bool,
    pub device_error: Option<String>,
    /// Serial number typed on the confirmation screen.
    pub confirm_input: String,
    pub confirm_error: Option<String>,
    /// Why a wipe could not be started or was lost.
    pub wipe_error: Option<String>,
    pub log_entries: Vec<LogEntry>,
    pub log_scroll: usize,
    pub logs_loaded: bool,
    pub log_dir: String,
}

pub struct AppView {
    pub screen: Screen,
    pub should_quit: bool,
    pub devices: Seq<DeviceView>,
    pub selected_device: usize,
    pub devices_loaded: bool,
    pub device_error: Option<Seq<char>>,
    pub confirm_input: Seq<char>,
    pub confirm_error: Option<Seq<char>>,
    pub wipe_error: Option<Seq<char>>,
    pub log_entries: Seq<LogEntryView>,
    pub log_scroll: usize,
    pub logs_loaded: bool,
    pub log_dir: Seq<char>,
}

impl View for App {
    type V = AppView;

    open spec fn view(&self) -> AppView {
        AppView {
            screen: self.screen,
            should_quit: self.should_quit,
            devices: devices_view(self.devices@),
            selected_device: self.selected_device,
            devices_loaded: self.devices_loaded,
            device_error: self.device_error.deep_view(),
            confirm_input: self.confirm_input@,
            confirm_error: self.confirm_error.deep_view(),
            wipe_error: self.wipe_error.deep_view(),
            log_entries: entries_view(self.log_entries@),
            log_scroll: self.log_scroll,
            logs_loaded: self.logs_loaded,
            log_dir: self.log_dir@,
        }
    }
}

/// `n - 1`, or 0 for 0.
pub open spec fn last_index(n: nat) -> usize {
    if n == 0 {
        0
    } else {
        (n - 1) as usize
    }
}

impl AppView {
    pub open spec fn initial(log_dir: Seq<char>) -> AppView {
        AppView {
            screen: Screen::Home,
            should_quit: false,
            devices: Seq::empty(),
            selected_device: 0,
            devices_loaded: false,
            device_error: None,
            confirm_input: Seq::empty(),
            confirm_error: None,
            wipe_error: None,
            log_entries: Seq::empty(),
            log_scroll: 0,
            logs_loaded: false,
            log_dir,
        }
    }

    /// Whether the typed serial number matches the selected device.
    pub open spec fn serial_confirmed(self) -> bool {
        self.selected_device < self.devices.len() && trim(self.confirm_input)
            == self.devices[self.selected_device as int].serial
    }

    pub open spec fn home_key(self, key: Key) -> (AppView, AppCommand) {
        match key {
            Key::Char('q') => (AppView { should_quit: true, ..self }, AppCommand::Nothing),
            Key::Up | Key::Char('k') => if self.selected_device > 0 {
                (AppView { selected_device: (self.selected_device - 1) as usize, ..self }, AppCommand::Nothing)
            } else {
                (self, AppCommand::Nothing)
            },
            Key::Down | Key::Char('j') => if self.selected_device < last_index(self.devices.len()) {
                (AppView { selected_device: (self.selected_device + 1) as usize, ..self }, AppCommand::Nothing)
            } else {
                (self, AppCommand::Nothing)
            },
            Key::Enter => if self.devices_loaded && self.devices.len() > 0 {
                (
                    AppView {
                        screen: Screen::Confirm,
                        confirm_input: Seq::empty(),
                        confirm_error: None,
                        ..self
                    },
                    AppCommand::Nothing,
                )
            } else {
                (self, AppCommand::Nothing)
            },
            Key::Char('l') => (
                AppView { screen: Screen::Logs, log_scroll: 0, ..self },
                if self.logs_loaded {
                    AppCommand::Nothing
                } else {
                    AppCommand::LoadLogs
                },
            ),
            Key::Char('r') => (
                AppView {
                    devices_loaded: false,
                    devices: Seq::empty(),
                    device_error: None,
                    selected_device: 0,
                    ..self
                },
                AppCommand::Nothing,
            ),
            _ => (self, AppCommand::Nothing),
        }
    }

    pub open spec fn confirm_key(self, key: Key) -> (AppView, AppCommand) {
        match key {
            Key::Esc => (
                AppView { screen: Screen::Home, confirm_input: Seq::empty(), confirm_error: None, ..self },
                AppCommand::Nothing,
            ),
            Key::Char(c) => (
                AppView { confirm_input: self.confirm_input.push(c), confirm_error: None, ..self },
                AppCommand::Nothing,
            ),
            Key::Backspace => (
                AppView {
                    confirm_input: if self.confirm_input.len() > 0 {
                        self.confirm_input.drop_last()
                    } else {
                        self.confirm_input
                    },
                    confirm_error: None,
                    ..self
                },
                AppCommand::Nothing,
            ),
            Key::Enter => if self.selected_device >= self.devices.len() {
                (self, AppCommand::Nothing)
            } else if self.serial_confirmed() {
                (self, AppCommand::StartWipe)
            } else {
                (
                    AppView { confirm_error: Some("序列号不匹配，请重新输入。"@), ..self },
                    AppCommand::Nothing,
                )
            },
            _ => (self, AppCommand::Nothing),
        }
    }

    pub open spec fn result_key(self, key: Key) -> (AppView, AppCommand) {
        match key {
            Key::Enter | Key::Esc | Key::Char('q') => (
                AppView { screen: Screen::Home, wipe_error: None, ..self },
                AppCommand::DismissResult,
            ),
            _ => (self, AppCommand::Nothing),
        }
    }

    pub open spec fn logs_key(self, key: Key) -> (AppView, AppCommand) {
        match key {
            Key::Esc | Key::Char('q') => (AppView { screen: Screen::Home, ..self }, AppCommand::Nothing),
            Key::Up | Key::Char('k') => (
                AppView {
                    log_scroll: if self.log_scroll > 0 {
                        (self.log_scroll - 1) as usize
                    } else {
                        0
                    },
                    ..self
                },
                AppCommand::Nothing,
            ),
            Key::Down | Key::Char('j') => if self.log_scroll < last_index(self.log_entries.len()) {
                (AppView { log_scroll: (self.log_scroll + 1) as usize, ..self }, AppCommand::Nothing)
            } else {
                (self, AppCommand::Nothing)
            },
            Key::Home => (AppView { log_scroll: 0, ..self }, AppCommand::Nothing),
            Key::End => (
                AppView { log_scroll: last_index(self.log_entries.len()), ..self },
                AppCommand::Nothing,
            ),
            _ => (self, AppCommand::Nothing),
        }
    }

    /// What a key does on the current screen.
    pub open spec fn key(self, key: Key) -> (AppView, AppCommand) {
        match self.screen {
            Screen::Progress => if key == Key::Esc || key == Key::Char('c') {
                (self, AppCommand::CancelWipe)
            } else {
                (self, AppCommand::Nothing)
            },
            Screen::Home => self.home_key(key),
            Screen::Confirm => self.confirm_key(key),
            Screen::Result => self.result_key(key),
            Screen::Logs => self.logs_key(key),
        }
    }

    /// The selection and the scroll position point into their lists, and
    /// nothing is listed before it was loaded.
    pub open spec fn wf(self) -> bool {
        &&& (self.devices.len() == 0 ==> self.selected_device == 0)
        &&& (self.devices.len() > 0 ==> self.selected_device < self.devices.len())
        &&& (!self.devices_loaded ==> self.devices.len() == 0)
        &&& self.log_scroll <= last_index(self.log_entries.len())
        &&& (!self.logs_loaded ==> self.log_entries.len() == 0)
    }
}

/// Removes the last character of a string: std's `String::pop`.
/// Claims that the last character is removed and returned, and that an
/// empty string stays empty.
#[verifier::external_body]
fn pop_char(s: &mut String) -> (c: Option<char>)
    ensures
        old(s)@.len() == 0 ==> c is None && final(s)@ == old(s)@,
        old(s)@.len() > 0 ==> c == Some(old(s)@.last()) && final(s)@ == old(s)@.drop_last(),
{
    s.pop()
}

impl App {
    pub fn new(log_dir: &str) -> (a: App)
        ensures
            a@ == AppView::initial(log_dir@),
    {
        let a = App {
            screen: Screen::Home,
            should_quit: false,
            devices: Vec::new(),
            selected_device: 0,
            devices_loaded: false,
            device_error: None,
            confirm_input: String::new(),
            confirm_error: None,
            wipe_error: None,
            log_entries: Vec::new(),
            log_scroll: 0,
            logs_loaded: false,
            log_dir: String::from_str(log_dir),
        };
        assert(devices_view(a.devices@) =~= Seq::empty());
        assert(entries_view(a.log_entries@) =~= Seq::empty());
        a
    }

    /// The device scan finished with this list.
    pub fn set_devices(&mut self, devices: Vec<Device>)
        ensures
            final(self)@ == (AppView {
                devices: devices_view(devices@),
                devices_loaded: true,
                device_error: None,
                ..old(self)@
            }),
    {
        self.devices = devices;
        self.devices_loaded = true;
        self.device_error = None;
    }

    /// The device scan failed.
    pub fn set_device_error(&mut self, err: String)
        ensures
            final(self)@ == (AppView { device_error: Some(err@), devices_loaded: true, ..old(self)@ }),
    {
        self.device_error = Some(err);
        self.devices_loaded = true;
    }

    /// The selected device, if the selection points into the list.
    pub fn selected_device(&self) -> (d: Option<&Device>)
        ensures
            self.selected_device < self.devices@.len() ==> d == Some(&self.devices@[self.selected_device as int]),
            self.selected_device >= self.devices@.len() ==> d is None,
    {
        if self.selected_device < self.devices.len() {
            Some(&self.devices[self.selected_device])
        } else {
            None
        }
    }

    /// The background load of the audit log answered: with the entries, or
    /// `None` when the loader went away without answering.
    pub fn receive_logs(&mut self, entries: Option<Vec<LogEntry>>)
        ensures
            final(self)@ == (match entries {
                Some(v) => AppView { log_entries: entries_view(v@), logs_loaded: true, ..old(self)@ },
                None => AppView { logs_loaded: true, ..old(self)@ },
            }),
    {
        match entries {
            Some(v) => {
                self.log_entries = v;
                self.logs_loaded = true;
            },
            None => {
                self.logs_loaded = true;
            },
        }
    }

    /// A wipe was started: show its progress.
    pub fn wipe_started(&mut self)
        ensures
            final(self)@ == (AppView { screen: Screen::Progress, ..old(self)@ }),
    {
        self.screen = Screen::Progress;
    }

    /// The wipe could not be started, or was lost: show why.
    pub fn wipe_failed(&mut self, message: String)
        ensures
            final(self)@ == (AppView { screen: Screen::Result, wipe_error: Some(message@), ..old(self)@ }),
    {
        self.wipe_error = Some(message);
        self.screen = Screen::Result;
    }

    /// The wipe ended with a result: show it.
    pub fn wipe_finished(&mut self)
        ensures
            final(self)@ == (AppView { screen: Screen::Result, ..old(self)@ }),
    {
        self.screen = Screen::Result;
    }

    /// Whether the typed serial number matches the selected device.
    fn serial_confirmed(&self) -> (ok: bool)
        requires
            self.selected_device < self.devices@.len(),
        ensures
            ok == self@.serial_confirmed(),
    {
        let typed = trim_chars(self.confirm_input.as_str());
        str_eq(typed.as_str(), self.devices[self.selected_device].serial.as_str())
    }

    /// Handles a key press on the current screen.
    pub fn handle_key(&mut self, key: Key) -> (cmd: AppCommand)
        ensures
            (final(self)@, cmd) == old(self)@.key(key),
    {
        match self.screen {
            Screen::Progress => {
                if key == Key::Esc || key == Key::Char('c') {
                    AppCommand::CancelWipe
                } else {
                    AppCommand::Nothing
                }
            },
            Screen::Home => self.handle_home_key(key),
            Screen::Confirm => self.handle_confirm_key(key),
            Screen::Result => self.handle_result_key(key),
            Screen::Logs => self.handle_logs_key(key),
        }
    }

    fn handle_home_key(&mut self, key: Key) -> (cmd: AppCommand)
        ensures
            (final(self)@, cmd) == old(self)@.home_key(key),
    {
        match key {
            Key::Char('q') => {
                self.should_quit = true;
                AppCommand::Nothing
            },
            Key::Up | Key::Char('k') => {
                if self.selected_device > 0 {
                    self.selected_device = self.selected_device - 1;
                }
                AppCommand::Nothing
            },
            Key::Down | Key::Char('j') => {
                let last = if self.devices.len() > 0 {
                    self.devices.len() - 1
                } else {
                    0
                };
                if self.selected_device < last {
                    self.selected_device = self.selected_device + 1;
                }
                AppCommand::Nothing
            },
            Key::Enter => {
                if self.devices_loaded && self.devices.len() > 0 {
                    self.screen = Screen::Confirm;
                    self.confirm_input = String::new();
                    self.confirm_error = None;
                }
                AppCommand::Nothing
            },
            Key::Char('l') => {
                self.screen = Screen::Logs;
                self.log_scroll = 0;
                if self.logs_loaded {
                    AppCommand::Nothing
                } else {
                    AppCommand::LoadLogs
                }
            },
            Key::Char('r') => {
                self.devices_loaded = false;
                self.devices = Vec::new();
                self.device_error = None;
                self.selected_device = 0;
                assert(devices_view(self.devices@) =~= Seq::empty());
                AppCommand::Nothing
            },
            _ => AppCommand::Nothing,
        }
    }

    fn handle_confirm_key(&mut self, key: Key) -> (cmd: AppCommand)
        ensures
            (final(self)@, cmd) == old(self)@.confirm_key(key),
    {
        match key {
            Key::Esc => {
                self.screen = Screen::Home;
                self.confirm_input = String::new();
                self.confirm_error = None;
                AppCommand::Nothing
            },
            Key::Char(c) => {
                push_char(&mut self.confirm_input, c);
                self.confirm_error = None;
                AppCommand::Nothing
            },
            Key::Backspace => {
                let _ = pop_char(&mut self.confirm_input);
                self.confirm_error = None;
                AppCommand::Nothing
            },
            Key::Enter => {
                if self.selected_device >= self.devices.len() {
                    AppCommand::Nothing
                } else if self.serial_confirmed() {
                    AppCommand::StartWipe
                } else {
                    self.confirm_error = Some(String::from_str("序列号不匹配，请重新输入。"));
                    AppCommand::Nothing
                }
            },
            _ => AppCommand::Nothing,
        }
    }

    fn handle_result_key(&mut self, key: Key) -> (cmd: AppCommand)
        ensures
            (final(self)@, cmd) == old(self)@.result_key(key),
    {
        match key {
            Key::Enter | Key::Esc | Key::Char('q') => {
                self.screen = Screen::Home;
                self.wipe_error = None;
                AppCommand::DismissResult
            },
            _ => AppCommand::Nothing,
        }
    }

    fn handle_logs_key(&mut self, key: Key) -> (cmd: AppCommand)
        ensures
            (final(self)@, cmd) == old(self)@.logs_key(key),
    {
        let last = if self.log_entries.len() > 0 {
            self.log_entries.len() - 1
        } else {
            0
        };
        match key {
            Key::Esc | Key::Char('q') => {
                self.screen = Screen::Home;
            },
            Key::Up | Key::Char('k') => {
                if self.log_scroll > 0 {
                    self.log_scroll = self.log_scroll - 1;
                }
            },
            Key::Down | Key::Char('j') => {
                if self.log_scroll < last {
                    self.log_scroll = self.log_scroll + 1;
                }
            },
            Key::Home => {
                self.log_scroll = 0;
            },
            Key::End => {
                self.log_scroll = last;
            },
            _ => {},
        }
        AppCommand::Nothing
    }
}

/// A wipe is only ever started from the confirmation screen, after the
/// operator typed the serial number of the selected device (surrounding
/// white space aside).
pub proof fn lemma_wipe_needs_typed_serial(s: AppView, key: Key)
    ensures
        s.key(key).1 == AppCommand::StartWipe ==> s.screen == Screen::Confirm && key == Key::Enter
            && s.serial_confirmed(),
{
}

/// A running wipe can only be cancelled, and only from the progress screen;
/// no key there changes the state.
pub proof fn lemma_progress_screen_only_cancels(s: AppView, key: Key)
    requires
        s.screen == Screen::Progress,
    ensures
        s.key(key).0 == s,
        s.key(key).1 == AppCommand::Nothing || s.key(key).1 == AppCommand::CancelWipe,
{
}

/// Keys keep the selection and the scroll position inside their lists.
pub proof fn lemma_keys_keep_positions_valid(s: AppView, key: Key)
    requires
        s.wf(),
    ensures
        s.key(key).0.wf(),
{
}

/// The interface starts well formed.
pub proof fn lemma_initial_app_is_well_formed(log_dir: Seq<char>)
    ensures
        AppView::initial(log_dir).wf(),
{
}

/// A device scan that finishes while none was loaded keeps the selection valid.
pub proof fn lemma_scan_result_keeps_positions_valid(s: AppView, devices: Seq<DeviceView>)
    requires
        s.wf(),
        !s.devices_loaded,
    ensures
        (AppView { devices, devices_loaded: true, device_error: None, ..s }).wf(),
{
}

/// Audit entries that arrive while none were loaded keep the scroll position valid.
pub proof fn lemma_log_load_keeps_positions_valid(s: AppView, entries: Seq<LogEntryView>)
    requires
        s.wf(),
        !s.logs_loaded,
    ensures
        (AppView { log_entries: entries, logs_loaded: true, ..s }).wf(),
{
}

/// On the confirmation screen, Backspace takes back the character typed
/// just before: the typed text is as it was and no error is shown.
pub proof fn lemma_backspace_undoes_typing(s: AppView, c: char)
    requires
        s.screen == Screen::Confirm,
    ensures
        s.key(Key::Char(c)).0.key(Key::Backspace).0 == (AppView { confirm_error: None, ..s }),
        s.key(Key::Char(c)).1 == AppCommand::Nothing,
        s.key(Key::Char(c)).0.key(Key::Backspace).1 == AppCommand::Nothing,
{
    assert(s.confirm_input.push(c).drop_last() =~= s.confirm_input);
}

/// What each key does on the device list: Up and 'k' move the selection
/// up unless it is first, Down and 'j' move it down unless it is last,
/// Enter opens the confirmation (with nothing typed) only once devices are
/// listed, 'q' quits, 'r' forgets the list for a new scan, and 'l' opens
/// the log viewer (asking to load it the first time).
pub proof fn lemma_home_keys(s: AppView)
    requires
        s.screen == Screen::Home,
    ensures
        s.key(Key::Up).0.selected_device == (if s.selected_device > 0 {
            s.selected_device - 1
        } else {
            s.selected_device as int
        }),
        s.key(Key::Char('k')) == s.key(Key::Up),
        s.key(Key::Down).0.selected_device == (if s.selected_device < last_index(s.devices.len()) {
            s.selected_device + 1
        } else {
            s.selected_device as int
        }),
        s.key(Key::Char('j')) == s.key(Key::Down),
        s.devices_loaded && s.devices.len() > 0 ==> s.key(Key::Enter).0 == (AppView {
            screen: Screen::Confirm,
            confirm_input: Seq::empty(),
            confirm_error: None,
            ..s
        }),
        !(s.devices_loaded && s.devices.len() > 0) ==> s.key(Key::Enter).0 == s,
        s.key(Key::Char('q')).0 == (AppView { should_quit: true, ..s }),
        s.key(Key::Char('r')).0 == (AppView {
            devices_loaded: false,
            devices: Seq::empty(),
            device_error: None,
            selected_device: 0,
            ..s
        }),
        s.key(Key::Char('l')).0.screen == Screen::Logs,
        s.key(Key::Char('l')).1 == (if s.logs_loaded {
            AppCommand::Nothing
        } else {
            AppCommand::LoadLogs
        }),
{
}

/// On the device list, the selection stays within the list after every
/// key: a selection no further than the last device (or 0 for an empty
/// list) is still so after the key, whatever the key does to the list.
pub proof fn lemma_home_selection_stays_in_list(s: AppView, key: Key)
    requires
        s.screen == Screen::Home,
        s.selected_device <= last_index(s.devices.len()),
    ensures
        s.key(key).0.selected_device <= last_index(s.key(key).0.devices.len()),
{
}

/// What each key does in the log viewer: 'k' is Up and 'j' is Down; Up
/// scrolls one entry back unless at the first, Down one entry on unless at
/// the last, Home goes to the first entry and End to the last, Esc and 'q'
/// go back to the device list. No key there asks for anything, and none
/// but these changes the state.
pub proof fn lemma_log_viewer_keys(s: AppView, key: Key)
    requires
        s.screen == Screen::Logs,
        s.log_entries.len() <= usize::MAX,
    ensures
        s.key(Key::Char('k')) == s.key(Key::Up),
        s.key(Key::Char('j')) == s.key(Key::Down),
        s.key(key).1 == AppCommand::Nothing,
        s.key(Key::Up).0 == (AppView {
            log_scroll: if s.log_scroll > 0 { (s.log_scroll - 1) as usize } else { 0 },
            ..s
        }),
        s.log_scroll + 1 <= s.log_entries.len() - 1 ==> s.key(Key::Down).0 == (AppView {
            log_scroll: (s.log_scroll + 1) as usize,
            ..s
        }),
        s.log_scroll + 1 > s.log_entries.len() - 1 ==> s.key(Key::Down).0 == s,
        s.key(Key::Home).0 == (AppView { log_scroll: 0, ..s }),
        s.log_entries.len() > 0 ==> s.key(Key::End).0 == (AppView {
            log_scroll: (s.log_entries.len() - 1) as usize,
            ..s
        }),
        s.log_entries.len() == 0 ==> s.key(Key::End).0 == (AppView { log_scroll: 0, ..s }),
        s.key(Key::Esc).0 == (AppView { screen: Screen::Home, ..s }),
        s.key(Key::Char('q')).0 == (AppView { screen: Screen::Home, ..s }),
        key != Key::Up && key != Key::Down && key != Key::Char('k') && key != Key::Char('j')
            && key != Key::Home && key != Key::End && key != Key::Esc && key != Key::Char('q')
            ==> s.key(key).0 == s,
{
}

/// What each key does on the confirmation screen: a typed character is
/// appended to the typed text and clears the error; Esc goes back to the
/// device list with nothing typed; Enter starts the wipe, changing nothing
/// else, exactly when the typed text (white space aside) is the serial
/// number of the selected device, and otherwise shows the mismatch.
pub proof fn lemma_confirm_keys(s: AppView, c: char)
    requires
        s.screen == Screen::Confirm,
    ensures
        s.key(Key::Char(c)) == ((AppView { confirm_input: s.confirm_input.push(c), confirm_error: None, ..s }),
            AppCommand::Nothing),
        s.key(Key::Esc) == ((AppView {
            screen: Screen::Home,
            confirm_input: Seq::empty(),
            confirm_error: None,
            ..s
        }), AppCommand::Nothing),
        s.selected_device < s.devices.len() && trim(s.confirm_input) == s.devices[s.selected_device as int].serial
            ==> s.key(Key::Enter) == (s, AppCommand::StartWipe),
        s.selected_device < s.devices.len() && trim(s.confirm_input) != s.devices[s.selected_device as int].serial
            ==> s.key(Key::Enter) == ((AppView { confirm_error: Some("序列号不匹配，请重新输入。"@), ..s }),
            AppCommand::Nothing),
{
}

/// On the result screen, Enter, Esc and 'q' dismiss the result and go back
/// to the device list; other keys do nothing.
pub proof fn lemma_result_keys(s: AppView, key: Key)
    requires
        s.screen == Screen::Result,
    ensures
        key == Key::Enter || key == Key::Esc || key == Key::Char('q') ==> s.key(key) == ((AppView {
            screen: Screen::Home,
            wipe_error: None,
            ..s
        }), AppCommand::DismissResult),
        !(key == Key::Enter || key == Key::Esc || key == Key::Char('q')) ==> s.key(key) == (s,
            AppCommand::Nothing),
{
}

} // verus!
