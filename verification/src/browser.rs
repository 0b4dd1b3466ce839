//! Browser runtime vocabulary: execution certainty, typed errors, summaries,
//! snapshot and control admission, key mapping, and text clipping.

use vstd::prelude::*;
use vstd::utf8::{decode_utf8, encode_utf8, is_char_boundary};

use crate::text::byte_len;

verus! {

pub const MAX_BROWSERS: usize = 4;
pub const MAX_PAGES_PER_BROWSER: usize = 16;
pub const MAX_PAGE_SUMMARIES: usize = 32;
pub const MAX_SNAPSHOT_NODES: usize = 256;
pub const MAX_SNAPSHOT_BYTES: usize = 64 * 1024;
pub const MAX_NODE_TEXT_BYTES: usize = 512;
pub const MAX_IMAGE_BYTES: usize = 1024 * 1024;
pub const MAX_IMAGE_DIMENSION: u32 = 4096;
pub const MAX_INPUT_TEXT_BYTES: usize = 4096;
pub const MAX_URL_BYTES: usize = 8192;
pub const MAX_CONSOLE_ENTRIES: usize = 200;
pub const MAX_NETWORK_ENTRIES: usize = 300;
pub const MAX_DIAGNOSTIC_TEXT_BYTES: usize = 2048;

/// Whether a Browser effect crossed its effect boundary.
#[derive(Debug, Clone, Copy, PartialEq, Eq, Structural)]
pub enum ExecutionState {
    /// The effect provably did not cross its boundary.
    NotStarted,
    /// The exact requested effect has a known terminal result.
    Completed,
    /// The effect may have been dispatched; no trustworthy terminal result exists.
    OutcomeUnknown,
}

/// The wire name of an execution state.
pub open spec fn execution_state_name(state: ExecutionState) -> Seq<char> {
    match state {
        ExecutionState::NotStarted => "not_started"@,
        ExecutionState::Completed => "completed"@,
        ExecutionState::OutcomeUnknown => "outcome_unknown"@,
    }
}

impl ExecutionState {
    pub fn as_str(self) -> (s: &'static str)
        ensures
            s@ == execution_state_name(self),
    {
        match self {
            ExecutionState::NotStarted => "not_started",
            ExecutionState::Completed => "completed",
            ExecutionState::OutcomeUnknown => "outcome_unknown",
        }
    }
}

/// A Browser failure: a stable kind, a message, the certainty of the effect,
/// and, where the outcome is uncertain, the observation that reconciles it.
#[derive(Debug, Clone)]
pub struct BrowserError {
    pub kind: &'static str,
    pub message: String,
    pub execution_state: ExecutionState,
    pub recovery_action: Option<&'static str>,
}

pub type BrowserResult<T> = Result<T, BrowserError>;

impl BrowserError {
    /// A failure before the effect boundary: retry-safe, no recovery observation.
    pub fn not_started(kind: &'static str, message: &str) -> (e: Self)
        ensures
            e.kind == kind,
            e.message@ == message@,
            e.execution_state == ExecutionState::NotStarted,
            e.recovery_action is None,
    {
        BrowserError {
            kind,
            message: message.to_owned(),
            execution_state: ExecutionState::NotStarted,
            recovery_action: None,
        }
    }

    /// A failure after the effect may have been dispatched: the caller must
    /// observe with `recovery_action` before choosing another effect.
    pub fn uncertain(kind: &'static str, message: &str, recovery_action: &'static str) -> (e: Self)
        ensures
            e.kind == kind,
            e.message@ == message@,
            e.execution_state == ExecutionState::OutcomeUnknown,
            e.recovery_action == Some(recovery_action),
    {
        BrowserError {
            kind,
            message: message.to_owned(),
            execution_state: ExecutionState::OutcomeUnknown,
            recovery_action: Some(recovery_action),
        }
    }

    /// A failure with a known terminal result.
    pub fn observed(kind: &'static str, message: &str, recovery_action: Option<&'static str>) -> (e: Self)
        ensures
            e.kind == kind,
            e.message@ == message@,
            e.execution_state == ExecutionState::Completed,
            e.recovery_action == recovery_action,
    {
        BrowserError {
            kind,
            message: message.to_owned(),
            execution_state: ExecutionState::Completed,
            recovery_action,
        }
    }
}

#[derive(Debug, Clone)]
pub struct BrowserSummary {
    pub browser_id: String,
    pub page_count: usize,
}

#[derive(Debug, Clone)]
pub struct PageSummary {
    pub browser_id: String,
    pub page_id: String,
    pub title: String,
    pub url: String,
}


/// Admitted Browser effects for one resolved control.
///
/// `actions` on a snapshot node is this set in canonical order. AX role alone
/// does not populate it.
#[derive(Debug, Clone, Copy, PartialEq, Eq, Structural)]
pub struct ControlCapability {
    pub pointer_click: bool,
    pub text_input: bool,
    pub select_option: bool,
    pub exact_value: bool,
    pub file_upload: bool,
}

/// An element effect that a snapshot node may admit.
#[derive(Debug, Clone, Copy, PartialEq, Eq, Structural)]
pub enum AdmittedBrowserAction {
    Click,
    InputText,
    SelectOption,
    SetValue,
    UploadFile,
}

/// The canonical `browser_act` name of an element effect.
pub open spec fn action_name(action: AdmittedBrowserAction) -> Seq<char> {
    match action {
        AdmittedBrowserAction::Click => "click"@,
        AdmittedBrowserAction::InputText => "input_text"@,
        AdmittedBrowserAction::SelectOption => "select_option"@,
        AdmittedBrowserAction::SetValue => "set_value"@,
        AdmittedBrowserAction::UploadFile => "upload_file"@,
    }
}

/// The capability admits `action`.
pub open spec fn capability_admits(c: ControlCapability, action: AdmittedBrowserAction) -> bool {
    match action {
        AdmittedBrowserAction::Click => c.pointer_click,
        AdmittedBrowserAction::InputText => c.text_input,
        AdmittedBrowserAction::SelectOption => c.select_option,
        AdmittedBrowserAction::SetValue => c.exact_value,
        AdmittedBrowserAction::UploadFile => c.file_upload,
    }
}

/// The capability admits at least one effect.
pub open spec fn capability_admits_any(c: ControlCapability) -> bool {
    c.pointer_click || c.text_input || c.select_option || c.exact_value || c.file_upload
}

pub open spec fn name_if(flag: bool, name: Seq<char>) -> Seq<Seq<char>> {
    if flag {
        seq![name]
    } else {
        Seq::empty()
    }
}

/// The admitted effects' names in canonical order: click, input_text,
/// select_option, set_value, upload_file.
pub open spec fn capability_action_names(c: ControlCapability) -> Seq<Seq<char>> {
    name_if(c.pointer_click, "click"@) + name_if(c.text_input, "input_text"@) + name_if(
        c.select_option,
        "select_option"@,
    ) + name_if(c.exact_value, "set_value"@) + name_if(c.file_upload, "upload_file"@)
}

pub open spec fn capability(
    pointer_click: bool,
    text_input: bool,
    select_option: bool,
    exact_value: bool,
    file_upload: bool,
) -> ControlCapability {
    ControlCapability { pointer_click, text_input, select_option, exact_value, file_upload }
}

impl ControlCapability {
    /// A pointer target (button, link, checkbox, radio): admits `click` only.
    pub fn click() -> (c: Self)
        ensures
            c == capability(true, false, false, false, false),
    {
        ControlCapability {
            pointer_click: true,
            text_input: false,
            select_option: false,
            exact_value: false,
            file_upload: false,
        }
    }

    /// A text-like input or `textarea`: admits `click` and `input_text`.
    pub fn text_input() -> (c: Self)
        ensures
            c == capability(true, true, false, false, false),
    {
        ControlCapability {
            pointer_click: true,
            text_input: true,
            select_option: false,
            exact_value: false,
            file_upload: false,
        }
    }

    /// A native `select`: admits `select_option` only.
    pub fn select_option() -> (c: Self)
        ensures
            c == capability(false, false, true, false, false),
    {
        ControlCapability {
            pointer_click: false,
            text_input: false,
            select_option: true,
            exact_value: false,
            file_upload: false,
        }
    }

    /// A `number`, `range`, date/time-like or `color` input: admits `set_value` only.
    pub fn exact_value() -> (c: Self)
        ensures
            c == capability(false, false, false, true, false),
    {
        ControlCapability {
            pointer_click: false,
            text_input: false,
            select_option: false,
            exact_value: true,
            file_upload: false,
        }
    }

    /// A `file` input: admits `upload_file` only.
    pub fn file_upload() -> (c: Self)
        ensures
            c == capability(false, false, false, false, true),
    {
        ControlCapability {
            pointer_click: false,
            text_input: false,
            select_option: false,
            exact_value: false,
            file_upload: true,
        }
    }

    pub fn admits_any(self) -> (r: bool)
        ensures
            r == capability_admits_any(self),
    {
        self.pointer_click || self.text_input || self.select_option || self.exact_value
            || self.file_upload
    }

    pub fn admits(self, action: AdmittedBrowserAction) -> (r: bool)
        ensures
            r == capability_admits(self, action),
    {
        match action {
            AdmittedBrowserAction::Click => self.pointer_click,
            AdmittedBrowserAction::InputText => self.text_input,
            AdmittedBrowserAction::SelectOption => self.select_option,
            AdmittedBrowserAction::SetValue => self.exact_value,
            AdmittedBrowserAction::UploadFile => self.file_upload,
        }
    }

    /// The names of the admitted effects, in canonical order.
    pub fn action_names(self) -> (names: Vec<String>)
        ensures
            names@.map_values(|s: String| s@) == capability_action_names(self),
    {
        let mut names: Vec<String> = Vec::new();
        let ghost mut expected: Seq<Seq<char>> = Seq::empty();
        if self.pointer_click {
            names.push("click".to_owned());
        }
        proof {
            expected = expected + name_if(self.pointer_click, "click"@);
            assert(names@.map_values(|s: String| s@) =~= expected);
        }
        if self.text_input {
            names.push("input_text".to_owned());
        }
        proof {
            expected = expected + name_if(self.text_input, "input_text"@);
            assert(names@.map_values(|s: String| s@) =~= expected);
        }
        if self.select_option {
            names.push("select_option".to_owned());
        }
        proof {
            expected = expected + name_if(self.select_option, "select_option"@);
            assert(names@.map_values(|s: String| s@) =~= expected);
        }
        if self.exact_value {
            names.push("set_value".to_owned());
        }
        proof {
            expected = expected + name_if(self.exact_value, "set_value"@);
            assert(names@.map_values(|s: String| s@) =~= expected);
        }
        if self.file_upload {
            names.push("upload_file".to_owned());
        }
        proof {
            expected = expected + name_if(self.file_upload, "upload_file"@);
            assert(names@.map_values(|s: String| s@) =~= expected);
            assert(expected =~= capability_action_names(self));
        }
        names
    }
}


impl Default for ControlCapability {
    /// A control that admits no effect.
    fn default() -> (c: Self)
        ensures
            c == capability(false, false, false, false, false),
    {
        ControlCapability {
            pointer_click: false,
            text_input: false,
            select_option: false,
            exact_value: false,
            file_upload: false,
        }
    }
}

/// The five effect names are pairwise distinct.
proof fn lemma_action_names_distinct()
    ensures
        forall|a: AdmittedBrowserAction, b: AdmittedBrowserAction|
            #[trigger] action_name(a) == #[trigger] action_name(b) ==> a == b,
{
    reveal_strlit("click");
    reveal_strlit("input_text");
    reveal_strlit("select_option");
    reveal_strlit("set_value");
    reveal_strlit("upload_file");
    assert("click"@.len() == 5);
    assert("input_text"@.len() == 10);
    assert("select_option"@.len() == 13);
    assert("set_value"@.len() == 9);
    assert("upload_file"@.len() == 11);
}

/// `actions` lists an effect exactly when the control admits it, so a node's
/// listed actions are its whole authority.
pub proof fn lemma_action_names_match_admission(c: ControlCapability, action: AdmittedBrowserAction)
    ensures
        capability_action_names(c).contains(action_name(action)) <==> capability_admits(c, action),
{
    lemma_action_names_distinct();
    let names = capability_action_names(c);
    if capability_admits(c, action) {
        let i: int = match action {
            AdmittedBrowserAction::Click => 0,
            AdmittedBrowserAction::InputText => (if c.pointer_click { 1int } else { 0int }),
            AdmittedBrowserAction::SelectOption => (if c.pointer_click { 1int } else { 0int })
                + (if c.text_input { 1int } else { 0int }),
            AdmittedBrowserAction::SetValue => (if c.pointer_click { 1int } else { 0int })
                + (if c.text_input { 1int } else { 0int }) + (if c.select_option { 1int } else { 0int }),
            AdmittedBrowserAction::UploadFile => (if c.pointer_click { 1int } else { 0int })
                + (if c.text_input { 1int } else { 0int }) + (if c.select_option { 1int } else { 0int })
                + (if c.exact_value { 1int } else { 0int }),
        };
        assert(names[i] == action_name(action));
    } else {
        assert forall|i: int| 0 <= i < names.len() implies names[i] != action_name(action) by {
            let l1: int = if c.pointer_click { 1 } else { 0 };
            let l2: int = if c.text_input { 1 } else { 0 };
            let l3: int = if c.select_option { 1 } else { 0 };
            let l4: int = if c.exact_value { 1 } else { 0 };
            let p12 = name_if(c.pointer_click, "click"@) + name_if(c.text_input, "input_text"@);
            let p123 = p12 + name_if(c.select_option, "select_option"@);
            let p1234 = p123 + name_if(c.exact_value, "set_value"@);
            assert(names == p1234 + name_if(c.file_upload, "upload_file"@));
            let a = if i < l1 {
                AdmittedBrowserAction::Click
            } else if i < l1 + l2 {
                AdmittedBrowserAction::InputText
            } else if i < l1 + l2 + l3 {
                AdmittedBrowserAction::SelectOption
            } else if i < l1 + l2 + l3 + l4 {
                AdmittedBrowserAction::SetValue
            } else {
                AdmittedBrowserAction::UploadFile
            };
            assert(names[i] == action_name(a) && capability_admits(c, a));
        }
    }
}

/// A control lists no action exactly when it admits no effect.
pub proof fn lemma_action_names_empty_iff_inert(c: ControlCapability)
    ensures
        capability_action_names(c).len() == 0 <==> !capability_admits_any(c),
{
}

/// `admits_any` holds exactly when some effect is admitted.
pub proof fn lemma_admits_any_iff_some_action(c: ControlCapability)
    ensures
        capability_admits_any(c) <==> exists|a: AdmittedBrowserAction| #[trigger] capability_admits(c, a),
{
    if capability_admits_any(c) {
        if c.pointer_click {
            assert(capability_admits(c, AdmittedBrowserAction::Click));
        } else if c.text_input {
            assert(capability_admits(c, AdmittedBrowserAction::InputText));
        } else if c.select_option {
            assert(capability_admits(c, AdmittedBrowserAction::SelectOption));
        } else if c.exact_value {
            assert(capability_admits(c, AdmittedBrowserAction::SetValue));
        } else {
            assert(capability_admits(c, AdmittedBrowserAction::UploadFile));
        }
    }
}


/// One normalized semantic node of a bounded snapshot.
#[derive(Debug, Clone)]
pub struct SemanticNode {
    pub role: String,
    pub name: Option<String>,
    pub description: Option<String>,
    pub value: Option<String>,
    pub group_id: Option<String>,
    pub group_role: Option<String>,
    pub group_label: Option<String>,
    pub checked: Option<String>,
    pub selected: Option<bool>,
    pub required: Option<bool>,
    pub disabled: Option<bool>,
    pub read_only: Option<bool>,
    pub element_id: Option<String>,
    /// Canonical `browser_act` effects this node admits. Empty for semantic-only nodes.
    pub actions: Vec<String>,
    pub actionable: bool,
}

/// How much of the page a semantic snapshot covers.
#[derive(Debug, Clone, Copy, PartialEq, Eq, Structural)]
pub enum SnapshotMode {
    Auto,
    Full,
    Interactive,
}

/// The wire name of a snapshot mode.
pub open spec fn snapshot_mode_name(mode: SnapshotMode) -> Seq<char> {
    match mode {
        SnapshotMode::Auto => "auto"@,
        SnapshotMode::Full => "full"@,
        SnapshotMode::Interactive => "interactive"@,
    }
}

impl SnapshotMode {
    pub fn as_str(self) -> (s: &'static str)
        ensures
            s@ == snapshot_mode_name(self),
    {
        match self {
            SnapshotMode::Auto => "auto",
            SnapshotMode::Full => "full",
            SnapshotMode::Interactive => "interactive",
        }
    }
}

impl Default for SnapshotMode {
    fn default() -> (m: Self)
        ensures
            m == SnapshotMode::Auto,
    {
        SnapshotMode::Auto
    }
}

/// Distinct execution states have distinct wire names.
pub proof fn lemma_execution_state_names_distinct(a: ExecutionState, b: ExecutionState)
    ensures
        execution_state_name(a) == execution_state_name(b) ==> a == b,
{
    reveal_strlit("not_started");
    reveal_strlit("completed");
    reveal_strlit("outcome_unknown");
    assert("not_started"@.len() == 11);
    assert("completed"@.len() == 9);
    assert("outcome_unknown"@.len() == 15);
}

/// Distinct snapshot modes have distinct wire names.
pub proof fn lemma_snapshot_mode_names_distinct(a: SnapshotMode, b: SnapshotMode)
    ensures
        snapshot_mode_name(a) == snapshot_mode_name(b) ==> a == b,
{
    reveal_strlit("auto");
    reveal_strlit("full");
    reveal_strlit("interactive");
    assert("auto"@[0] == 'a');
    assert("full"@[0] == 'f');
    assert("interactive"@.len() == 11);
}

#[derive(Debug, Clone)]
pub struct BrowserStability {
    pub stable: bool,
    pub waited_ms: u64,
    pub reason: String,
}

#[derive(Debug, Clone)]
pub struct SemanticSnapshot {
    pub browser_id: String,
    pub page_id: String,
    pub snapshot_generation: u64,
    pub snapshot_mode: String,
    pub auto_compacted: bool,
    pub max_nodes: usize,
    pub max_depth: u32,
    pub node_count: usize,
    pub truncated: bool,
    pub nodes: Vec<SemanticNode>,
}

#[derive(Debug, Clone)]
pub struct Screenshot {
    pub browser_id: String,
    pub page_id: String,
    pub content_base64: String,
    pub mime_type: String,
    pub width: u32,
    pub height: u32,
    pub file_bytes: u64,
    pub sha256: String,
}

/// A named key that `browser_act(action=key)` may press.
#[derive(Debug, Clone, Copy, PartialEq, Eq, Structural)]
pub enum BrowserKey {
    Enter,
    Tab,
    Escape,
    Backspace,
    Delete,
    ArrowUp,
    ArrowDown,
    ArrowLeft,
    ArrowRight,
    Home,
    End,
    PageUp,
    PageDown,
    Space,
}

/// The CDP `key`, `code` and `text` of a key press.
pub open spec fn cdp_key(key: BrowserKey) -> (Seq<char>, Seq<char>, Seq<char>) {
    match key {
        BrowserKey::Enter => ("Enter"@, "Enter"@, "\r"@),
        BrowserKey::Tab => ("Tab"@, "Tab"@, "\t"@),
        BrowserKey::Escape => ("Escape"@, "Escape"@, ""@),
        BrowserKey::Backspace => ("Backspace"@, "Backspace"@, ""@),
        BrowserKey::Delete => ("Delete"@, "Delete"@, ""@),
        BrowserKey::ArrowUp => ("ArrowUp"@, "ArrowUp"@, ""@),
        BrowserKey::ArrowDown => ("ArrowDown"@, "ArrowDown"@, ""@),
        BrowserKey::ArrowLeft => ("ArrowLeft"@, "ArrowLeft"@, ""@),
        BrowserKey::ArrowRight => ("ArrowRight"@, "ArrowRight"@, ""@),
        BrowserKey::Home => ("Home"@, "Home"@, ""@),
        BrowserKey::End => ("End"@, "End"@, ""@),
        BrowserKey::PageUp => ("PageUp"@, "PageUp"@, ""@),
        BrowserKey::PageDown => ("PageDown"@, "PageDown"@, ""@),
        BrowserKey::Space => (" "@, "Space"@, " "@),
    }
}

impl BrowserKey {
    pub fn cdp(self) -> (r: (&'static str, &'static str, &'static str))
        ensures
            (r.0@, r.1@, r.2@) == cdp_key(self),
    {
        match self {
            BrowserKey::Enter => ("Enter", "Enter", "\r"),
            BrowserKey::Tab => ("Tab", "Tab", "\t"),
            BrowserKey::Escape => ("Escape", "Escape", ""),
            BrowserKey::Backspace => ("Backspace", "Backspace", ""),
            BrowserKey::Delete => ("Delete", "Delete", ""),
            BrowserKey::ArrowUp => ("ArrowUp", "ArrowUp", ""),
            BrowserKey::ArrowDown => ("ArrowDown", "ArrowDown", ""),
            BrowserKey::ArrowLeft => ("ArrowLeft", "ArrowLeft", ""),
            BrowserKey::ArrowRight => ("ArrowRight", "ArrowRight", ""),
            BrowserKey::Home => ("Home", "Home", ""),
            BrowserKey::End => ("End", "End", ""),
            BrowserKey::PageUp => ("PageUp", "PageUp", ""),
            BrowserKey::PageDown => ("PageDown", "PageDown", ""),
            BrowserKey::Space => (" ", "Space", " "),
        }
    }
}

/// Every key presses its own CDP code: distinct keys never share a code,
/// and every key but `Space` uses its name as its CDP key.
pub proof fn lemma_cdp_codes_identify_keys(a: BrowserKey, b: BrowserKey)
    ensures
        cdp_key(a).1 == cdp_key(b).1 ==> a == b,
        a != BrowserKey::Space ==> cdp_key(a).0 == cdp_key(a).1,
        cdp_key(BrowserKey::Space).0 == " "@ && cdp_key(BrowserKey::Space).1 == "Space"@,
{
    reveal_strlit("Enter");
    reveal_strlit("Tab");
    reveal_strlit("Escape");
    reveal_strlit("Backspace");
    reveal_strlit("Delete");
    reveal_strlit("ArrowUp");
    reveal_strlit("ArrowDown");
    reveal_strlit("ArrowLeft");
    reveal_strlit("ArrowRight");
    reveal_strlit("Home");
    reveal_strlit("End");
    reveal_strlit("PageUp");
    reveal_strlit("PageDown");
    reveal_strlit("Space");
    let ca = cdp_key(a).1;
    let cb = cdp_key(b).1;
    if ca == cb && a != b {
        assert(ca.len() == cb.len());
        assert(ca[0] == cb[0]);
        if ca.len() > 5 {
            assert(ca[5] == cb[5]);
        }
        match a {
            BrowserKey::Enter => assert(ca[0] == 'E' && ca.len() == 5 && ca[1] == 'n'),
            BrowserKey::Tab => assert(ca[0] == 'T' && ca.len() == 3),
            BrowserKey::Escape => assert(ca[0] == 'E' && ca.len() == 6 && ca[1] == 's'),
            BrowserKey::Backspace => assert(ca[0] == 'B' && ca.len() == 9),
            BrowserKey::Delete => assert(ca[0] == 'D' && ca.len() == 6),
            BrowserKey::ArrowUp => assert(ca[0] == 'A' && ca.len() == 7),
            BrowserKey::ArrowDown => assert(ca[0] == 'A' && ca.len() == 9 && ca[5] == 'D'),
            BrowserKey::ArrowLeft => assert(ca[0] == 'A' && ca.len() == 9 && ca[5] == 'L'),
            BrowserKey::ArrowRight => assert(ca[0] == 'A' && ca.len() == 10),
            BrowserKey::Home => assert(ca[0] == 'H' && ca.len() == 4),
            BrowserKey::End => assert(ca[0] == 'E' && ca.len() == 3),
            BrowserKey::PageUp => assert(ca[0] == 'P' && ca.len() == 6),
            BrowserKey::PageDown => assert(ca[0] == 'P' && ca.len() == 8),
            BrowserKey::Space => assert(ca[0] == 'S' && ca.len() == 5),
        }
        match b {
            BrowserKey::Enter => assert(cb[0] == 'E' && cb.len() == 5 && cb[1] == 'n'),
            BrowserKey::Tab => assert(cb[0] == 'T' && cb.len() == 3),
            BrowserKey::Escape => assert(cb[0] == 'E' && cb.len() == 6 && cb[1] == 's'),
            BrowserKey::Backspace => assert(cb[0] == 'B' && cb.len() == 9),
            BrowserKey::Delete => assert(cb[0] == 'D' && cb.len() == 6),
            BrowserKey::ArrowUp => assert(cb[0] == 'A' && cb.len() == 7),
            BrowserKey::ArrowDown => assert(cb[0] == 'A' && cb.len() == 9 && cb[5] == 'D'),
            BrowserKey::ArrowLeft => assert(cb[0] == 'A' && cb.len() == 9 && cb[5] == 'L'),
            BrowserKey::ArrowRight => assert(cb[0] == 'A' && cb.len() == 10),
            BrowserKey::Home => assert(cb[0] == 'H' && cb.len() == 4),
            BrowserKey::End => assert(cb[0] == 'E' && cb.len() == 3),
            BrowserKey::PageUp => assert(cb[0] == 'P' && cb.len() == 6),
            BrowserKey::PageDown => assert(cb[0] == 'P' && cb.len() == 8),
            BrowserKey::Space => assert(cb[0] == 'S' && cb.len() == 5),
        }
        if ca.len() == 5 || ca.len() == 6 {
            assert(ca[1] == cb[1]);
        }
    }
}

#[derive(Debug, Clone)]
pub struct BrowserShutdownReport {
    pub browsers: usize,
    pub timed_out: usize,
    pub failures: usize,
}

impl Default for BrowserShutdownReport {
    fn default() -> (r: Self)
        ensures
            r.browsers == 0,
            r.timed_out == 0,
            r.failures == 0,
    {
        BrowserShutdownReport { browsers: 0, timed_out: 0, failures: 0 }
    }
}

/// The first `max` characters of `value` (all of it when shorter).
pub open spec fn spec_clip_chars(value: Seq<char>, max: nat) -> Seq<char> {
    if max < value.len() {
        value.take(max as int)
    } else {
        value
    }
}

/// The largest character boundary of `bytes` at or below `i`.
pub open spec fn boundary_at_or_below(bytes: Seq<u8>, i: nat) -> nat
    decreases i,
{
    if i == 0 || is_char_boundary(bytes, i as int) {
        i
    } else {
        boundary_at_or_below(bytes, (i - 1) as nat)
    }
}

/// `value` cut to at most `max` UTF-8 bytes at the last character boundary
/// that fits (all of it when it fits).
pub open spec fn spec_clip_bytes(value: Seq<char>, max: nat) -> Seq<char> {
    let bytes = encode_utf8(value);
    if bytes.len() <= max {
        value
    } else {
        decode_utf8(bytes.subrange(0, boundary_at_or_below(bytes, max) as int))
    }
}

proof fn lemma_boundary_at_or_below(bytes: Seq<u8>, i: nat)
    requires
        vstd::utf8::valid_utf8(bytes),
    ensures
        boundary_at_or_below(bytes, i) <= i,
        is_char_boundary(bytes, boundary_at_or_below(bytes, i) as int),
    decreases i,
{
    if i > 0 && !is_char_boundary(bytes, i as int) {
        lemma_boundary_at_or_below(bytes, (i - 1) as nat);
    }
}

/// Clipping by bytes keeps a prefix of the text, and that prefix's UTF-8
/// encoding fits in `max` bytes; text that already fits is kept whole.
pub proof fn lemma_clip_bytes_is_fitting_prefix(value: Seq<char>, max: nat)
    ensures
        spec_clip_bytes(value, max) == value.take(spec_clip_bytes(value, max).len() as int),
        encode_utf8(value).len() <= max ==> spec_clip_bytes(value, max) == value,
        encode_utf8(value).len() > max ==> encode_utf8(spec_clip_bytes(value, max)).len() <= max,
{
    let bytes = encode_utf8(value);
    if bytes.len() <= max {
        assert(value.take(value.len() as int) =~= value);
    } else {
        vstd::utf8::encode_utf8_valid_utf8(value);
        vstd::utf8::encode_utf8_decode_utf8(value);
        let end = boundary_at_or_below(bytes, max);
        lemma_boundary_at_or_below(bytes, max);
        vstd::utf8::decode_utf8_split(bytes, end as int);
        vstd::utf8::valid_utf8_split(bytes, end as int);
        let head = decode_utf8(bytes.subrange(0, end as int));
        let tail = decode_utf8(bytes.subrange(end as int, bytes.len() as int));
        assert(value == head + tail);
        assert(value.take(head.len() as int) =~= head);
        vstd::utf8::decode_utf8_encode_utf8(bytes.subrange(0, end as int));
    }
}

/// Below `limit`, the boundary search gives the same answer on two byte
/// sequences that agree on which indexes are character boundaries.
proof fn lemma_boundary_agrees(a: Seq<u8>, b: Seq<u8>, limit: nat)
    requires
        forall|i: int| 0 <= i <= limit ==> is_char_boundary(a, i) == is_char_boundary(b, i),
    ensures
        boundary_at_or_below(a, limit) == boundary_at_or_below(b, limit),
    decreases limit,
{
    if limit > 0 && !is_char_boundary(a, limit as int) {
        lemma_boundary_agrees(a, b, (limit - 1) as nat);
    }
}

/// Between the boundary found below `high` and `high`, lowering the limit
/// finds the same boundary.
proof fn lemma_boundary_stable(bytes: Seq<u8>, low: nat, high: nat)
    requires
        boundary_at_or_below(bytes, high) <= low <= high,
    ensures
        boundary_at_or_below(bytes, low) == boundary_at_or_below(bytes, high),
    decreases high,
{
    if low < high {
        assert(!is_char_boundary(bytes, high as int));
        lemma_boundary_stable(bytes, low, (high - 1) as nat);
    }
}

/// Clipping the clipped text to a smaller (or equal) bound gives what
/// clipping the whole text to that bound gives.
proof fn lemma_clip_bytes_compose(value: Seq<char>, low: nat, high: nat)
    requires
        low <= high,
    ensures
        spec_clip_bytes(spec_clip_bytes(value, high), low) == spec_clip_bytes(value, low),
{
    let bytes = encode_utf8(value);
    if bytes.len() > high {
        vstd::utf8::encode_utf8_valid_utf8(value);
        let e2 = boundary_at_or_below(bytes, high);
        lemma_boundary_at_or_below(bytes, high);
        vstd::utf8::valid_utf8_split(bytes, e2 as int);
        let cut = bytes.subrange(0, e2 as int);
        let w = decode_utf8(cut);
        vstd::utf8::decode_utf8_encode_utf8(cut);
        assert(encode_utf8(w) == cut);
        if e2 <= low {
            lemma_boundary_stable(bytes, low, high);
        } else {
            assert forall|i: int| 0 <= i <= low implies is_char_boundary(cut, i) == is_char_boundary(
                bytes,
                i,
            ) by {
                if i > 0 {
                    vstd::utf8::is_char_boundary_iff_not_is_continuation_byte(cut, i);
                    vstd::utf8::is_char_boundary_iff_not_is_continuation_byte(bytes, i);
                    assert(cut[i] == bytes[i]);
                }
            }
            lemma_boundary_agrees(cut, bytes, low);
            let e1 = boundary_at_or_below(bytes, low);
            lemma_boundary_at_or_below(bytes, low);
            assert(cut.subrange(0, e1 as int) =~= bytes.subrange(0, e1 as int));
        }
    }
}

/// Clipping by bytes is idempotent and monotone in the bound: clipping twice
/// to the same bound changes nothing, clipping to a larger bound first does
/// not change what a smaller bound keeps, and the text kept under a smaller
/// bound is a prefix of the text kept under a larger one.
pub proof fn lemma_clip_bytes_idempotent_and_monotone(value: Seq<char>, low: nat, high: nat)
    requires
        low <= high,
    ensures
        spec_clip_bytes(spec_clip_bytes(value, low), low) == spec_clip_bytes(value, low),
        spec_clip_bytes(spec_clip_bytes(value, high), low) == spec_clip_bytes(value, low),
        spec_clip_bytes(value, low) == spec_clip_bytes(value, high).take(
            spec_clip_bytes(value, low).len() as int,
        ),
{
    lemma_clip_bytes_compose(value, low, low);
    lemma_clip_bytes_compose(value, low, high);
    lemma_clip_bytes_is_fitting_prefix(spec_clip_bytes(value, high), low);
}

/// Clipping by characters keeps a prefix of at most `max` characters.
pub proof fn lemma_clip_chars_is_bounded_prefix(value: Seq<char>, max: nat)
    ensures
        spec_clip_chars(value, max).len() <= max || spec_clip_chars(value, max) == value,
        spec_clip_chars(value, max) == value.take(spec_clip_chars(value, max).len() as int),
        spec_clip_chars(value, max).len() == (if max < value.len() { max } else { value.len() }),
        spec_clip_chars(value, max).len() <= max,
{
    assert(value.take(value.len() as int) =~= value);
}

/// Keeps the first `max` characters of `value`.
pub fn clip_chars(value: &str, max: usize) -> (r: String)
    ensures
        r@ == spec_clip_chars(value@, max as nat),
        r@.len() == (if max < value@.len() { max as nat } else { value@.len() }),
        r@ == value@.take(r@.len() as int),
{
    let n = value.unicode_len();
    let k = if max < n {
        max
    } else {
        n
    };
    let clipped = value.substring_char(0, k);
    proof {
        if k == n {
            assert(value@.subrange(0, k as int) =~= value@);
        }
    }
    clipped.to_owned()
}

/// Keeps the longest prefix of `value` whose UTF-8 encoding fits in `max` bytes.
pub fn clip_bytes(value: &str, max: usize) -> (r: String)
    ensures
        r@ == spec_clip_bytes(value@, max as nat),
{
    if byte_len(value) <= max {
        return value.to_owned();
    }
    let ghost bytes = encode_utf8(value@);
    let mut end = max;
    while end > 0 && !value.is_char_boundary(end)
        invariant
            bytes == encode_utf8(value@),
            end <= max,
            boundary_at_or_below(bytes, max as nat) == boundary_at_or_below(bytes, end as nat),
        decreases end,
    {
        end = end - 1;
    }
    proof {
        vstd::utf8::encode_utf8_valid_utf8(value@);
        if end == 0 {
            assert(is_char_boundary(bytes, 0));
        }
    }
    let (head, _tail) = value.split_at(end);
    proof {
        vstd::utf8::encode_utf8_decode_utf8(head@);
    }
    head.to_owned()
}

} // verus!
