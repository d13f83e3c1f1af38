//! The light's modes, its current state and settings, and the operations
//! that read and change them.
use vstd::prelude::*;

use crate::text::{chars_of, decimal, decimal_text, lower_code, lower_eq, lower_eq_at};

verus! {

// ── Modes ──────────────────────────────────────────────────────────

/// What the agent is doing, shown as the light's colour.
#[derive(Clone, Copy, Debug, PartialEq, Eq, Structural)]
pub enum LightMode {
    Idle,
    Working,
    Waiting,
    Error,
}

/// The name of a mode on the wire.
pub open spec fn mode_name(m: LightMode) -> Seq<char> {
    match m {
        LightMode::Idle => "idle"@,
        LightMode::Working => "working"@,
        LightMode::Waiting => "waiting"@,
        LightMode::Error => "error"@,
    }
}

/// The mode that a name selects: the name is compared without regard to
/// ASCII case, and anything that is not `working`, `waiting` or `error`
/// selects `Idle`.
pub open spec fn mode_from_name(t: Seq<char>) -> LightMode {
    if lower_eq(t, "working"@) {
        LightMode::Working
    } else if lower_eq(t, "waiting"@) {
        LightMode::Waiting
    } else if lower_eq(t, "error"@) {
        LightMode::Error
    } else {
        LightMode::Idle
    }
}

impl LightMode {
    pub fn as_str(&self) -> (s: &'static str)
        ensures
            s@ == mode_name(*self),
    {
        match self {
            LightMode::Idle => "idle",
            LightMode::Working => "working",
            LightMode::Waiting => "waiting",
            LightMode::Error => "error",
        }
    }

    pub fn from_str(s: &str) -> (m: LightMode)
        ensures
            m == mode_from_name(s@),
    {
        let v = chars_of(s);
        let n = v.len();
        if lower_eq_at(&v, 0, n, &chars_of("working")) {
            assert(v@.subrange(0, n as int) =~= s@);
            LightMode::Working
        } else if lower_eq_at(&v, 0, n, &chars_of("waiting")) {
            assert(v@.subrange(0, n as int) =~= s@);
            LightMode::Waiting
        } else if lower_eq_at(&v, 0, n, &chars_of("error")) {
            assert(v@.subrange(0, n as int) =~= s@);
            LightMode::Error
        } else {
            assert(v@.subrange(0, n as int) =~= s@);
            LightMode::Idle
        }
    }
}

// ── Orientation ────────────────────────────────────────────────────

/// How the three lamps are laid out.
#[derive(Clone, Copy, Debug, PartialEq, Eq, Structural)]
pub enum Orientation {
    Horizontal,
    Vertical,
}

pub open spec fn orientation_name(o: Orientation) -> Seq<char> {
    match o {
        Orientation::Horizontal => "horizontal"@,
        Orientation::Vertical => "vertical"@,
    }
}

/// The orientation that a name selects; names are matched exactly.
pub open spec fn orientation_from_name(t: Seq<char>) -> Option<Orientation> {
    if t == "horizontal"@ {
        Some(Orientation::Horizontal)
    } else if t == "vertical"@ {
        Some(Orientation::Vertical)
    } else {
        None
    }
}

impl Default for Orientation {
    fn default() -> (o: Self)
        ensures
            o == Orientation::Horizontal,
    {
        Orientation::Horizontal
    }
}

impl Orientation {
    pub fn as_str(&self) -> (s: &'static str)
        ensures
            s@ == orientation_name(*self),
    {
        match self {
            Orientation::Horizontal => "horizontal",
            Orientation::Vertical => "vertical",
        }
    }

    /// The orientation named `s`, if `s` names one.
    pub fn from_name(s: &str) -> (o: Option<Orientation>)
        ensures
            o == orientation_from_name(s@),
    {
        let v = chars_of(s);
        if crate::text::same_chars(&v, &chars_of("horizontal")) {
            Some(Orientation::Horizontal)
        } else if crate::text::same_chars(&v, &chars_of("vertical")) {
            Some(Orientation::Vertical)
        } else {
            None
        }
    }
}

// ── State types ────────────────────────────────────────────────────

/// The state last reported by the agent.
#[derive(Clone, Debug)]
pub struct LightState {
    pub mode: String,
    pub received_at: String,
    pub message: String,
}

/// A light state as plain text.
pub struct LightStateView {
    pub mode: Seq<char>,
    pub received_at: Seq<char>,
    pub message: Seq<char>,
}

impl View for LightState {
    type V = LightStateView;

    open spec fn view(&self) -> LightStateView {
        LightStateView { mode: self.mode@, received_at: self.received_at@, message: self.message@ }
    }
}

/// What the window is told whenever the state changes, and what it can
/// ask for.
#[derive(Clone, Debug)]
pub struct StatePayload {
    pub current_state: LightState,
    pub orientation: String,
    pub auto_start: bool,
}

pub struct PayloadView {
    pub state: LightStateView,
    pub orientation: Seq<char>,
    pub auto_start: bool,
}

impl View for StatePayload {
    type V = PayloadView;

    open spec fn view(&self) -> PayloadView {
        PayloadView {
            state: self.current_state@,
            orientation: self.orientation@,
            auto_start: self.auto_start,
        }
    }
}

/// The persisted user settings.
#[derive(Clone, Copy, Debug, PartialEq, Eq, Structural)]
pub struct Settings {
    pub orientation: Orientation,
    pub auto_start: bool,
}

impl Default for Settings {
    fn default() -> (s: Self)
        ensures
            s.orientation == Orientation::Horizontal,
            !s.auto_start,
    {
        Settings { orientation: Orientation::Horizontal, auto_start: false }
    }
}

/// Everything the application keeps between requests.
#[derive(Debug)]
pub struct AppData {
    pub current_state: LightState,
    pub settings: Settings,
}

pub struct AppView {
    pub state: LightStateView,
    pub settings: Settings,
}

impl View for AppData {
    type V = AppView;

    open spec fn view(&self) -> AppView {
        AppView { state: self.current_state@, settings: self.settings }
    }
}

// ── The model ──────────────────────────────────────────────────────

/// The message shown before any agent has reported.
pub open spec fn waiting_message() -> Seq<char> {
    "等待 Agent 连接"@
}

/// The state shown before any agent has reported.
pub open spec fn initial_state(received_at: Seq<char>) -> LightStateView {
    LightStateView {
        mode: mode_name(LightMode::Idle),
        received_at,
        message: waiting_message(),
    }
}

/// The mode that a report selects: an absent mode counts as `idle`.
pub open spec fn reported_mode(mode: Option<Seq<char>>) -> LightMode {
    match mode {
        Some(m) => mode_from_name(m),
        None => LightMode::Idle,
    }
}

/// The state that a report sets; an absent message counts as empty.
pub open spec fn report(mode: Option<Seq<char>>, message: Option<Seq<char>>, received_at: Seq<
    char,
>) -> LightStateView {
    LightStateView {
        mode: mode_name(reported_mode(mode)),
        received_at,
        message: match message {
            Some(t) => t,
            None => Seq::empty(),
        },
    }
}

/// The application after a report.
pub open spec fn after_report(
    d: AppView,
    mode: Option<Seq<char>>,
    message: Option<Seq<char>>,
    received_at: Seq<char>,
) -> AppView {
    AppView { state: report(mode, message, received_at), settings: d.settings }
}

/// The application after its orientation is set.
pub open spec fn with_orientation(d: AppView, o: Orientation) -> AppView {
    AppView { state: d.state, settings: Settings { orientation: o, ..d.settings } }
}

/// What the window is told about the application.
pub open spec fn payload_of(d: AppView, auto_start: bool) -> PayloadView {
    PayloadView { state: d.state, orientation: orientation_name(d.settings.orientation), auto_start }
}

/// The text of an optional string.
pub open spec fn opt_view(o: Option<&str>) -> Option<Seq<char>> {
    match o {
        Some(s) => Some(s@),
        None => None,
    }
}

/// A copy of `s`, field for field.
pub fn copy_state(s: &LightState) -> (c: LightState)
    ensures
        c@ == s@,
{
    LightState {
        mode: s.mode.clone(),
        received_at: s.received_at.clone(),
        message: s.message.clone(),
    }
}

// ── Time ───────────────────────────────────────────────────────────

/// Whole seconds since the Unix epoch by the system clock, or 0 when the
/// clock reads earlier than the epoch (`SystemTime::now`,
/// `duration_since(UNIX_EPOCH)`, `unwrap_or_default`, `as_secs`). The value
/// depends on the clock, so nothing is claimed of it.
#[verifier::external_body]
fn unix_seconds() -> (secs: u64) {
    std::time::SystemTime::now().duration_since(std::time::UNIX_EPOCH).unwrap_or_default().as_secs()
}

/// The current time, as decimal seconds since the Unix epoch.
pub fn now_iso() -> (s: String)
    ensures
        exists|t: u64| s@ == decimal(t as nat),
{
    let secs = unix_seconds();
    decimal_text(secs)
}

// ── Building and changing the state ────────────────────────────────

/// The state shown before any agent has reported, stamped `received_at`.
pub fn initial_light_state(received_at: String) -> (s: LightState)
    ensures
        s@ == initial_state(received_at@),
{
    LightState {
        mode: String::from_str(LightMode::Idle.as_str()),
        received_at,
        message: String::from_str("等待 Agent 连接"),
    }
}

/// The state shown before any agent has reported, stamped with the
/// current time.
pub fn default_light_state() -> (s: LightState)
    ensures
        exists|t: u64| s@ == initial_state(decimal(t as nat)),
{
    initial_light_state(now_iso())
}

/// The application's data at start-up, with the settings that were loaded.
pub fn build_state(settings: Settings) -> (d: AppData)
    ensures
        d.settings == settings,
        exists|t: u64| d.current_state@ == initial_state(decimal(t as nat)),
{
    AppData { current_state: default_light_state(), settings }
}

/// What the window is told about `data`, with the auto-start flag read
/// from the system.
pub fn get_state(data: &AppData, auto_start: bool) -> (p: StatePayload)
    ensures
        p@ == payload_of(data@, auto_start),
{
    StatePayload {
        current_state: copy_state(&data.current_state),
        orientation: String::from_str(data.settings.orientation.as_str()),
        auto_start,
    }
}

/// The state that a report sets: the mode is normalised by
/// `LightMode::from_str`, an absent mode counts as `idle`, and an absent
/// message as empty.
pub fn reported_state(mode: Option<&str>, message: Option<&str>, received_at: String) -> (s:
    LightState)
    ensures
        s@ == report(opt_view(mode), opt_view(message), received_at@),
{
    let m = match mode {
        Some(m) => LightMode::from_str(m),
        None => LightMode::Idle,
    };
    let text = match message {
        Some(t) => String::from_str(t),
        None => String::new(),
    };
    LightState { mode: String::from_str(m.as_str()), received_at, message: text }
}

/// Sets the orientation named `orientation`. A name other than
/// `horizontal` or `vertical` is refused and nothing changes.
pub fn apply_orientation(data: &mut AppData, orientation: &str) -> (r: Result<(), String>)
    ensures
        match orientation_from_name(orientation@) {
            Some(o) => r is Ok && final(data)@ == with_orientation(old(data)@, o),
            None => r matches Err(e) && e@ == "无效方向"@ && final(data)@ == old(data)@,
        },
{
    match Orientation::from_name(orientation) {
        Some(o) => {
            data.settings.orientation = o;
            Ok(())
        },
        None => Err(String::from_str("无效方向")),
    }
}

// ── Laws ───────────────────────────────────────────────────────────

/// A mode's name selects that mode again.
pub proof fn lemma_mode_name_round_trip(m: LightMode)
    ensures
        mode_from_name(mode_name(m)) == m,
{
    reveal_strlit("idle");
    reveal_strlit("working");
    reveal_strlit("waiting");
    reveal_strlit("error");
    let n = mode_name(m);
    match m {
        LightMode::Idle => {
            assert(!lower_eq(n, "working"@));
            assert(!lower_eq(n, "waiting"@));
            assert(!lower_eq(n, "error"@));
        },
        LightMode::Working => {
            assert(lower_eq(n, "working"@));
        },
        LightMode::Waiting => {
            assert(lower_code(n[1]) != "working"@[1] as u32);
            assert(!lower_eq(n, "working"@));
            assert(lower_eq(n, "waiting"@));
        },
        LightMode::Error => {
            assert(!lower_eq(n, "working"@));
            assert(!lower_eq(n, "waiting"@));
            assert(lower_eq(n, "error"@));
        },
    }
}

/// An orientation's name selects that orientation again.
pub proof fn lemma_orientation_name_round_trip(o: Orientation)
    ensures
        orientation_from_name(orientation_name(o)) == Some(o),
{
    reveal_strlit("horizontal");
    reveal_strlit("vertical");
    if o == Orientation::Vertical {
        assert(orientation_name(o) != "horizontal"@) by {
            assert(orientation_name(o).len() != "horizontal"@.len());
        }
    }
}

/// Mode names are read without regard to ASCII case: two names that agree
/// once lower-cased select the same mode.
pub proof fn lemma_mode_ignores_case(s: Seq<char>, t: Seq<char>)
    requires
        s.len() == t.len(),
        forall|i: int| 0 <= i < s.len() ==> lower_code(#[trigger] s[i]) == lower_code(t[i]),
    ensures
        mode_from_name(s) == mode_from_name(t),
{
    assert forall|l: Seq<char>| lower_eq(s, l) <==> lower_eq(t, l) by {
        if lower_eq(s, l) {
            assert forall|i: int| 0 <= i < t.len() implies lower_code(#[trigger] t[i]) == l[i] as u32 by {
                assert(lower_code(s[i]) == l[i] as u32);
            }
        }
        if lower_eq(t, l) {
            assert forall|i: int| 0 <= i < s.len() implies lower_code(#[trigger] s[i]) == l[i] as u32 by {
                assert(lower_code(t[i]) == l[i] as u32);
            }
        }
    }
}

/// A report that names a mode shows that mode.
pub proof fn lemma_report_own_name(m: LightMode, message: Option<Seq<char>>, at: Seq<char>)
    ensures
        report(Some(mode_name(m)), message, at).mode == mode_name(m),
{
    lemma_mode_name_round_trip(m);
}

/// After a report, the state that can be read back shows the reported
/// mode (normalised) and message, and the orientation is unchanged.
pub proof fn lemma_read_after_report(
    d: AppView,
    mode: Option<Seq<char>>,
    message: Option<Seq<char>>,
    at: Seq<char>,
    auto_start: bool,
)
    ensures
        ({
            let p = payload_of(after_report(d, mode, message, at), auto_start);
            &&& p.state.mode == mode_name(reported_mode(mode))
            &&& p.state.message == (match message {
                Some(t) => t,
                None => Seq::<char>::empty(),
            })
            &&& p.state.received_at == at
            &&& p.orientation == payload_of(d, auto_start).orientation
        }),
{
}

/// Each report replaces the whole state: of two reports, the later one
/// alone decides what is shown.
pub proof fn lemma_last_report_wins(
    d: AppView,
    m1: Option<Seq<char>>,
    g1: Option<Seq<char>>,
    t1: Seq<char>,
    m2: Option<Seq<char>>,
    g2: Option<Seq<char>>,
    t2: Seq<char>,
)
    ensures
        after_report(after_report(d, m1, g1, t1), m2, g2, t2) == after_report(d, m2, g2, t2),
{
}

/// Changing the orientation leaves the reported state alone and shows the
/// new orientation.
pub proof fn lemma_orientation_keeps_state(d: AppView, o: Orientation, auto_start: bool)
    ensures
        payload_of(with_orientation(d, o), auto_start).state == d.state,
        payload_of(with_orientation(d, o), auto_start).orientation == orientation_name(o),
{
}

/// Whatever was reported, the mode shown is one of the four names.
pub proof fn lemma_shown_mode_is_known(mode: Option<Seq<char>>)
    ensures
        ({
            let n = mode_name(reported_mode(mode));
            n == "idle"@ || n == "working"@ || n == "waiting"@ || n == "error"@
        }),
{
}

} // verus!
