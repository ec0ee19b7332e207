//! The daemon-configuration module: reports the system's enabled service
//! daemons and applies desired start/enable states to them.
//!
//! Talking to the service manager is an external collaborator's work, reached
//! through the [`SystemctlInfo`] trait that callers implement; everything the
//! module decides — parsing the unit-file listing and the substate report,
//! which daemons to report, what action a desired record asks for, and the
//! JSON in and out — is verified here.

use vstd::prelude::*;
use crate::error::MmiError;
use crate::emit::{json_quote_of, push_json_quoted};
use crate::json::{
    json_as_array, json_as_bool, json_as_str, json_obj_get, json_parse, json_parse_of, obj_field,
    JsonData,
};
use crate::payload::{deliver_payload, deliver_spec, delivered};
use crate::text::{byte_len, exceeds_bytes, push_char, split_on, split_on_exec, str_eq};

verus! {

/// The metadata payload this module reports.
pub const DAEMON_INFO: &'static str = "{\n    \"Name\": \"Daemon Configuration\",\n    \"Description\": \"Reports current systemd daemons and allows configuring of them\",\n    \"Manufacturer\": \"Microsoft\",\n    \"VersionMajor\": 1,\n    \"VersionMinor\": 0,\n    \"VersionInfo\": \"\",\n    \"Components\": [\"SystemdDaemonConfiguration\"],\n    \"Lifetime\": 1,\n    \"UserAccount\": 0}";

/// The run state a daemon's substate maps to.
#[derive(Clone, Copy, PartialEq, Eq, Structural, Debug)]
pub enum State {
    Other,
    Running,
    Failed,
    Exited,
    Dead,
}

/// Whether a daemon starts with the system.
#[derive(Clone, Copy, PartialEq, Eq, Structural, Debug)]
pub enum AutoStartStatus {
    Other,
    Enabled,
    Disabled,
}

/// One reported daemon.
#[derive(Clone, Debug)]
pub struct Daemon {
    pub name: String,
    pub state: State,
    pub auto_start_status: AutoStartStatus,
}

/// The abstract form of a reported daemon.
pub struct DaemonView {
    pub name: Seq<char>,
    pub state: State,
    pub auto_start_status: AutoStartStatus,
}

impl View for Daemon {
    type V = DaemonView;

    open spec fn view(&self) -> DaemonView {
        DaemonView {
            name: self.name@,
            state: self.state,
            auto_start_status: self.auto_start_status,
        }
    }
}

/// One desired daemon record from a set payload.
#[derive(Clone, Debug)]
pub struct DesiredDaemon {
    pub name: String,
    pub started: bool,
    pub enabled: bool,
}

/// The abstract form of a desired daemon record.
pub struct DesiredDaemonView {
    pub name: Seq<char>,
    pub started: bool,
    pub enabled: bool,
}

impl View for DesiredDaemon {
    type V = DesiredDaemonView;

    open spec fn view(&self) -> DesiredDaemonView {
        DesiredDaemonView { name: self.name@, started: self.started, enabled: self.enabled }
    }
}

/// The service-manager operations a caller supplies: shelling out to the
/// system's service manager, or a stand-in for tests.  Implementations
/// promise nothing the module's logic relies on.
pub trait SystemctlInfo where Self: core::marker::Sized {
    /// Builds the caller's handle to the service manager.
    fn new() -> Self;

    /// Whether the system was booted under the service manager.
    fn booted(&self) -> bool;

    /// Reports the system's daemons worth reporting.
    fn get_daemons(&self) -> Result<Vec<Daemon>, MmiError>;

    /// The raw unit-file listing.
    fn list_unit_files(&self) -> Result<String, MmiError>;

    /// The raw substate report for one unit.
    fn show_substate_property(&self, name: &str) -> Result<String, MmiError>;

    /// Assembles one daemon from its name, substate report, and listed
    /// auto-start status.
    fn create_daemon(&self, name: &str, auto_start_status: &str) -> Result<Daemon, MmiError>;

    /// Whether a unit of this name is known to the service manager.
    fn unit_exists(&self, name: &str) -> Result<bool, MmiError>;

    /// Starts the daemon; true when a start was actually issued.
    fn start(&mut self, name: &str) -> Result<bool, MmiError>;

    /// Stops the daemon; true when a stop was actually issued.
    fn stop(&mut self, name: &str) -> Result<bool, MmiError>;

    /// Enables the daemon; true when an enable was actually issued.
    fn enable(&mut self, name: &str) -> Result<bool, MmiError>;

    /// Disables the daemon; true when a disable was actually issued.
    fn disable(&mut self, name: &str) -> Result<bool, MmiError>;
}

/// The handle type for the real service manager; its [`SystemctlInfo`]
/// implementation shells out and therefore lives with the embedding program,
/// not in this library.
pub struct Systemctl {}

/// Whether a character is one of the ASCII whitespace characters the
/// substate report is padded with.
pub open spec fn is_ws(c: char) -> bool {
    c == ' ' || c == '\t' || c == '\n' || c == '\r'
}

/// `s` without leading whitespace.
pub open spec fn trim_front(s: Seq<char>) -> Seq<char>
    decreases s.len(),
{
    if s.len() > 0 && is_ws(s[0]) {
        trim_front(s.drop_first())
    } else {
        s
    }
}

/// `s` without trailing whitespace.
pub open spec fn trim_back(s: Seq<char>) -> Seq<char>
    decreases s.len(),
{
    if s.len() > 0 && is_ws(s.last()) {
        trim_back(s.drop_last())
    } else {
        s
    }
}

/// `s` without surrounding whitespace.
pub open spec fn trim_spec(s: Seq<char>) -> Seq<char> {
    trim_back(trim_front(s))
}

/// Trimming the front keeps a suffix: the characters from the first
/// non-whitespace position on.
proof fn lemma_trim_front_at(s: Seq<char>, a: int)
    requires
        0 <= a <= s.len(),
        forall|j: int| 0 <= j < a ==> is_ws(#[trigger] s[j]),
        a < s.len() ==> !is_ws(s[a]),
    ensures
        trim_front(s) =~= s.skip(a),
    decreases a,
{
    if a == 0 {
        assert(s.skip(0) =~= s);
    } else {
        assert(is_ws(s[0]));
        assert(forall|j: int| 0 <= j < a - 1 ==> is_ws(#[trigger] s.drop_first()[j]));
        if a - 1 < s.drop_first().len() {
            assert(s.drop_first()[a - 1] == s[a]);
        }
        lemma_trim_front_at(s.drop_first(), a - 1);
        assert(s.drop_first().skip(a - 1) =~= s.skip(a));
    }
}

/// Trimming the back keeps a prefix: the characters up to the last
/// non-whitespace position.
proof fn lemma_trim_back_at(s: Seq<char>, b: int)
    requires
        0 <= b <= s.len(),
        forall|j: int| b <= j < s.len() ==> is_ws(#[trigger] s[j]),
        b > 0 ==> !is_ws(s[b - 1]),
    ensures
        trim_back(s) =~= s.take(b),
    decreases s.len() - b,
{
    if b == s.len() {
        assert(s.take(b) =~= s);
    } else {
        assert(is_ws(s.last()));
        assert(forall|j: int| b <= j < s.drop_last().len() ==> is_ws(#[trigger] s.drop_last()[j]));
        if b > 0 {
            assert(s.drop_last()[b - 1] == s[b - 1]);
        }
        lemma_trim_back_at(s.drop_last(), b);
        assert(s.drop_last().take(b) =~= s.take(b));
    }
}

/// Whether a character is ASCII whitespace.
fn is_ws_char(c: char) -> (r: bool)
    ensures
        r == is_ws(c),
{
    c == ' ' || c == '\t' || c == '\n' || c == '\r'
}

/// Strips surrounding ASCII whitespace.
pub fn trim(s: &str) -> (r: String)
    ensures
        r@ == trim_spec(s@),
{
    let n = s.unicode_len();
    let mut a: usize = 0;
    while a < n && is_ws_char(s.get_char(a))
        invariant
            a <= n,
            n == s@.len(),
            forall|j: int| 0 <= j < a ==> is_ws(#[trigger] s@[j]),
        decreases n - a,
    {
        a = a + 1;
    }
    proof {
        lemma_trim_front_at(s@, a as int);
    }
    if a == n {
        let r = String::new();
        proof {
            assert(trim_front(s@).len() == 0);
            assert(trim_back(trim_front(s@)) =~= trim_front(s@));
            assert(r@ =~= trim_spec(s@));
        }
        return r;
    }
    let mut b: usize = n;
    while b > a + 1 && is_ws_char(s.get_char(b - 1))
        invariant
            a < b <= n,
            n == s@.len(),
            forall|j: int| b <= j < n ==> is_ws(#[trigger] s@[j]),
            !is_ws(s@[a as int]),
        decreases b,
    {
        b = b - 1;
    }
    let r = s.substring_char(a, b).to_owned();
    proof {
        let t = trim_front(s@);
        assert(t =~= s@.skip(a as int));
        assert(!is_ws(s@[b - 1]));
        assert forall|j: int| b - a <= j < t.len() implies is_ws(#[trigger] t[j]) by {
            assert(t[j] == s@[j + a]);
        }
        assert(t[b - a - 1] == s@[b - 1]);
        lemma_trim_back_at(t, b - a);
        assert(t.take(b - a) =~= s@.subrange(a as int, b as int));
        assert(r@ =~= trim_spec(s@));
    }
    r
}

/// The run state a trimmed substate word names.
pub open spec fn state_of_word(w: Seq<char>) -> State {
    if w == "running"@ {
        State::Running
    } else if w == "failed"@ {
        State::Failed
    } else if w == "exited"@ {
        State::Exited
    } else if w == "dead"@ {
        State::Dead
    } else {
        State::Other
    }
}

/// The auto-start status a listing word names.
pub open spec fn auto_start_of_word(w: Seq<char>) -> AutoStartStatus {
    if w == "enabled"@ {
        AutoStartStatus::Enabled
    } else if w == "disabled"@ {
        AutoStartStatus::Disabled
    } else {
        AutoStartStatus::Other
    }
}

/// Whether a substate report is well-formed: it must carry the
/// `SubState=` marker.
pub open spec fn substate_wf(s: Seq<char>) -> bool {
    s.len() >= 9 && s.take(9) == "SubState="@
}

/// The state a substate report names: the word after the marker, trimmed.
pub open spec fn substate_state(s: Seq<char>) -> State {
    state_of_word(trim_spec(s.skip(9)))
}

/// Reads the run state out of a substate report: a service-manager error
/// when the marker is missing.
pub fn parse_substate(s: &str) -> (r: Result<State, MmiError>)
    ensures
        substate_wf(s@) ==> r == Ok::<State, MmiError>(substate_state(s@)),
        !substate_wf(s@) ==> r == Err::<State, MmiError>(MmiError::SystemctlError),
{
    let n = s.unicode_len();
    if n < 9 {
        return Err(MmiError::SystemctlError);
    }
    let head = s.substring_char(0, 9);
    if !str_eq(head, "SubState=") {
        proof {
            assert(s@.take(9) == s@.subrange(0, 9));
        }
        return Err(MmiError::SystemctlError);
    }
    proof {
        assert(s@.take(9) == s@.subrange(0, 9));
    }
    let tail = s.substring_char(9, n);
    let word = trim(tail);
    proof {
        assert(tail@ =~= s@.skip(9));
    }
    let state = if str_eq(word.as_str(), "running") {
        State::Running
    } else if str_eq(word.as_str(), "failed") {
        State::Failed
    } else if str_eq(word.as_str(), "exited") {
        State::Exited
    } else if str_eq(word.as_str(), "dead") {
        State::Dead
    } else {
        State::Other
    };
    Ok(state)
}

/// Assembles a daemon record from its unit name, its substate report, and
/// its listed auto-start word: the pure half of building one daemon.
pub fn build_daemon(name: &str, substate: &str, auto_start_status: &str) -> (r: Result<
    Daemon,
    MmiError,
>)
    ensures
        !substate_wf(substate@) ==> r == Err::<Daemon, MmiError>(MmiError::SystemctlError),
        substate_wf(substate@) ==> (r matches Ok(d) && d@.name == name@ && d@.state
            == substate_state(substate@) && d@.auto_start_status == auto_start_of_word(
            auto_start_status@,
        )),
{
    let state = match parse_substate(substate) {
        Ok(st) => st,
        Err(e) => {
            return Err(e);
        },
    };
    let auto = if str_eq(auto_start_status, "enabled") {
        AutoStartStatus::Enabled
    } else if str_eq(auto_start_status, "disabled") {
        AutoStartStatus::Disabled
    } else {
        AutoStartStatus::Other
    };
    Ok(Daemon { name: name.to_owned(), state, auto_start_status: auto })
}

/// The non-empty pieces of a split, in order.
pub open spec fn nonempty_pieces(parts: Seq<Seq<char>>) -> Seq<Seq<char>>
    decreases parts.len(),
{
    if parts.len() == 0 {
        Seq::<Seq<char>>::empty()
    } else {
        let front = nonempty_pieces(parts.drop_last());
        if parts.last().len() > 0 {
            front.push(parts.last())
        } else {
            front
        }
    }
}

/// The space-separated words of a line.
pub open spec fn words_of(line: Seq<char>) -> Seq<Seq<char>> {
    nonempty_pieces(split_on(line, ' '))
}

/// Whether `s` ends with the `.service` unit suffix.
pub open spec fn has_service_suffix(s: Seq<char>) -> bool {
    s.len() >= 8 && s.skip(s.len() - 8) == ".service"@
}

/// The entry one listing line contributes: a line whose first word is a
/// `.service` unit and which carries a second word yields the unit's name
/// and that word as its status; every other line yields nothing.
pub open spec fn line_entry(line: Seq<char>) -> Option<(Seq<char>, Seq<char>)> {
    let ws = words_of(line);
    if ws.len() >= 2 && has_service_suffix(ws[0]) {
        Option::Some((ws[0].take(ws[0].len() - 8), ws[1]))
    } else {
        Option::None
    }
}

/// The entries of all lines, in order.
pub open spec fn entries_of_lines(lines: Seq<Seq<char>>) -> Seq<(Seq<char>, Seq<char>)>
    decreases lines.len(),
{
    if lines.len() == 0 {
        Seq::<(Seq<char>, Seq<char>)>::empty()
    } else {
        let front = entries_of_lines(lines.drop_last());
        match line_entry(lines.last()) {
            Option::Some(e) => front.push(e),
            Option::None => front,
        }
    }
}

/// The (unit name, status word) entries a unit-file listing reports, line
/// by line.
pub open spec fn unit_entries(text: Seq<char>) -> Seq<(Seq<char>, Seq<char>)> {
    entries_of_lines(split_on(text, '\n'))
}

/// Collects the non-empty words of a line.
fn words_exec(line: &str) -> (r: Vec<String>)
    ensures
        r@.map_values(|w: String| w@) == words_of(line@),
{
    let parts = split_on_exec(line, ' ');
    let ghost pv = parts@.map_values(|p: String| p@);
    let mut words: Vec<String> = Vec::new();
    let mut i: usize = 0;
    while i < parts.len()
        invariant
            i <= parts@.len(),
            pv == parts@.map_values(|p: String| p@),
            words@.map_values(|w: String| w@) =~= nonempty_pieces(pv.take(i as int)),
        decreases parts@.len() - i,
    {
        proof {
            assert(pv.take(i + 1).drop_last() =~= pv.take(i as int));
            assert(pv.take(i + 1).last() == pv[i as int]);
            assert(pv[i as int] == parts@[i as int]@);
        }
        let ghost old_words = words@.map_values(|w: String| w@);
        if parts[i].as_str().unicode_len() > 0 {
            let w = parts[i].clone();
            words.push(w);
            proof {
                assert(words@.map_values(|w: String| w@) =~= old_words.push(parts@[i as int]@));
            }
        }
        i = i + 1;
    }
    proof {
        assert(pv.take(parts@.len() as int) =~= pv);
    }
    words
}

/// Scans a unit-file listing into its (unit name, status) entries.
pub fn scan_unit_files(text: &str) -> (r: Vec<(String, String)>)
    ensures
        r@.map_values(|e: (String, String)| (e.0@, e.1@)) == unit_entries(text@),
{
    let lines = split_on_exec(text, '\n');
    let ghost lv = lines@.map_values(|l: String| l@);
    let mut out: Vec<(String, String)> = Vec::new();
    let mut i: usize = 0;
    while i < lines.len()
        invariant
            i <= lines@.len(),
            lv == lines@.map_values(|l: String| l@),
            out@.map_values(|e: (String, String)| (e.0@, e.1@)) =~= entries_of_lines(
                lv.take(i as int),
            ),
        decreases lines@.len() - i,
    {
        proof {
            assert(lv.take(i + 1).drop_last() =~= lv.take(i as int));
            assert(lv.take(i + 1).last() == lv[i as int]);
            assert(lv[i as int] == lines@[i as int]@);
        }
        let ghost old_out = out@.map_values(|e: (String, String)| (e.0@, e.1@));
        let words = words_exec(lines[i].as_str());
        proof {
            assert(words@.map_values(|w: String| w@) == words_of(lines@[i as int]@));
        }
        if words.len() >= 2 {
            let first = &words[0];
            let n0 = first.as_str().unicode_len();
            proof {
                assert(first@ == words_of(lines@[i as int]@)[0]) by {
                    assert(words@.map_values(|w: String| w@)[0] == words@[0]@);
                }
                assert(words@[1]@ == words_of(lines@[i as int]@)[1]) by {
                    assert(words@.map_values(|w: String| w@)[1] == words@[1]@);
                }
            }
            if n0 >= 8 {
                let suffix = first.as_str().substring_char(n0 - 8, n0);
                if str_eq(suffix, ".service") {
                    proof {
                        assert(suffix@ =~= first@.skip(first@.len() - 8));
                        assert(has_service_suffix(first@));
                    }
                    let name = first.as_str().substring_char(0, n0 - 8).to_owned();
                    let status = words[1].clone();
                    out.push((name, status));
                    proof {
                        assert(name@ =~= first@.take(first@.len() - 8));
                        assert(out@.map_values(|e: (String, String)| (e.0@, e.1@)) =~= old_out.push(
                            (first@.take(first@.len() - 8), words@[1]@),
                        ));
                    }
                } else {
                    proof {
                        assert(suffix@ =~= first@.skip(first@.len() - 8));
                        assert(!has_service_suffix(first@));
                    }
                }
            } else {
                proof {
                    assert(first@.len() == n0);
                    assert(!has_service_suffix(first@));
                }
            }
        }
        i = i + 1;
    }
    proof {
        assert(lv.take(lines@.len() as int) =~= lv);
    }
    out
}

/// Whether a unit name is reportable: template units — names ending in
/// `@` — are skipped.
pub fn wants_unit(name: &str) -> (r: bool)
    ensures
        r == !(name@.len() > 0 && name@.last() == '@'),
{
    let n = name.unicode_len();
    if n == 0 {
        return true;
    }
    let c = name.get_char(n - 1);
    c != '@'
}

/// Whether a daemon is worth reporting: enabled, and neither dead nor of an
/// unrecognized state.
pub fn keep_daemon(d: &Daemon) -> (r: bool)
    ensures
        r == (d@.state != State::Other && d@.state != State::Dead && d@.auto_start_status
            == AutoStartStatus::Enabled),
{
    let state_ok = match d.state {
        State::Other => false,
        State::Dead => false,
        _ => true,
    };
    let enabled = match d.auto_start_status {
        AutoStartStatus::Enabled => true,
        _ => false,
    };
    state_ok && enabled
}

/// The word a state serializes to.
pub open spec fn state_text(s: State) -> Seq<char> {
    match s {
        State::Other => "other"@,
        State::Running => "running"@,
        State::Failed => "failed"@,
        State::Exited => "exited"@,
        State::Dead => "dead"@,
    }
}

/// The word an auto-start status serializes to.
pub open spec fn auto_start_text(a: AutoStartStatus) -> Seq<char> {
    match a {
        AutoStartStatus::Other => "other"@,
        AutoStartStatus::Enabled => "enabled"@,
        AutoStartStatus::Disabled => "disabled"@,
    }
}

/// The JSON rendering of one reported daemon.
pub open spec fn daemon_json_of(d: DaemonView) -> Seq<char> {
    "{\"name\":"@ + json_quote_of(d.name) + ",\"state\":\""@ + state_text(d.state)
        + "\",\"autoStartStatus\":\""@ + auto_start_text(d.auto_start_status) + "\"}"@
}

/// The body of the reported daemons array.
pub open spec fn daemons_body(ds: Seq<DaemonView>) -> Seq<char>
    decreases ds.len(),
{
    if ds.len() == 0 {
        Seq::<char>::empty()
    } else if ds.len() == 1 {
        daemon_json_of(ds[0])
    } else {
        daemons_body(ds.drop_last()) + seq![','] + daemon_json_of(ds.last())
    }
}

/// The JSON rendering of the reported daemons list.
pub open spec fn daemons_json_of(ds: Seq<DaemonView>) -> Seq<char> {
    seq!['['] + daemons_body(ds) + seq![']']
}

/// Appends one daemon's JSON rendering.
fn push_daemon_json(out: &mut String, d: &Daemon)
    ensures
        final(out)@ == old(out)@ + daemon_json_of(d@),
{
    out.append("{\"name\":");
    push_json_quoted(out, d.name.as_str());
    out.append(",\"state\":\"");
    match d.state {
        State::Other => out.append("other"),
        State::Running => out.append("running"),
        State::Failed => out.append("failed"),
        State::Exited => out.append("exited"),
        State::Dead => out.append("dead"),
    }
    out.append("\",\"autoStartStatus\":\"");
    match d.auto_start_status {
        AutoStartStatus::Other => out.append("other"),
        AutoStartStatus::Enabled => out.append("enabled"),
        AutoStartStatus::Disabled => out.append("disabled"),
    }
    out.append("\"}");
    proof {
        assert(out@ =~= old(out)@ + daemon_json_of(d@));
    }
}

/// Renders the reported daemons list as its JSON payload.
pub fn render_daemons(ds: &Vec<Daemon>) -> (r: String)
    ensures
        r@ == daemons_json_of(ds@.map_values(|d: Daemon| d@)),
{
    let ghost dv = ds@.map_values(|d: Daemon| d@);
    let mut out = String::new();
    push_char(&mut out, '[');
    let mut i: usize = 0;
    while i < ds.len()
        invariant
            i <= ds@.len(),
            dv == ds@.map_values(|d: Daemon| d@),
            out@ == seq!['['] + daemons_body(dv.take(i as int)),
        decreases ds@.len() - i,
    {
        proof {
            assert(dv.take(i + 1).drop_last() =~= dv.take(i as int));
            assert(dv.take(i + 1).last() == dv[i as int]);
            assert(dv[i as int] == ds@[i as int]@);
        }
        if i > 0 {
            push_char(&mut out, ',');
        }
        push_daemon_json(&mut out, &ds[i]);
        proof {
            assert(out@ =~= seq!['['] + daemons_body(dv.take(i + 1)));
        }
        i = i + 1;
    }
    proof {
        assert(dv.take(ds@.len() as int) =~= dv);
    }
    push_char(&mut out, ']');
    proof {
        assert(out@ =~= daemons_json_of(dv));
    }
    out
}

/// What one desired-daemon object decodes to: it must carry a string
/// `name`, a boolean `started`, and a boolean `enabled`.
pub open spec fn desired_daemon_of(d: JsonData) -> Option<DesiredDaemonView> {
    match d {
        JsonData::Obj(es) => match (obj_field(es, "name"@), obj_field(es, "started"@), obj_field(
            es,
            "enabled"@,
        )) {
            (
                Option::Some(JsonData::Str(n)),
                Option::Some(JsonData::Bool(s)),
                Option::Some(JsonData::Bool(e)),
            ) => Option::Some(DesiredDaemonView { name: n, started: s, enabled: e }),
            _ => Option::None,
        },
        _ => Option::None,
    }
}

/// What a desired-configuration payload decodes to: an array of
/// desired-daemon objects, each well-formed.
pub open spec fn desired_daemons_of(d: JsonData) -> Option<Seq<DesiredDaemonView>> {
    match d {
        JsonData::Arr(es) => if forall|k: int|
            0 <= k < es.len() ==> desired_daemon_of(#[trigger] es[k]) is Some {
            Option::Some(Seq::new(es.len(), |k: int| desired_daemon_of(es[k]).unwrap()))
        } else {
            Option::None
        },
        _ => Option::None,
    }
}

/// Decodes one desired-daemon object.
fn decode_desired(v: &serde_json::Value) -> (r: Option<DesiredDaemon>)
    ensures
        match desired_daemon_of(crate::json::json_view(*v)) {
            Option::Some(dv) => r matches Option::Some(d) && d@ == dv,
            Option::None => r is None,
        },
{
    let name_v = match json_obj_get(v, "name") {
        Some(f) => f,
        None => {
            return None;
        },
    };
    let name = match json_as_str(name_v) {
        Some(s) => s,
        None => {
            return None;
        },
    };
    let started_v = match json_obj_get(v, "started") {
        Some(f) => f,
        None => {
            return None;
        },
    };
    let started = match json_as_bool(started_v) {
        Some(b) => b,
        None => {
            return None;
        },
    };
    let enabled_v = match json_obj_get(v, "enabled") {
        Some(f) => f,
        None => {
            return None;
        },
    };
    let enabled = match json_as_bool(enabled_v) {
        Some(b) => b,
        None => {
            return None;
        },
    };
    Some(DesiredDaemon { name: name.to_owned(), started, enabled })
}

/// Decodes a desired-configuration payload: `Some` exactly when the payload
/// is well-formed JSON of the desired shape.
pub fn parse_desired_daemons(payload: &str) -> (r: Option<Vec<DesiredDaemon>>)
    ensures
        match json_parse_of(payload@) {
            Option::Some(d) => match desired_daemons_of(d) {
                Option::Some(list) => r matches Option::Some(v) && v@.map_values(
                    |x: DesiredDaemon| x@,
                ) == list,
                Option::None => r is None,
            },
            Option::None => r is None,
        },
{
    let v = match json_parse(payload) {
        Some(v) => v,
        None => {
            return None;
        },
    };
    let elems = match json_as_array(&v) {
        Some(a) => a,
        None => {
            return None;
        },
    };
    let ghost es = crate::json::json_view(v)->Arr_0;
    let n = elems.len();
    let mut out: Vec<DesiredDaemon> = Vec::new();
    let mut i: usize = 0;
    while i < n
        invariant
            i <= n,
            n == elems@.len(),
            json_parse_of(payload@) == Option::Some(crate::json::json_view(v)),
            crate::json::json_view(v) == JsonData::Arr(es),
            es.len() == n,
            forall|k: int| 0 <= k < n ==> crate::json::json_view(#[trigger] elems@[k]) == es[k],
            out@.len() == i,
            forall|k: int|
                0 <= k < i ==> (desired_daemon_of(#[trigger] es[k]) matches Option::Some(dv)
                    && out@[k]@ == dv),
        decreases n - i,
    {
        let d = match decode_desired(&elems[i]) {
            Some(d) => d,
            None => {
                proof {
                    assert(desired_daemon_of(es[i as int]) is None);
                }
                return None;
            },
        };
        out.push(d);
        i = i + 1;
    }
    proof {
        let list = desired_daemons_of(JsonData::Arr(es)).unwrap();
        assert forall|k: int| 0 <= k < n implies out@.map_values(|x: DesiredDaemon| x@)[k] == list[k]
        by {
            assert(out@.map_values(|x: DesiredDaemon| x@)[k] == out@[k]@);
        }
        assert(out@.map_values(|x: DesiredDaemon| x@) =~= list);
    }
    Some(out)
}

/// What a desired record asks the module to do.
#[derive(Clone, Copy, PartialEq, Eq, Structural, Debug)]
pub enum DaemonAction {
    Skip,
    EnableStart,
    StopEnable,
    StopDisable,
}

/// Decides the action a desired record asks for: a unit that does not exist
/// is skipped, a daemon asked to run while disabled is refused (skipped), a
/// running daemon is enabled and started, a stopped-but-enabled daemon is
/// stopped and left enabled, and a stopped, disabled daemon is stopped and
/// disabled.
pub fn plan_action(exists: bool, started: bool, enabled: bool) -> (r: DaemonAction)
    ensures
        !exists ==> r == DaemonAction::Skip,
        exists && started && !enabled ==> r == DaemonAction::Skip,
        exists && started && enabled ==> r == DaemonAction::EnableStart,
        exists && !started && enabled ==> r == DaemonAction::StopEnable,
        exists && !started && !enabled ==> r == DaemonAction::StopDisable,
{
    if !exists {
        DaemonAction::Skip
    } else if started && !enabled {
        DaemonAction::Skip
    } else if started {
        DaemonAction::EnableStart
    } else if enabled {
        DaemonAction::StopEnable
    } else {
        DaemonAction::StopDisable
    }
}

/// The abstract form of a reported daemon list.
pub open spec fn daemons_view(ds: Seq<Daemon>) -> Seq<DaemonView> {
    ds.map_values(|d: Daemon| d@)
}

/// Decides a host read from what the environment handed back: the verified
/// half of serving a get, exact in every case.  No service-manager boot is
/// the systemd error; a mismatched component or object name is the
/// invalid-argument error; an error from the daemon listing passes through;
/// a listing is rendered as JSON and delivered under the size limit.
pub fn get_report(
    booted: bool,
    component_name: &str,
    object_name: &str,
    daemons: Result<Vec<Daemon>, MmiError>,
    max: u32,
) -> (r: Result<String, MmiError>)
    ensures
        !booted ==> r == Err::<String, MmiError>(MmiError::SystemdError),
        booted && component_name@ != "SystemdDaemonConfiguration"@ ==> r == Err::<String, MmiError>(
            MmiError::InvalidArgument,
        ),
        booted && component_name@ == "SystemdDaemonConfiguration"@ && object_name@
            != "daemonConfiguration"@ ==> r == Err::<String, MmiError>(MmiError::InvalidArgument),
        booted && component_name@ == "SystemdDaemonConfiguration"@ && object_name@
            == "daemonConfiguration"@ ==> match daemons {
            Result::Ok(ds) => delivered(r, deliver_spec(daemons_json_of(daemons_view(ds@)), max)),
            Result::Err(e) => r == Err::<String, MmiError>(e),
        },
{
    if !booted {
        return Err(MmiError::SystemdError);
    }
    if !str_eq(component_name, "SystemdDaemonConfiguration") {
        return Err(MmiError::InvalidArgument);
    }
    if !str_eq(object_name, "daemonConfiguration") {
        return Err(MmiError::InvalidArgument);
    }
    let ds = match daemons {
        Ok(ds) => ds,
        Err(e) => {
            return Err(e);
        },
    };
    let payload = render_daemons(&ds);
    deliver_payload(payload, max)
}

/// Whether a set payload decodes as a desired-daemon list.
pub open spec fn payload_decodes(p: Seq<char>) -> bool {
    match json_parse_of(p) {
        Option::Some(d) => desired_daemons_of(d) is Some,
        Option::None => false,
    }
}

/// The daemon-configuration module: a size limit and the caller's service
/// manager.
pub struct DaemonConfiguration<SystemCaller: SystemctlInfo> {
    max_payload_size_bytes: u32,
    system_caller: SystemCaller,
}

impl<SystemCaller: SystemctlInfo> DaemonConfiguration<SystemCaller> {
    /// The size limit this module was opened with.
    pub closed spec fn max_spec(&self) -> u32 {
        self.max_payload_size_bytes
    }

    /// Builds the module with its size limit and service manager.
    pub fn new(max_payload_size_bytes: u32, system_caller: SystemCaller) -> (r:
        DaemonConfiguration<SystemCaller>)
        ensures
            r.max_spec() == max_payload_size_bytes,
    {
        DaemonConfiguration { max_payload_size_bytes, system_caller }
    }

    /// The module's metadata payload; the client name plays no part in it.
    pub fn get_info(_client_name: &str) -> (r: Result<&'static str, MmiError>)
        ensures
            r matches Ok(s) && s@ == DAEMON_INFO@,
    {
        Ok(DAEMON_INFO)
    }

    /// The size limit this module was opened with.
    pub fn get_max_payload_size_bytes(&self) -> (r: u32)
        ensures
            r == self.max_spec(),
    {
        self.max_payload_size_bytes
    }

    /// Serves a host read: without a service-manager boot the module reports
    /// the systemd error; the component and object names must match; the
    /// daemons the service manager reports are rendered as JSON and
    /// delivered under the size limit.
    pub fn get(&self, component_name: &str, object_name: &str) -> (r: Result<String, MmiError>)
        ensures
            component_name@ != "SystemdDaemonConfiguration"@ ==> (r == Err::<String, MmiError>(
                MmiError::InvalidArgument,
            ) || r == Err::<String, MmiError>(MmiError::SystemdError)),
            object_name@ != "daemonConfiguration"@ ==> (r == Err::<String, MmiError>(
                MmiError::InvalidArgument,
            ) || r == Err::<String, MmiError>(MmiError::SystemdError)),
            r matches Ok(p) ==> exists|ds: Seq<DaemonView>|
                deliver_spec(daemons_json_of(ds), self.max_spec()) == Ok::<Seq<char>, MmiError>(
                    p@,
                ),
    {
        if !self.system_caller.booted() {
            return Err(MmiError::SystemdError);
        }
        if !str_eq(component_name, "SystemdDaemonConfiguration") {
            return Err(MmiError::InvalidArgument);
        }
        if !str_eq(object_name, "daemonConfiguration") {
            return Err(MmiError::InvalidArgument);
        }
        let daemons = self.system_caller.get_daemons();
        let ghost dsv = match &daemons {
            Result::Ok(ds) => daemons_view(ds@),
            Result::Err(_) => Seq::<DaemonView>::empty(),
        };
        let r = get_report(
            true,
            component_name,
            object_name,
            daemons,
            self.max_payload_size_bytes,
        );
        proof {
            if r is Ok {
                assert(deliver_spec(daemons_json_of(dsv), self.max_spec()) matches Ok(p) && p
                    == r.unwrap()@);
            }
        }
        r
    }

    /// Serves a host write: without a service-manager boot the module
    /// reports the systemd error; the component and object names must match
    /// and the payload must fit the size limit, on pain of the
    /// invalid-argument error; a payload that does not decode as a desired
    /// configuration earns the serde error; the decoded records are applied
    /// one by one through the service manager, each according to its planned
    /// action, and success comes only once every check and decode passed.
    pub fn set(&mut self, component_name: &str, object_name: &str, payload: &str) -> (r: Result<
        i32,
        MmiError,
    >)
        ensures
            final(self).max_spec() == old(self).max_spec(),
            component_name@ != "SystemdDaemonConfiguration"@ ==> (r == Err::<i32, MmiError>(
                MmiError::InvalidArgument,
            ) || r == Err::<i32, MmiError>(MmiError::SystemdError)),
            object_name@ != "desiredDaemonConfiguration"@ ==> (r == Err::<i32, MmiError>(
                MmiError::InvalidArgument,
            ) || r == Err::<i32, MmiError>(MmiError::SystemdError)),
            component_name@ == "SystemdDaemonConfiguration"@ && object_name@
                == "desiredDaemonConfiguration"@ && old(self).max_spec() != 0 && byte_len(payload@)
                > old(self).max_spec() ==> (r == Err::<i32, MmiError>(MmiError::InvalidArgument)
                || r == Err::<i32, MmiError>(MmiError::SystemdError)),
            component_name@ == "SystemdDaemonConfiguration"@ && object_name@
                == "desiredDaemonConfiguration"@ && !(old(self).max_spec() != 0 && byte_len(
                payload@,
            ) > old(self).max_spec()) && !payload_decodes(payload@) ==> (r == Err::<i32, MmiError>(
                MmiError::SerdeError,
            ) || r == Err::<i32, MmiError>(MmiError::SystemdError)),
            r is Ok ==> r == Ok::<i32, MmiError>(0) && component_name@
                == "SystemdDaemonConfiguration"@ && object_name@ == "desiredDaemonConfiguration"@
                && !(old(self).max_spec() != 0 && byte_len(payload@) > old(self).max_spec())
                && payload_decodes(payload@),
    {
        if !self.system_caller.booted() {
            return Err(MmiError::SystemdError);
        }
        if !str_eq(component_name, "SystemdDaemonConfiguration") {
            return Err(MmiError::InvalidArgument);
        }
        if !str_eq(object_name, "desiredDaemonConfiguration") {
            return Err(MmiError::InvalidArgument);
        }
        if self.max_payload_size_bytes != 0 && exceeds_bytes(payload, self.max_payload_size_bytes) {
            return Err(MmiError::InvalidArgument);
        }
        let desired = match parse_desired_daemons(payload) {
            Some(ds) => ds,
            None => {
                return Err(MmiError::SerdeError);
            },
        };
        let mut i: usize = 0;
        while i < desired.len()
            invariant
                self.max_payload_size_bytes == old(self).max_payload_size_bytes,
                component_name@ == "SystemdDaemonConfiguration"@,
                object_name@ == "desiredDaemonConfiguration"@,
                !(old(self).max_payload_size_bytes != 0 && byte_len(payload@) > old(
                    self,
                ).max_payload_size_bytes),
                payload_decodes(payload@),
            decreases desired@.len() - i,
        {
            let d = &desired[i];
            let present = match self.system_caller.unit_exists(d.name.as_str()) {
                Ok(b) => b,
                Err(e) => {
                    return Err(e);
                },
            };
            match plan_action(present, d.started, d.enabled) {
                DaemonAction::Skip => {},
                DaemonAction::EnableStart => {
                    match self.system_caller.enable(d.name.as_str()) {
                        Ok(_) => {},
                        Err(e) => {
                            return Err(e);
                        },
                    }
                    match self.system_caller.start(d.name.as_str()) {
                        Ok(_) => {},
                        Err(e) => {
                            return Err(e);
                        },
                    }
                },
                DaemonAction::StopEnable => {
                    match self.system_caller.stop(d.name.as_str()) {
                        Ok(_) => {},
                        Err(e) => {
                            return Err(e);
                        },
                    }
                    match self.system_caller.enable(d.name.as_str()) {
                        Ok(_) => {},
                        Err(e) => {
                            return Err(e);
                        },
                    }
                },
                DaemonAction::StopDisable => {
                    match self.system_caller.stop(d.name.as_str()) {
                        Ok(_) => {},
                        Err(e) => {
                            return Err(e);
                        },
                    }
                    match self.system_caller.disable(d.name.as_str()) {
                        Ok(_) => {},
                        Err(e) => {
                            return Err(e);
                        },
                    }
                },
            }
            i = i + 1;
        }
        Ok(0)
    }
}

} // verus!
