//! Application identifiers and the decoding of the names under which the
//! registry files an application.

use crate::environment::{
    begins_with_brace, ending_variables, interpolate, interpolate_among, interpolated_path,
    references_end, text_of,
};
use vstd::prelude::*;

verus! {

/// The counters that the taskbar keeps for one application.
#[derive(Clone, Debug)]
pub struct TaskBarApplication {
    pub id: TaskBarApplicationID,
    /// Number of times a running application had its badge icon updated (for example, to notify of unread mail)
    pub badge_updates: u32,
    /// Number of times an application pinned to the taskbar was run.
    pub executed_times: u32,
    /// Number of times an application switched focus (was left-clicked on the taskbar): minimized or maximized, as opposed to launched.
    pub app_switched: u32,
    /// Number of times an application was right-clicked on the taskbar
    pub show_jump_clicks: u32,
    /// Number of times built-in taskbar buttons were clicked (clock, Start button, ...)
    pub tray_clicks: u32,
}

/// The name under which an application is known, normalized so that two
/// spellings of one application compare equal.
#[derive(Clone, Debug, Eq, Hash, PartialOrd, Ord)]
pub enum TaskBarApplicationID {
    /// A program that follows the AUMID format
    AUMID(String),
    /// Executable path fully resolved
    Executable(String),
    /// A path that includes a CSIDL and cannot be resolved
    CsidlPath(String),
    /// A process that used the taskbar without AUMID
    Process(u32),
}

/// What a `TaskBarApplicationID` stands for: its variant and, for a text, its characters.
pub enum ApplicationIdentifier {
    AUMID(Seq<char>),
    Executable(Seq<char>),
    CsidlPath(Seq<char>),
    Process(u32),
}

/// What a `TaskBarApplication` stands for: the identifier and the five counters.
pub struct ApplicationUsage {
    pub id: ApplicationIdentifier,
    pub badge_updates: u32,
    pub executed_times: u32,
    pub app_switched: u32,
    pub show_jump_clicks: u32,
    pub tray_clicks: u32,
}

impl View for TaskBarApplicationID {
    type V = ApplicationIdentifier;

    open spec fn view(&self) -> ApplicationIdentifier {
        match self {
            TaskBarApplicationID::AUMID(text) => ApplicationIdentifier::AUMID(text@),
            TaskBarApplicationID::Executable(text) => ApplicationIdentifier::Executable(text@),
            TaskBarApplicationID::CsidlPath(text) => ApplicationIdentifier::CsidlPath(text@),
            TaskBarApplicationID::Process(pid) => ApplicationIdentifier::Process(*pid),
        }
    }
}

impl View for TaskBarApplication {
    type V = ApplicationUsage;

    open spec fn view(&self) -> ApplicationUsage {
        ApplicationUsage {
            id: self.id@,
            badge_updates: self.badge_updates,
            executed_times: self.executed_times,
            app_switched: self.app_switched,
            show_jump_clicks: self.show_jump_clicks,
            tray_clicks: self.tray_clicks,
        }
    }
}

impl PartialEq for TaskBarApplicationID {
    /// Two identifiers are equal when they are of one variant and hold the same text or number.
    fn eq(&self, other: &Self) -> (equal: bool) {
        match (self, other) {
            (TaskBarApplicationID::AUMID(a), TaskBarApplicationID::AUMID(b)) => *a == *b,
            (TaskBarApplicationID::Executable(a), TaskBarApplicationID::Executable(b)) => *a == *b,
            (TaskBarApplicationID::CsidlPath(a), TaskBarApplicationID::CsidlPath(b)) => *a == *b,
            (TaskBarApplicationID::Process(a), TaskBarApplicationID::Process(b)) => *a == *b,
            _ => false,
        }
    }
}

impl vstd::std_specs::cmp::PartialEqSpecImpl for TaskBarApplicationID {
    open spec fn obeys_eq_spec() -> bool {
        true
    }

    open spec fn eq_spec(&self, other: &Self) -> bool {
        self@ == other@
    }
}

/// Whether `raw` begins with the four characters `*PID`, which announce a process id.
pub open spec fn has_pid_prefix(raw: Seq<char>) -> bool {
    &&& raw.len() >= 4
    &&& raw[0] == '*'
    &&& raw[1] == 'P'
    &&& raw[2] == 'I'
    &&& raw[3] == 'D'
}

/// Whether `c` parts the steps of a path: `\` or `/`.
pub open spec fn is_separator(c: char) -> bool {
    c == '\\' || c == '/'
}

/// Whether `raw` holds a path separator.
pub open spec fn has_separator(raw: Seq<char>) -> bool {
    exists|i: int| 0 <= i < raw.len() && is_separator(#[trigger] raw[i])
}

/// The identifier of a name that may announce a process id: the process
/// where `*PID` is followed by a hexadecimal number of at most 32 bits, else
/// the whole name as an AUMID.
pub open spec fn process_identifier(raw: Seq<char>) -> ApplicationIdentifier {
    if has_pid_prefix(raw) {
        match decoded_process_id(raw.skip(4)) {
            Ok(pid) => ApplicationIdentifier::Process(pid),
            Err(_) => ApplicationIdentifier::AUMID(raw),
        }
    } else {
        ApplicationIdentifier::AUMID(raw)
    }
}

/// The identifier of a name where no environment is at hand: a process id
/// first, then a path, which is kept as it is written, and an AUMID otherwise.
pub open spec fn unresolved_identifier(raw: Seq<char>) -> ApplicationIdentifier {
    if has_pid_prefix(raw) {
        process_identifier(raw)
    } else if has_separator(raw) {
        ApplicationIdentifier::CsidlPath(raw)
    } else {
        ApplicationIdentifier::AUMID(raw)
    }
}

/// The identifier of a path, given what interpolation made of it: the
/// executable at the resolved path, or the path as it was written.
pub open spec fn path_identifier(raw: Seq<char>, interpolated: Option<Seq<char>>) -> ApplicationIdentifier {
    match interpolated {
        Some(resolved) => ApplicationIdentifier::Executable(resolved),
        None => ApplicationIdentifier::CsidlPath(raw),
    }
}

/// The identifier of the name `raw` for a user with the environment `env`.
/// The first of these that applies decides: a name that begins with `*PID`
/// is a process id, or an AUMID where the number cannot be read; a name
/// without a path separator is an AUMID; anything else is a path, which is
/// interpolated.
pub open spec fn resolved_identifier(
    raw: Seq<char>,
    env: Map<Seq<char>, Seq<char>>,
) -> ApplicationIdentifier {
    if has_pid_prefix(raw) {
        process_identifier(raw)
    } else if !has_separator(raw) {
        ApplicationIdentifier::AUMID(raw)
    } else {
        path_identifier(raw, interpolated_path(raw, env))
    }
}

/// Why a run of characters is not the hexadecimal form of a process id.
#[derive(Clone, Copy, Debug, PartialEq, Eq, Structural)]
pub enum DecodeError {
    /// A character is not one of `0-9`, `a-f`, `A-F`.
    InvalidDigit,
    /// Every character is a hexadecimal digit, but the number needs more than 32 bits.
    Overflow,
}

/// The value of one hexadecimal digit, in either case; `None` for any other character.
pub open spec fn hex_digit_value(c: char) -> Option<nat> {
    if '0' <= c && c <= '9' {
        Some((c as nat - '0' as nat) as nat)
    } else if 'a' <= c && c <= 'f' {
        Some((c as nat - 'a' as nat + 10) as nat)
    } else if 'A' <= c && c <= 'F' {
        Some((c as nat - 'A' as nat + 10) as nat)
    } else {
        None
    }
}

/// Whether every character of `digits` is a hexadecimal digit.
pub open spec fn all_hex_digits(digits: Seq<char>) -> bool {
    forall|i: int| 0 <= i < digits.len() ==> (#[trigger] hex_digit_value(digits[i])) is Some
}

/// Sixteen to the power `exponent`.
pub open spec fn pow16(exponent: nat) -> nat
    decreases exponent,
{
    if exponent == 0 {
        1
    } else {
        16 * pow16((exponent - 1) as nat)
    }
}

/// What the last `count` characters of `digits` add up to, read from the end
/// of the text toward its start: the digit `i` places before the end counts
/// `16^i` times its value. A character that is no digit counts as nothing.
pub open spec fn hex_tail_value(digits: Seq<char>, count: nat) -> nat
    recommends
        count <= digits.len(),
    decreases count,
{
    if count == 0 {
        0
    } else {
        let place = (count - 1) as nat;
        let digit = match hex_digit_value(digits[digits.len() - count]) {
            Some(v) => v,
            None => 0,
        };
        hex_tail_value(digits, place) + digit * pow16(place)
    }
}

/// The number that `digits` writes in base sixteen, most significant digit first.
pub open spec fn hex_value(digits: Seq<char>) -> nat {
    hex_tail_value(digits, digits.len())
}

/// The process id that `digits` encodes, or the reason why there is none.
/// The empty text encodes zero.
pub open spec fn decoded_process_id(digits: Seq<char>) -> Result<u32, DecodeError> {
    if !all_hex_digits(digits) {
        Err(DecodeError::InvalidDigit)
    } else if hex_value(digits) > u32::MAX {
        Err(DecodeError::Overflow)
    } else {
        Ok(hex_value(digits) as u32)
    }
}

/// The characters of `s`, in order.
pub(crate) fn chars_of(s: &str) -> (chars: Vec<char>)
    ensures
        chars@ == s@,
{
    let mut chars: Vec<char> = Vec::new();
    for c in it: s.chars()
        invariant
            it.seq() == s@,
            chars@ == s@.take(it.index() as int),
    {
        chars.push(c);
        assert(chars@ =~= s@.take(it.index() as int + 1));
    }
    chars
}

/// The value of the hexadecimal digit `c`.
fn hex_digit(c: char) -> (value: Option<u32>)
    ensures
        value is Some <==> hex_digit_value(c) is Some,
        value matches Some(v) ==> v <= 15 && hex_digit_value(c) == Some(v as nat),
{
    let code: u32 = c as u32;
    if 48 <= code && code <= 57 {
        Some(code - 48)
    } else if 97 <= code && code <= 102 {
        Some(code - 87)
    } else if 65 <= code && code <= 70 {
        Some(code - 55)
    } else {
        None
    }
}

/// The first eight powers of sixteen, and the ninth, which no `u32` reaches.
proof fn powers_of_sixteen()
    ensures
        pow16(0) == 1,
        pow16(1) == 0x10,
        pow16(2) == 0x100,
        pow16(3) == 0x1000,
        pow16(4) == 0x1_0000,
        pow16(5) == 0x10_0000,
        pow16(6) == 0x100_0000,
        pow16(7) == 0x1000_0000,
        pow16(8) == 0x1_0000_0000,
{
    reveal_with_fuel(pow16, 10);
}

/// Sixteen to a larger power is the larger number.
proof fn pow16_grows(low: nat, high: nat)
    requires
        low <= high,
    ensures
        pow16(low) <= pow16(high),
    decreases high,
{
    if low < high {
        pow16_grows(low, (high - 1) as nat);
    }
}

/// Reads a process id written in hexadecimal, most significant digit first.
///
/// The digits are read from the end of the text toward its start. A text
/// with a character that is no hexadecimal digit is refused as
/// `InvalidDigit`, whatever else it holds; one whose digits all are
/// hexadecimal but whose value needs more than 32 bits is refused as
/// `Overflow`. Leading zeros are free: they occupy a place and add nothing.
pub fn decode_hex_process(s: &str) -> (r: Result<u32, DecodeError>)
    ensures
        r == decoded_process_id(s@),
{
    let digits = chars_of(s);
    let n = digits.len();
    let mut value: u32 = 0;
    let mut weight: u64 = 1;
    let mut overflow = false;
    let mut k: usize = 0;
    proof {
        powers_of_sixteen();
    }
    while k < n
        invariant
            digits@ == s@,
            n == digits.len(),
            k <= n,
            forall|j: int| n - k <= j < n ==> (#[trigger] hex_digit_value(s@[j])) is Some,
            overflow <==> hex_tail_value(s@, k as nat) > u32::MAX,
            !overflow ==> value == hex_tail_value(s@, k as nat),
            k <= 8 ==> weight == pow16(k as nat) && hex_tail_value(s@, k as nat) < pow16(k as nat),
            k > 8 ==> weight == pow16(8),
        decreases n - k,
    {
        let c = digits[n - 1 - k];
        match hex_digit(c) {
            None => {
                return Err(DecodeError::InvalidDigit);
            },
            Some(d) => {
                proof {
                    powers_of_sixteen();
                    let before = hex_tail_value(s@, k as nat);
                    let after = hex_tail_value(s@, (k + 1) as nat);
                    let term = d * pow16(k as nat);
                    assert(s@[s@.len() - (k + 1)] == c);
                    assert(after == before + term);
                    if k < 8 {
                        pow16_grows(k as nat, 7);
                        pow16_grows((k + 1) as nat, 8);
                        assert(term <= 15 * pow16(k as nat)) by (nonlinear_arith)
                            requires
                                term == d * pow16(k as nat),
                                d <= 15,
                        ;
                        assert(pow16((k + 1) as nat) == 16 * pow16(k as nat));
                        assert(after < pow16((k + 1) as nat));
                    } else {
                        pow16_grows(8, k as nat);
                        assert(d != 0 ==> term >= pow16(k as nat)) by (nonlinear_arith)
                            requires
                                term == d * pow16(k as nat),
                        ;
                        assert(d == 0 ==> term == 0) by (nonlinear_arith)
                            requires
                                term == d * pow16(k as nat),
                        ;
                    }
                }
                if k < 8 {
                    let d64: u64 = d as u64;
                    assert(d64 * weight <= 15 * 0x1000_0000) by (nonlinear_arith)
                        requires
                            d64 <= 15,
                            weight <= 0x1000_0000,
                    ;
                    let term: u64 = d64 * weight;
                    value = value + term as u32;
                    weight = weight * 16;
                } else if d != 0 {
                    overflow = true;
                }
            },
        }
        k += 1;
    }
    if overflow {
        Err(DecodeError::Overflow)
    } else {
        Ok(value)
    }
}

/// Whether `s` begins with `*PID`.
fn starts_with_pid(s: &str) -> (found: bool)
    ensures
        found == has_pid_prefix(s@),
{
    let chars = chars_of(s);
    chars.len() >= 4 && chars[0] == '*' && chars[1] == 'P' && chars[2] == 'I' && chars[3] == 'D'
}

/// Whether `s` holds `\` or `/`.
fn contains_separator(s: &str) -> (found: bool)
    ensures
        found == has_separator(s@),
{
    let chars = chars_of(s);
    let mut i: usize = 0;
    while i < chars.len()
        invariant
            chars@ == s@,
            i <= chars.len(),
            forall|j: int| 0 <= j < i ==> !is_separator(#[trigger] s@[j]),
        decreases chars.len() - i,
    {
        if chars[i] == '\\' || chars[i] == '/' {
            return true;
        }
        i += 1;
    }
    false
}

impl TaskBarApplicationID {
    /// Reads a name that may announce a process id.
    ///
    /// A name that begins with `*PID` and goes on with a hexadecimal number
    /// of at most 32 bits gives that process. Any other name comes back as
    /// an AUMID, unchanged.
    pub fn from_pid(path: String) -> (id: Self)
        ensures
            id@ == process_identifier(path@),
            id is AUMID ==> id == TaskBarApplicationID::AUMID(path),
    {
        if !starts_with_pid(path.as_str()) {
            return TaskBarApplicationID::AUMID(path);
        }
        let length = path.as_str().unicode_len();
        let decoded = decode_hex_process(path.as_str().substring_char(4, length));
        match decoded {
            Ok(pid) => TaskBarApplicationID::Process(pid),
            Err(_) => TaskBarApplicationID::AUMID(path),
        }
    }

    /// The identifier of the path `path`, given what interpolation made of
    /// it: the executable at the resolved path, or `path` itself, kept as
    /// it was written, where there is none.
    pub fn from_interpolation(path: String, interpolated: Option<String>) -> (id: Self)
        ensures
            id == match interpolated {
                Some(resolved) => TaskBarApplicationID::Executable(resolved),
                None => TaskBarApplicationID::CsidlPath(path),
            },
            id@ == path_identifier(path@, text_of(interpolated)),
    {
        match interpolated {
            Some(resolved) => TaskBarApplicationID::Executable(resolved),
            None => TaskBarApplicationID::CsidlPath(path),
        }
    }

    /// `resolve_executable_path`, for a caller that holds the variables of
    /// the environment `env` whose references end in `kept`.
    pub(crate) fn resolve_among(
        path: String,
        kept: &forensic_rs::core::UserEnvVars,
        Ghost(env): Ghost<Map<Seq<char>, Seq<char>>>,
    ) -> (id: Self)
        requires
            kept.deep_view() == ending_variables(env),
            references_end(kept.deep_view()),
        ensures
            id@ == resolved_identifier(path@, env),
    {
        if starts_with_pid(path.as_str()) {
            return TaskBarApplicationID::from_pid(path);
        }
        if !contains_separator(path.as_str()) {
            return TaskBarApplicationID::AUMID(path);
        }
        let interpolated = interpolate_among(path.as_str(), kept, Ghost(env));
        TaskBarApplicationID::from_interpolation(path, interpolated)
    }

    /// Gets the identifier of a name found in the registry, resolving
    /// known-folder identifiers and environment variables.
    ///
    /// Never fails. A name without a path separator that does not begin
    /// with `*PID` comes back as an AUMID, unchanged. A path that cannot be
    /// resolved comes back as a `CsidlPath` that holds it as it was written.
    /// https://learn.microsoft.com/en-us/windows/win32/shell/knownfolderid
    pub fn resolve_executable_path(path: String, env_vars: &forensic_rs::core::UserEnvVars) -> (id:
        Self)
        ensures
            id@ == resolved_identifier(path@, env_vars.deep_view()),
            !has_pid_prefix(path@) && !has_separator(path@) ==> id == TaskBarApplicationID::AUMID(
                path,
            ),
            id is AUMID ==> id == TaskBarApplicationID::AUMID(path),
            id is CsidlPath ==> id == TaskBarApplicationID::CsidlPath(path),
    {
        if starts_with_pid(path.as_str()) {
            return TaskBarApplicationID::from_pid(path);
        }
        if !contains_separator(path.as_str()) {
            return TaskBarApplicationID::AUMID(path);
        }
        let interpolated = interpolate(path.as_str(), env_vars);
        TaskBarApplicationID::from_interpolation(path, interpolated)
    }
}

impl From<String> for TaskBarApplicationID {
    /// Reads a name without an environment: see `unresolved_identifier`.
    fn from(value: String) -> (id: Self)
        ensures
            id@ == unresolved_identifier(value@),
    {
        if starts_with_pid(value.as_str()) {
            return TaskBarApplicationID::from_pid(value);
        }
        if contains_separator(value.as_str()) {
            TaskBarApplicationID::CsidlPath(value)
        } else {
            TaskBarApplicationID::AUMID(value)
        }
    }
}

impl vstd::std_specs::convert::FromSpecImpl<String> for TaskBarApplicationID {
    open spec fn obeys_from_spec() -> bool {
        true
    }

    open spec fn from_spec(value: String) -> Self {
        if has_pid_prefix(value@) {
            match decoded_process_id(value@.skip(4)) {
                Ok(pid) => TaskBarApplicationID::Process(pid),
                Err(_) => TaskBarApplicationID::AUMID(value),
            }
        } else if has_separator(value@) {
            TaskBarApplicationID::CsidlPath(value)
        } else {
            TaskBarApplicationID::AUMID(value)
        }
    }
}

impl From<&str> for TaskBarApplicationID {
    /// Reads a name without an environment: see `unresolved_identifier`.
    fn from(value: &str) -> (id: Self)
        ensures
            id@ == unresolved_identifier(value@),
    {
        let owned: String = value.to_owned();
        let id: TaskBarApplicationID = owned.into();
        id
    }
}

impl vstd::std_specs::convert::FromSpecImpl<&str> for TaskBarApplicationID {
    /// The text of the result is a new one, which only its characters describe.
    open spec fn obeys_from_spec() -> bool {
        false
    }

    open spec fn from_spec(value: &str) -> Self {
        arbitrary()
    }
}

/// A name without a path separator that does not begin with `*PID` is an
/// AUMID and stays as it is, whatever the environment holds.
pub proof fn plain_name_is_aumid(raw: Seq<char>, env: Map<Seq<char>, Seq<char>>)
    requires
        !has_pid_prefix(raw),
        !has_separator(raw),
    ensures
        resolved_identifier(raw, env) == ApplicationIdentifier::AUMID(raw),
        unresolved_identifier(raw) == ApplicationIdentifier::AUMID(raw),
{
}

/// A path that begins with no known-folder identifier is the executable at
/// that very path, whatever the environment holds.
pub proof fn plain_path_is_executable(raw: Seq<char>, env: Map<Seq<char>, Seq<char>>)
    requires
        !has_pid_prefix(raw),
        has_separator(raw),
        !begins_with_brace(raw),
    ensures
        resolved_identifier(raw, env) == ApplicationIdentifier::Executable(raw),
{
}

/// A path that interpolation cannot resolve is kept as it was written:
/// nothing that was replaced on the way shows in the identifier.
pub proof fn unresolved_path_is_kept(raw: Seq<char>, env: Map<Seq<char>, Seq<char>>)
    requires
        !has_pid_prefix(raw),
        has_separator(raw),
        interpolated_path(raw, env) is None,
    ensures
        resolved_identifier(raw, env) == ApplicationIdentifier::CsidlPath(raw),
{
}

/// A name that begins with `*PID` never is a path: it is the process that
/// the digits behind `*PID` give, or else an AUMID that holds the whole name.
pub proof fn pid_name_is_process_or_aumid(raw: Seq<char>, env: Map<Seq<char>, Seq<char>>)
    requires
        has_pid_prefix(raw),
    ensures
        resolved_identifier(raw, env) == match decoded_process_id(raw.skip(4)) {
            Ok(pid) => ApplicationIdentifier::Process(pid),
            Err(_) => ApplicationIdentifier::AUMID(raw),
        },
        unresolved_identifier(raw) == resolved_identifier(raw, env),
{
}

} // verus!
