//! Naming rules of the host service manager: unit-name escaping, the
//! per-resource services target, the OCF wrapper service environment, and
//! unit activity states.

use vstd::prelude::*;

use crate::strutil::{find_char, is_digit, str_eq, str_to_string, substring};

verus! {

use crate::strutil::chars_to_string;

/// Lowercase hex digit of a value below sixteen.
pub open spec fn hex_lower(d: nat) -> char {
    if d == 0 {
        '0'
    } else if d == 1 {
        '1'
    } else if d == 2 {
        '2'
    } else if d == 3 {
        '3'
    } else if d == 4 {
        '4'
    } else if d == 5 {
        '5'
    } else if d == 6 {
        '6'
    } else if d == 7 {
        '7'
    } else if d == 8 {
        '8'
    } else if d == 9 {
        '9'
    } else if d == 10 {
        'a'
    } else if d == 11 {
        'b'
    } else if d == 12 {
        'c'
    } else if d == 13 {
        'd'
    } else if d == 14 {
        'e'
    } else {
        'f'
    }
}

fn hex_lower_char(d: u32) -> (r: char)
    requires
        d < 16,
    ensures
        r == hex_lower(d as nat),
{
    if d == 0 {
        '0'
    } else if d == 1 {
        '1'
    } else if d == 2 {
        '2'
    } else if d == 3 {
        '3'
    } else if d == 4 {
        '4'
    } else if d == 5 {
        '5'
    } else if d == 6 {
        '6'
    } else if d == 7 {
        '7'
    } else if d == 8 {
        '8'
    } else if d == 9 {
        '9'
    } else if d == 10 {
        'a'
    } else if d == 11 {
        'b'
    } else if d == 12 {
        'c'
    } else if d == 13 {
        'd'
    } else if d == 14 {
        'e'
    } else {
        'f'
    }
}

/// The UTF-8 bytes of one character.
pub open spec fn utf8_bytes(c: char) -> Seq<u8> {
    let n = c as nat;
    if n < 0x80 {
        seq![n as u8]
    } else if n < 0x800 {
        seq![(0xC0 + n / 0x40) as u8, (0x80 + n % 0x40) as u8]
    } else if n < 0x10000 {
        seq![
            (0xE0 + n / 0x1000) as u8,
            (0x80 + (n / 0x40) % 0x40) as u8,
            (0x80 + n % 0x40) as u8,
        ]
    } else {
        seq![
            (0xF0 + n / 0x40000) as u8,
            (0x80 + (n / 0x1000) % 0x40) as u8,
            (0x80 + (n / 0x40) % 0x40) as u8,
            (0x80 + n % 0x40) as u8,
        ]
    }
}

/// The `\xNN` escape of one byte, lowercase.
pub open spec fn escape_hex_byte(b: u8) -> Seq<char> {
    seq!['\\', 'x', hex_lower(b as nat / 16), hex_lower(b as nat % 16)]
}

/// A character spelled as the `\xNN` escapes of its UTF-8 bytes.
pub open spec fn escape_char_bytes(c: char) -> Seq<char> {
    let bs = utf8_bytes(c);
    if bs.len() == 1 {
        escape_hex_byte(bs[0])
    } else if bs.len() == 2 {
        escape_hex_byte(bs[0]) + escape_hex_byte(bs[1])
    } else if bs.len() == 3 {
        escape_hex_byte(bs[0]) + escape_hex_byte(bs[1]) + escape_hex_byte(bs[2])
    } else {
        escape_hex_byte(bs[0]) + escape_hex_byte(bs[1]) + escape_hex_byte(bs[2]) + escape_hex_byte(
            bs[3],
        )
    }
}

/// Pushes the `\xNN` escapes of the UTF-8 bytes of `c`.
fn push_escaped_char_bytes(out: &mut Vec<char>, c: char)
    ensures
        final(out)@ == old(out)@ + escape_char_bytes(c),
{
    let ghost before = out@;
    let n = c as u32;
    if n < 0x80 {
        out.push('\\');
        out.push('x');
        out.push(hex_lower_char(n / 16));
        out.push(hex_lower_char(n % 16));
        proof {
            assert(out@ =~= before + escape_char_bytes(c));
        }
    } else if n < 0x800 {
        let b0: u32 = 0xC0 + n / 0x40;
        let b1: u32 = 0x80 + n % 0x40;
        out.push('\\');
        out.push('x');
        out.push(hex_lower_char(b0 / 16));
        out.push(hex_lower_char(b0 % 16));
        out.push('\\');
        out.push('x');
        out.push(hex_lower_char(b1 / 16));
        out.push(hex_lower_char(b1 % 16));
        proof {
            assert(out@ =~= before + escape_char_bytes(c));
        }
    } else if n < 0x10000 {
        let b0: u32 = 0xE0 + n / 0x1000;
        let b1: u32 = 0x80 + (n / 0x40) % 0x40;
        let b2: u32 = 0x80 + n % 0x40;
        out.push('\\');
        out.push('x');
        out.push(hex_lower_char(b0 / 16));
        out.push(hex_lower_char(b0 % 16));
        out.push('\\');
        out.push('x');
        out.push(hex_lower_char(b1 / 16));
        out.push(hex_lower_char(b1 % 16));
        out.push('\\');
        out.push('x');
        out.push(hex_lower_char(b2 / 16));
        out.push(hex_lower_char(b2 % 16));
        proof {
            assert(out@ =~= before + escape_char_bytes(c));
        }
    } else {
        let b0: u32 = 0xF0 + n / 0x40000;
        let b1: u32 = 0x80 + (n / 0x1000) % 0x40;
        let b2: u32 = 0x80 + (n / 0x40) % 0x40;
        let b3: u32 = 0x80 + n % 0x40;
        out.push('\\');
        out.push('x');
        out.push(hex_lower_char(b0 / 16));
        out.push(hex_lower_char(b0 % 16));
        out.push('\\');
        out.push('x');
        out.push(hex_lower_char(b1 / 16));
        out.push(hex_lower_char(b1 % 16));
        out.push('\\');
        out.push('x');
        out.push(hex_lower_char(b2 / 16));
        out.push(hex_lower_char(b2 % 16));
        out.push('\\');
        out.push('x');
        out.push(hex_lower_char(b3 / 16));
        out.push(hex_lower_char(b3 % 16));
        proof {
            assert(out@ =~= before + escape_char_bytes(c));
        }
    }
}

/// The characters a unit name keeps as they are, position aside.
pub open spec fn is_name_plain(c: char) -> bool {
    c == ':' || c == '_' || is_digit(c) || ('a' as u32 <= c as u32 <= 'z' as u32) || ('A' as u32
        <= c as u32 <= 'Z' as u32)
}

fn name_plain_char(c: char) -> (r: bool)
    ensures
        r == is_name_plain(c),
{
    let n = c as u32;
    c == ':' || c == '_' || (n >= '0' as u32 && n <= '9' as u32) || (n >= 'a' as u32 && n
        <= 'z' as u32) || (n >= 'A' as u32 && n <= 'Z' as u32)
}

/// What one character becomes in an escaped unit name: a slash turns into a
/// dash, plain characters stay, a dot stays except in first position, and
/// everything else is spelled byte-wise.
pub open spec fn escape_name_char(c: char, first: bool) -> Seq<char> {
    if c == '/' {
        seq!['-']
    } else if is_name_plain(c) || (c == '.' && !first) {
        seq![c]
    } else {
        escape_char_bytes(c)
    }
}

/// The escaped unit name, character by character from position `i` on.
pub open spec fn escape_name_from(s: Seq<char>, i: int) -> Seq<char>
    decreases s.len() - i,
{
    if i < 0 || i >= s.len() {
        Seq::empty()
    } else {
        escape_name_char(s[i], i == 0) + escape_name_from(s, i + 1)
    }
}

/// The escape of a whole name in the service manager's convention.
pub open spec fn escape_name_spec(s: Seq<char>) -> Seq<char> {
    escape_name_from(s, 0)
}

/// Escapes a name with the service manager's string-escape convention, so
/// that drop-ins land beside the unit they belong to.
pub fn escape_name(name: &str) -> (r: String)
    ensures
        r@ == escape_name_spec(name@),
{
    let len = name.unicode_len();
    let mut out: Vec<char> = Vec::new();
    let mut i: usize = 0;
    proof {
        assert(out@ + escape_name_from(name@, 0) =~= escape_name_spec(name@));
    }
    while i < len
        invariant
            len == name@.len(),
            0 <= i <= len,
            out@ + escape_name_from(name@, i as int) == escape_name_spec(name@),
        decreases len - i,
    {
        let c = name.get_char(i);
        let ghost before = out@;
        if c == '/' {
            out.push('-');
        } else if name_plain_char(c) || (c == '.' && i > 0) {
            out.push(c);
        } else {
            push_escaped_char_bytes(&mut out, c);
        }
        proof {
            assert(out@ =~= before + escape_name_char(name@[i as int], i == 0));
            assert(before + escape_name_char(name@[i as int], i == 0) + escape_name_from(
                name@,
                i as int + 1,
            ) =~= before + (escape_name_char(name@[i as int], i == 0) + escape_name_from(
                name@,
                i as int + 1,
            )));
        }
        i = i + 1;
    }
    proof {
        assert(out@ + Seq::<char>::empty() =~= out@);
    }
    chars_to_string(&out)
}

/// What one character becomes in an escaped environment value: dots, slashes
/// and plain characters stay, everything else is spelled byte-wise.
pub open spec fn escape_env_char(c: char) -> Seq<char> {
    if c == '.' || c == '/' || is_name_plain(c) {
        seq![c]
    } else {
        escape_char_bytes(c)
    }
}

/// The escaped environment value, character by character from position `i`.
pub open spec fn escape_env_from(s: Seq<char>, i: int) -> Seq<char>
    decreases s.len() - i,
{
    if i < 0 || i >= s.len() {
        Seq::empty()
    } else {
        escape_env_char(s[i]) + escape_env_from(s, i + 1)
    }
}

/// The escape of a whole environment value.
pub open spec fn escape_env_spec(s: Seq<char>) -> Seq<char> {
    escape_env_from(s, 0)
}

/// Escapes a value for an `Environment=` line: a relaxed form of the name
/// escape that keeps dots and slashes.
pub fn escape_env(value: &str) -> (r: String)
    ensures
        r@ == escape_env_spec(value@),
{
    let len = value.unicode_len();
    let mut out: Vec<char> = Vec::new();
    let mut i: usize = 0;
    proof {
        assert(out@ + escape_env_from(value@, 0) =~= escape_env_spec(value@));
    }
    while i < len
        invariant
            len == value@.len(),
            0 <= i <= len,
            out@ + escape_env_from(value@, i as int) == escape_env_spec(value@),
        decreases len - i,
    {
        let c = value.get_char(i);
        let ghost before = out@;
        if c == '.' || c == '/' || name_plain_char(c) {
            out.push(c);
        } else {
            push_escaped_char_bytes(&mut out, c);
        }
        proof {
            assert(out@ =~= before + escape_env_char(value@[i as int]));
            assert(before + escape_env_char(value@[i as int]) + escape_env_from(
                value@,
                i as int + 1,
            ) =~= before + (escape_env_char(value@[i as int]) + escape_env_from(
                value@,
                i as int + 1,
            )));
        }
        i = i + 1;
    }
    proof {
        assert(out@ + Seq::<char>::empty() =~= out@);
    }
    chars_to_string(&out)
}

/// The services target unit of a resource.
pub open spec fn services_target_spec(name: Seq<char>) -> Seq<char> {
    "drbd-services@"@ + escape_name_spec(name) + ".target"@
}

/// The name of the aggregating target whose activation brings up the whole
/// service stack of the resource.
pub fn escaped_services_target(name: &str) -> (r: String)
    ensures
        r@ == services_target_spec(name@),
{
    let mut out = str_to_string("drbd-services@");
    let esc = escape_name(name);
    out.append(esc.as_str());
    out.append(".target");
    proof {
        assert(out@ =~= services_target_spec(name@));
    }
    out
}

} // verus!

verus! {

use crate::events::find_ch;
use crate::events::lemma_find_ch;

/// Splitting a command line into shell words, as POSIX quoting and escaping
/// rules have it; `None` stands for the unmatched-quote error.
pub uninterp spec fn shell_split(s: Seq<char>) -> Option<Seq<Seq<char>>>;

/// Relies on shell_words::split: POSIX shell word splitting, a pure function
/// of the input; its only error is an unmatched quote.
#[verifier::external_body]
fn shell_words_split(s: &str) -> (r: Option<Vec<String>>)
    ensures
        match r {
            Some(v) => shell_split(s@) == Some(v.deep_view()),
            None => shell_split(s@) is None,
        },
{
    match shell_words::split(s) {
        Ok(v) => Some(v),
        Err(_) => None,
    }
}

/// Why an OCF descriptor was rejected.
#[derive(Clone, Copy, PartialEq, Eq, Structural, Debug)]
pub enum OcfError {
    /// The argument string does not split as shell words.
    BadWords,
    /// The agent needs at least one argument, its name.
    NoAgentName,
}

impl OcfError {
    /// A short message naming the reason.
    pub fn text(&self) -> (r: &'static str)
        ensures
            r@ == self.spec_text(),
    {
        match self {
            OcfError::BadWords => "could not split OCF arguments as shell words",
            OcfError::NoAgentName => "agent needs at least one argument (its name)",
        }
    }

    pub open spec fn spec_text(&self) -> Seq<char> {
        match self {
            OcfError::BadWords => "could not split OCF arguments as shell words"@,
            OcfError::NoAgentName => "agent needs at least one argument (its name)"@,
        }
    }
}

/// The wrapper service instance name of an OCF agent run for a resource.
pub open spec fn ocf_service_name_spec(res: Seq<char>, ra: Seq<char>) -> Seq<char> {
    "ocf.ra@"@ + escape_name_spec(ra + seq!['_'] + res) + ".service"@
}

/// One `OCF_RESKEY_` environment line from one argument word.
pub open spec fn ocf_env_item(w: Seq<char>) -> Seq<char> {
    match find_ch(w, '=') {
        Some(i) => "OCF_RESKEY_"@ + w.take(i) + seq!['='] + escape_env_spec(w.skip(i + 1)),
        None => "OCF_RESKEY_"@ + w + seq!['='],
    }
}

/// The `AGENT=` line pointing at the agent script.
pub open spec fn ocf_agent_item(vendor: Seq<char>, agent: Seq<char>) -> Seq<char> {
    "AGENT=/usr/lib/ocf/resource.d/"@ + escape_env_spec(vendor) + seq!['/'] + escape_env_spec(agent)
}

/// The whole environment of the wrapper service: one `OCF_RESKEY_` line per
/// argument after the agent name, then the `AGENT=` line.
pub open spec fn ocf_env_spec(words: Seq<Seq<char>>, vendor: Seq<char>, agent: Seq<char>) -> Seq<
    Seq<char>,
>
    recommends
        words.len() >= 1,
{
    Seq::new((words.len() - 1) as nat, |i: int| ocf_env_item(words[i + 1])).push(
        ocf_agent_item(vendor, agent),
    )
}

/// Turns an OCF descriptor `ocf:<vendor>:<agent> <name> [k=v ...]` into the
/// wrapper service instance name and its environment lines. The arguments
/// are shell-word tokenized; the first is the agent instance name.
pub fn escaped_ocf_parse_to_env(name: &str, vendor: &str, agent: &str, args: &str) -> (r: Result<
    (String, Vec<String>),
    OcfError,
>)
    ensures
        match r {
            Ok(p) => ({
                let words = shell_split(args@);
                words is Some && words.unwrap().len() >= 1 && p.0@ == ocf_service_name_spec(
                    name@,
                    words.unwrap()[0],
                ) && p.1.deep_view() == ocf_env_spec(words.unwrap(), vendor@, agent@)
            }),
            Err(OcfError::BadWords) => shell_split(args@) is None,
            Err(OcfError::NoAgentName) => shell_split(args@) is Some && shell_split(
                args@,
            ).unwrap().len() == 0,
        },
{
    let words = match shell_words_split(args) {
        Some(w) => w,
        None => {
            return Err(OcfError::BadWords);
        },
    };
    if words.len() == 0 {
        return Err(OcfError::NoAgentName);
    }
    let ghost wordsv = shell_split(args@).unwrap();
    proof {
        assert(wordsv == words.deep_view());
        assert(wordsv[0] == words@[0]@);
    }
    let mut ra_name = words[0].clone();
    ra_name.append("_");
    ra_name.append(name);
    let mut service_name = str_to_string("ocf.ra@");
    let esc = escape_name(ra_name.as_str());
    service_name.append(esc.as_str());
    service_name.append(".service");
    proof {
        reveal_strlit("_");
        assert(ra_name@ =~= wordsv[0] + seq!['_'] + name@);
        assert(service_name@ =~= ocf_service_name_spec(name@, wordsv[0]));
    }
    let mut env: Vec<String> = Vec::new();
    let mut i: usize = 1;
    while i < words.len()
        invariant
            wordsv == words.deep_view(),
            1 <= i <= wordsv.len(),
            env.deep_view() == Seq::new((i - 1) as nat, |t: int| ocf_env_item(wordsv[t + 1])),
        decreases wordsv.len() - i,
    {
        let w = &words[i];
        proof {
            assert(w@ == wordsv[i as int]);
            lemma_find_ch(w@, '=');
        }
        let ghost before = env.deep_view();
        let wlen = w.as_str().unicode_len();
        match find_char(w.as_str(), '=') {
            Some(p) => {
                proof {
                    let fi = find_ch(w@, '=');
                    assert(fi is Some);
                    assert(fi.unwrap() == p as int);
                }
                let mut item = str_to_string("OCF_RESKEY_");
                let key = substring(w.as_str(), 0, p);
                item.append(key.as_str());
                item.append("=");
                let val = substring(w.as_str(), p + 1, wlen);
                let ev = escape_env(val.as_str());
                item.append(ev.as_str());
                proof {
                    reveal_strlit("=");
                    assert(w@.subrange(0, p as int) =~= w@.take(p as int));
                    assert(w@.subrange(p as int + 1, w@.len() as int) =~= w@.skip(p as int + 1));
                    assert(item@ =~= ocf_env_item(wordsv[i as int]));
                }
                env.push(item);
                proof {
                    assert(env.deep_view() =~= before.push(ocf_env_item(wordsv[i as int])));
                }
            },
            None => {
                proof {
                    if find_ch(w@, '=') is Some {
                        let ii = find_ch(w@, '=').unwrap();
                        assert(w@[ii] == '=');
                    }
                }
                let mut item = str_to_string("OCF_RESKEY_");
                item.append(w.as_str());
                item.append("=");
                proof {
                    reveal_strlit("=");
                    assert(item@ =~= ocf_env_item(wordsv[i as int]));
                }
                env.push(item);
                proof {
                    assert(env.deep_view() =~= before.push(ocf_env_item(wordsv[i as int])));
                }
            },
        }
        i = i + 1;
        proof {
            assert(env.deep_view() =~= Seq::new(
                (i - 1) as nat,
                |t: int| ocf_env_item(wordsv[t + 1]),
            ));
        }
    }
    let mut agent_line = str_to_string("AGENT=/usr/lib/ocf/resource.d/");
    let ev = escape_env(vendor);
    agent_line.append(ev.as_str());
    agent_line.append("/");
    let ea = escape_env(agent);
    agent_line.append(ea.as_str());
    proof {
        reveal_strlit("/");
        assert(agent_line@ =~= ocf_agent_item(vendor@, agent@));
    }
    let ghost before = env.deep_view();
    env.push(agent_line);
    proof {
        assert(env.deep_view() =~= before.push(ocf_agent_item(vendor@, agent@)));
        assert(env.deep_view() =~= ocf_env_spec(wordsv, vendor@, agent@));
    }
    Ok((service_name, env))
}

/// The activity state of one unit, as the service manager reports it.
#[derive(Clone, Copy, PartialEq, Eq, Structural, Debug)]
pub enum UnitActiveState {
    Active,
    Reloading,
    Inactive,
    Failed,
    Activating,
    Deactivating,
    Maintenance,
}

impl UnitActiveState {
    pub open spec fn spec_from_str(s: Seq<char>) -> Option<UnitActiveState> {
        if s == "active"@ {
            Some(UnitActiveState::Active)
        } else if s == "reloading"@ {
            Some(UnitActiveState::Reloading)
        } else if s == "inactive"@ {
            Some(UnitActiveState::Inactive)
        } else if s == "failed"@ {
            Some(UnitActiveState::Failed)
        } else if s == "activating"@ {
            Some(UnitActiveState::Activating)
        } else if s == "deactivating"@ {
            Some(UnitActiveState::Deactivating)
        } else if s == "maintenance"@ {
            Some(UnitActiveState::Maintenance)
        } else {
            None
        }
    }

    /// Parses the service manager's spelling of an activity state.
    pub fn from_str(s: &str) -> (r: Result<UnitActiveState, crate::drbd::StateParseError>)
        ensures
            match r {
                Ok(v) => UnitActiveState::spec_from_str(s@) == Some(v),
                Err(e) => UnitActiveState::spec_from_str(s@) is None && e
                    == crate::drbd::StateParseError::UnknownUnitActiveState,
            },
    {
        if str_eq(s, "active") {
            Ok(UnitActiveState::Active)
        } else if str_eq(s, "reloading") {
            Ok(UnitActiveState::Reloading)
        } else if str_eq(s, "inactive") {
            Ok(UnitActiveState::Inactive)
        } else if str_eq(s, "failed") {
            Ok(UnitActiveState::Failed)
        } else if str_eq(s, "activating") {
            Ok(UnitActiveState::Activating)
        } else if str_eq(s, "deactivating") {
            Ok(UnitActiveState::Deactivating)
        } else if str_eq(s, "maintenance") {
            Ok(UnitActiveState::Maintenance)
        } else {
            Err(crate::drbd::StateParseError::UnknownUnitActiveState)
        }
    }
}

/// Whether a reported activity state counts as active.
pub fn is_active(state: &UnitActiveState) -> (r: bool)
    ensures
        r == (*state == UnitActiveState::Active),
{
    *state == UnitActiveState::Active
}

} // verus!
