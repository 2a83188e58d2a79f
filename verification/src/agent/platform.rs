//! Host information and the primary MAC address, from what the agent reads
//! on each platform.

use vstd::prelude::*;
use vstd::string::StringSliceAdditionalSpecFns;
use crate::text::{
    char_pos, chars_of, contains_seq, find_char, is_prefix, lines_of, lines_vec, owned, replace_all,
    replace_chars, str_eq, string_from_chars, to_lower, trim_chars, trim_seq, unicode_lower, vec_contains,
    vec_skip, vec_slice, vec_starts_with,
};

verus! {

broadcast use vstd::string::group_string_axioms;

/// What the agent reports about its host.
#[derive(Debug, Clone)]
pub struct SystemInfo {
    pub hostname: String,
    pub os_name: String,
    pub os_version: String,
    pub cpu_cores: u32,
    pub mem_total_mb: u64,
    pub agent_version: String,
    /// MAC of the primary interface; empty when none was found.
    pub primary_mac: String,
}

/// A usable MAC text: seventeen bytes long and not all zeros.
pub open spec fn usable_mac(m: Seq<char>) -> bool {
    vstd::utf8::encode_utf8(m).len() == 17 && m != "00:00:00:00:00:00"@
}

fn is_usable_mac(m: &str) -> (r: bool)
    ensures
        r == usable_mac(m@),
{
    let n = m.as_bytes().len();
    n == 17 && !str_eq(m, "00:00:00:00:00:00")
}

/// The MAC in an interface's `address` file: its trimmed content, when
/// usable.
pub open spec fn linux_mac_spec(raw: Seq<char>) -> Option<Seq<char>> {
    if usable_mac(trim_seq(raw)) {
        Some(trim_seq(raw))
    } else {
        None
    }
}

pub fn linux_mac(raw: &str) -> (r: Option<String>)
    ensures
        match linux_mac_spec(raw@) {
            Some(m) => r matches Some(s) && s@ == m,
            None => r is None,
        },
{
    let t = string_from_chars(trim_chars(&chars_of(raw)));
    if is_usable_mac(t.as_str()) {
        Some(t)
    } else {
        None
    }
}

/// The first of the candidate interfaces' `address` contents (in the order
/// tried; `None` where unreadable) that holds a usable MAC; empty if none.
pub open spec fn first_linux_mac(reads: Seq<Option<String>>) -> Seq<char>
    decreases reads.len(),
{
    if reads.len() == 0 {
        seq![]
    } else {
        match reads[0] {
            Some(c) => match linux_mac_spec(c@) {
                Some(m) => m,
                None => first_linux_mac(reads.drop_first()),
            },
            None => first_linux_mac(reads.drop_first()),
        }
    }
}

/// The primary MAC of a Linux host, from the `address` files of the
/// candidate interfaces in the order tried.
pub fn collect_primary_mac(reads: Vec<Option<String>>) -> (r: String)
    ensures
        r@ == first_linux_mac(reads@),
{
    let mut i: usize = 0;
    assert(reads@.skip(0) =~= reads@);
    while i < reads.len()
        invariant
            i <= reads@.len(),
            first_linux_mac(reads@.skip(i as int)) == first_linux_mac(reads@),
        decreases reads@.len() - i,
    {
        proof {
            assert(reads@.skip(i as int).drop_first() =~= reads@.skip(i + 1));
        }
        if let Some(c) = &reads[i] {
            if let Some(m) = linux_mac(c.as_str()) {
                return m;
            }
        }
        i = i + 1;
    }
    assert(reads@.skip(i as int) =~= seq![]);
    String::new()
}

/// A text with every leading and trailing `"` removed.
pub open spec fn strip_quotes(s: Seq<char>) -> Seq<char>
    decreases s.len(),
{
    if s.len() > 0 && s[0] == '"' {
        strip_quotes(s.drop_first())
    } else if s.len() > 0 && s.last() == '"' {
        strip_quotes(s.drop_last())
    } else {
        s
    }
}

fn strip_quotes_vec(s: Vec<char>) -> (r: Vec<char>)
    ensures
        r@ == strip_quotes(s@),
    decreases s@.len(),
{
    if s.len() > 0 && s[0] == '"' {
        let rest = vec_skip(&s, 1);
        assert(rest@ =~= s@.drop_first());
        strip_quotes_vec(rest)
    } else if s.len() > 0 && s[s.len() - 1] == '"' {
        let mut t = s;
        t.pop();
        strip_quotes_vec(t)
    } else {
        s
    }
}

/// The MAC of one `getmac /fo csv /nh` line: its first field without
/// spaces and quotes, dashes turned to colons, lower-cased.
pub open spec fn getmac_field(line: Seq<char>) -> Seq<char> {
    let first = line.take(char_pos(line, ',', 0));
    unicode_lower(replace_all(strip_quotes(trim_seq(first)), "-"@, ":"@))
}

pub open spec fn first_getmac(ls: Seq<Seq<char>>) -> Seq<char>
    decreases ls.len(),
{
    if ls.len() == 0 {
        seq![]
    } else if usable_mac(getmac_field(ls[0])) {
        getmac_field(ls[0])
    } else {
        first_getmac(ls.drop_first())
    }
}

/// The primary MAC of a Windows host, from `getmac /fo csv /nh` output:
/// the first usable one; empty if none.
pub fn windows_primary_mac(output: &str) -> (r: String)
    ensures
        r@ == first_getmac(lines_of(output@)),
{
    let lines = lines_vec(&chars_of(output));
    let ghost ls = lines@.map_values(|l: Vec<char>| l@);
    let dash = chars_of("-");
    let colon = chars_of(":");
    proof {
        reveal_strlit("-");
    }
    let mut i: usize = 0;
    assert(ls.skip(0) =~= ls);
    while i < lines.len()
        invariant
            i <= lines@.len() == ls.len(),
            ls == lines@.map_values(|l: Vec<char>| l@),
            ls == lines_of(output@),
            dash@ == "-"@,
            dash@.len() == 1,
            colon@ == ":"@,
            first_getmac(ls.skip(i as int)) == first_getmac(ls),
        decreases lines@.len() - i,
    {
        let line = &lines[i];
        proof {
            assert(ls.skip(i as int).drop_first() =~= ls.skip(i + 1));
            assert(ls.skip(i as int)[0] == line@);
        }
        let comma = find_char(line, ',', 0);
        let first = vec_slice(line, 0, comma);
        assert(first@ =~= line@.take(char_pos(line@, ',', 0)));
        let bare = strip_quotes_vec(trim_chars(&first));
        let replaced = string_from_chars(replace_chars(&bare, &dash, &colon));
        let m = to_lower(replaced.as_str());
        assert(m@ == getmac_field(line@));
        if is_usable_mac(m.as_str()) {
            return m;
        }
        i = i + 1;
    }
    assert(ls.skip(i as int) =~= seq![]);
    String::new()
}

/// The MAC on a `networksetup -listallhardwareports` line naming an
/// Ethernet address: what follows the first colon, trimmed and
/// lower-cased.
pub open spec fn networksetup_field(line: Seq<char>) -> Seq<char> {
    let c = char_pos(line, ':', 0);
    let after = if c >= line.len() {
        seq![]
    } else {
        line.skip(c + 1)
    };
    unicode_lower(trim_seq(after))
}

pub open spec fn first_networksetup(ls: Seq<Seq<char>>) -> Seq<char>
    decreases ls.len(),
{
    if ls.len() == 0 {
        seq![]
    } else if contains_seq(ls[0], "Ethernet Address:"@) && usable_mac(networksetup_field(ls[0])) {
        networksetup_field(ls[0])
    } else {
        first_networksetup(ls.drop_first())
    }
}

/// The primary MAC of a macOS host, from `networksetup
/// -listallhardwareports` output: the first usable Ethernet address.
pub fn macos_primary_mac(output: &str) -> (r: String)
    ensures
        r@ == first_networksetup(lines_of(output@)),
{
    let lines = lines_vec(&chars_of(output));
    let ghost ls = lines@.map_values(|l: Vec<char>| l@);
    let label = chars_of("Ethernet Address:");
    let mut i: usize = 0;
    assert(ls.skip(0) =~= ls);
    while i < lines.len()
        invariant
            i <= lines@.len() == ls.len(),
            ls == lines@.map_values(|l: Vec<char>| l@),
            ls == lines_of(output@),
            label@ == "Ethernet Address:"@,
            first_networksetup(ls.skip(i as int)) == first_networksetup(ls),
        decreases lines@.len() - i,
    {
        let line = &lines[i];
        proof {
            assert(ls.skip(i as int).drop_first() =~= ls.skip(i + 1));
            assert(ls.skip(i as int)[0] == line@);
        }
        if vec_contains(line, &label) {
            let c = find_char(line, ':', 0);
            let after = if c >= line.len() {
                Vec::new()
            } else {
                vec_skip(line, c + 1)
            };
            assert(c >= line@.len() ==> after@ =~= seq![]);
            assert(c < line@.len() ==> after@ =~= line@.skip(c + 1));
            let t = string_from_chars(trim_chars(&after));
            let m = to_lower(t.as_str());
            assert(m@ == networksetup_field(line@));
            if is_usable_mac(m.as_str()) {
                return m;
            }
        }
        i = i + 1;
    }
    assert(ls.skip(i as int) =~= seq![]);
    String::new()
}

/// `s` with every leading copy of `p` removed.
pub open spec fn trim_start_matches(s: Seq<char>, p: Seq<char>) -> Seq<char>
    decreases s.len(),
{
    if p.len() > 0 && is_prefix(p, s) {
        trim_start_matches(s.skip(p.len() as int), p)
    } else {
        s
    }
}

fn trim_start_matches_vec(s: Vec<char>, p: &Vec<char>) -> (r: Vec<char>)
    ensures
        r@ == trim_start_matches(s@, p@),
    decreases s@.len(),
{
    if p.len() > 0 && vec_starts_with(&s, p) {
        let rest = vec_skip(&s, p.len());
        trim_start_matches_vec(rest, p)
    } else {
        s
    }
}

/// The OS name and version of a Windows host, from `Caption|Version`
/// output: the caption trimmed and without leading `Microsoft `, the
/// version trimmed; `Windows` and no version when there is no `|`.
pub open spec fn windows_os_spec(output: Seq<char>) -> (Seq<char>, Seq<char>) {
    let s = trim_seq(output);
    let bar = char_pos(s, '|', 0);
    if bar >= s.len() {
        ("Windows"@, seq![])
    } else {
        (trim_start_matches(trim_seq(s.take(bar)), "Microsoft "@), trim_seq(s.skip(bar + 1)))
    }
}

pub fn windows_os_info(output: &str) -> (r: (String, String))
    ensures
        (r.0@, r.1@) == windows_os_spec(output@),
{
    let s = trim_chars(&chars_of(output));
    let bar = find_char(&s, '|', 0);
    if bar >= s.len() {
        return (owned("Windows"), String::new());
    }
    let caption = trim_chars(&vec_slice(&s, 0, bar));
    assert(s@.take(bar as int) =~= s@.subrange(0, bar as int));
    let version = trim_chars(&vec_skip(&s, bar + 1));
    assert(s@.skip(bar + 1) =~= s@.subrange(bar + 1, s@.len() as int));
    let prefix = chars_of("Microsoft ");
    (string_from_chars(trim_start_matches_vec(caption, &prefix)), string_from_chars(version))
}

/// The host information from what the system reported (`None` where a
/// query failed): host name `unknown`, one core and no memory by default;
/// memory in megabytes from kilobytes.
pub fn system_info(
    hostname: Option<String>,
    cpu_num: Option<u32>,
    mem_total_kb: Option<u64>,
    os_name: String,
    os_version: String,
    agent_version: String,
    primary_mac: String,
) -> (r: SystemInfo)
    ensures
        r.hostname@ == (match hostname {
            Some(h) => h@,
            None => "unknown"@,
        }),
        r.cpu_cores == (match cpu_num {
            Some(c) => c,
            None => 1,
        }),
        r.mem_total_mb == (match mem_total_kb {
            Some(m) => m / 1024,
            None => 0,
        }),
        r.os_name@ == os_name@,
        r.os_version@ == os_version@,
        r.agent_version@ == agent_version@,
        r.primary_mac@ == primary_mac@,
{
    SystemInfo {
        hostname: match hostname {
            Some(h) => h,
            None => owned("unknown"),
        },
        os_name,
        os_version,
        cpu_cores: match cpu_num {
            Some(c) => c,
            None => 1,
        },
        mem_total_mb: match mem_total_kb {
            Some(m) => m / 1024,
            None => 0,
        },
        agent_version,
        primary_mac,
    }
}

/// The device id kept in the id file, when it holds one (trimmed, not
/// empty).
pub fn stored_device_id(content: Option<&str>) -> (r: Option<String>)
    ensures
        match content {
            Some(c) => if trim_seq(c@).len() > 0 {
                r matches Some(s) && s@ == trim_seq(c@)
            } else {
                r is None
            },
            None => r is None,
        },
{
    match content {
        Some(c) => {
            let t = trim_chars(&chars_of(c));
            if t.len() > 0 {
                Some(string_from_chars(t))
            } else {
                None
            }
        },
        None => None,
    }
}

} // verus!
