//! Installed software and device state, read from what the host shows.

use vstd::prelude::*;
use crate::text::{
    chars_of, contains_seq, is_prefix, lines_of, lines_vec, str_eq, string_from_chars, to_lower, trim_chars,
    trim_seq, unicode_lower, vec_contains, vec_skip, vec_starts_with,
};

verus! {

/// An installed package.
#[derive(Debug, Clone)]
pub struct InstalledSoftware {
    pub name: String,
    pub version: String,
}

/// Reading state of the dpkg status file: package name, version, whether
/// it is installed, and the packages found so far.
pub struct DpkgState {
    pub name: Seq<char>,
    pub version: Seq<char>,
    pub installed: bool,
    pub found: Seq<(Seq<char>, Seq<char>)>,
}

/// What one line does: `Package: ` starts a package, `Version: ` and
/// `Status: ` describe it, and an empty line ends it, recording it when it
/// is installed and named.
pub open spec fn dpkg_step(st: DpkgState, line: Seq<char>) -> DpkgState {
    if is_prefix("Package: "@, line) {
        DpkgState { name: trim_seq(line.skip(9)), version: seq![], installed: false, ..st }
    } else if is_prefix("Version: "@, line) {
        DpkgState { version: trim_seq(line.skip(9)), ..st }
    } else if is_prefix("Status: "@, line) {
        DpkgState { installed: contains_seq(line.skip(8), "install ok installed"@), ..st }
    } else if line.len() == 0 && st.installed && st.name.len() > 0 {
        DpkgState { found: st.found.push((st.name, st.version)), ..st }
    } else {
        st
    }
}

pub open spec fn dpkg_fold(lines: Seq<Seq<char>>, st: DpkgState) -> DpkgState
    decreases lines.len(),
{
    if lines.len() == 0 {
        st
    } else {
        dpkg_fold(lines.drop_first(), dpkg_step(st, lines[0]))
    }
}

/// The installed packages a dpkg status file lists.
pub open spec fn dpkg_packages(content: Seq<char>) -> Seq<(Seq<char>, Seq<char>)> {
    dpkg_fold(lines_of(content), DpkgState { name: seq![], version: seq![], installed: false, found: seq![] }).found
}

pub open spec fn software_view(v: Seq<InstalledSoftware>) -> Seq<(Seq<char>, Seq<char>)> {
    v.map_values(|s: InstalledSoftware| (s.name@, s.version@))
}

proof fn lemma_fold_split(lines: Seq<Seq<char>>, i: int, st: DpkgState)
    requires
        0 <= i < lines.len(),
    ensures
        dpkg_fold(lines.skip(i), st) == dpkg_fold(lines.skip(i + 1), dpkg_step(st, lines[i])),
{
    assert(lines.skip(i).drop_first() =~= lines.skip(i + 1));
}

/// The installed packages of a dpkg status file (`/var/lib/dpkg/status`).
pub fn parse_dpkg_status(content: &str) -> (r: Vec<InstalledSoftware>)
    ensures
        software_view(r@) == dpkg_packages(content@),
{
    let cs = chars_of(content);
    let lines = lines_vec(&cs);
    let ghost ls = lines@.map_values(|l: Vec<char>| l@);
    let pkg = chars_of("Package: ");
    let ver = chars_of("Version: ");
    let sta = chars_of("Status: ");
    let marker = chars_of("install ok installed");
    proof {
        reveal_strlit("Package: ");
        reveal_strlit("Version: ");
        reveal_strlit("Status: ");
    }
    let mut result: Vec<InstalledSoftware> = Vec::new();
    let mut name: Vec<char> = Vec::new();
    let mut version: Vec<char> = Vec::new();
    let mut installed = false;
    let mut i: usize = 0;
    assert(ls.skip(0) =~= ls);
    assert(name@ =~= seq![]);
    assert(version@ =~= seq![]);
    assert(software_view(result@) =~= seq![]);
    while i < lines.len()
        invariant
            i <= lines@.len() == ls.len(),
            ls == lines@.map_values(|l: Vec<char>| l@),
            ls == lines_of(content@),
            pkg@ == "Package: "@,
            ver@ == "Version: "@,
            sta@ == "Status: "@,
            marker@ == "install ok installed"@,
            pkg@.len() == 9,
            ver@.len() == 9,
            sta@.len() == 8,
            dpkg_fold(
                ls.skip(i as int),
                DpkgState { name: name@, version: version@, installed, found: software_view(result@) },
            ) == dpkg_fold(ls, DpkgState { name: seq![], version: seq![], installed: false, found: seq![] }),
        decreases lines@.len() - i,
    {
        let line = &lines[i];
        let ghost st = DpkgState { name: name@, version: version@, installed, found: software_view(result@) };
        proof {
            lemma_fold_split(ls, i as int, st);
            assert(ls[i as int] == line@);
        }
        if vec_starts_with(line, &pkg) {
            name = trim_chars(&vec_skip(line, 9));
            version = Vec::new();
            installed = false;
        } else if vec_starts_with(line, &ver) {
            version = trim_chars(&vec_skip(line, 9));
        } else if vec_starts_with(line, &sta) {
            installed = vec_contains(&vec_skip(line, 8), &marker);
        } else if line.len() == 0 && installed && name.len() > 0 {
            let ghost before = software_view(result@);
            result.push(
                InstalledSoftware {
                    name: string_from_chars(clone_chars(&name)),
                    version: string_from_chars(clone_chars(&version)),
                },
            );
            assert(software_view(result@) =~= before.push((name@, version@)));
        }
        assert(version@ =~= dpkg_step(st, line@).version);
        i = i + 1;
    }
    assert(ls.skip(i as int) =~= seq![]);
    result
}

fn clone_chars(v: &Vec<char>) -> (r: Vec<char>)
    ensures
        r@ == v@,
{
    crate::text::vec_slice(v, 0, v.len())
}

/// Whether a directory entry is a real one (not hidden).
pub open spec fn visible_entry(name: Seq<char>) -> bool {
    !(name.len() > 0 && name[0] == '.')
}

pub open spec fn any_visible(names: Seq<String>) -> bool {
    exists|i: int| 0 <= i < names.len() && visible_entry(#[trigger] names[i]@)
}

fn has_visible(names: &Vec<String>) -> (r: bool)
    ensures
        r == any_visible(names@),
{
    let mut i: usize = 0;
    while i < names.len()
        invariant
            i <= names@.len(),
            forall|k: int| 0 <= k < i ==> !visible_entry(#[trigger] names@[k]@),
        decreases names@.len() - i,
    {
        let cs = chars_of(names[i].as_str());
        if !(cs.len() > 0 && cs[0] == '.') {
            assert(visible_entry(names@[i as int]@));
            return true;
        }
        i = i + 1;
    }
    false
}

/// Whether a USB storage device is attached, from the entries of the
/// usb-storage driver directory (`None` when it cannot be read).
pub fn usb_storage_enabled(driver_entries: Option<Vec<String>>) -> (r: bool)
    ensures
        r == (match driver_entries {
            Some(v) => any_visible(v@),
            None => false,
        }),
{
    match driver_entries {
        Some(v) => has_visible(&v),
        None => false,
    }
}

/// Whether a Bluetooth controller is registered, from the entries of the
/// Bluetooth class directory (`None` when it cannot be read).
pub fn bluetooth_enabled(class_entries: Option<Vec<String>>) -> (r: bool)
    ensures
        r == (match class_entries {
            Some(v) => any_visible(v@),
            None => false,
        }),
{
    match class_entries {
        Some(v) => has_visible(&v),
        None => false,
    }
}

/// Whether a process command name is a file-sharing server.
pub open spec fn sharing_process(comm: Seq<char>) -> bool {
    let t = trim_seq(comm);
    t == "smbd"@ || t == "nfsd"@ || t == "nfs-server"@
}

pub open spec fn any_sharing(comms: Seq<Option<String>>) -> bool {
    exists|i: int| 0 <= i < comms.len() && (#[trigger] comms[i] matches Some(c) && sharing_process(c@))
}

/// Whether an SMB or NFS server runs, from the command names of the
/// running processes (`None` for a process whose name could not be read).
pub fn folder_sharing_enabled(comms: Vec<Option<String>>) -> (r: bool)
    ensures
        r == any_sharing(comms@),
{
    let mut i: usize = 0;
    while i < comms.len()
        invariant
            i <= comms@.len(),
            forall|k: int| 0 <= k < i ==> !(#[trigger] comms@[k] matches Some(c) && sharing_process(c@)),
        decreases comms@.len() - i,
    {
        if let Some(c) = &comms[i] {
            let t = trim_chars(&chars_of(c.as_str()));
            let ts = string_from_chars(t);
            if str_eq(ts.as_str(), "smbd") || str_eq(ts.as_str(), "nfsd") || str_eq(ts.as_str(), "nfs-server") {
                assert(sharing_process(c@));
                return true;
            }
        }
        i = i + 1;
    }
    false
}

/// The packages of `rpm -qa` output in `NAME\tVERSION` lines: empty lines
/// skipped, both fields trimmed, a missing version empty.
pub open spec fn rpm_line(l: Seq<char>) -> (Seq<char>, Seq<char>) {
    let t = crate::text::char_pos(l, '\t', 0);
    if t >= l.len() {
        (trim_seq(l), seq![])
    } else {
        (trim_seq(l.take(t)), trim_seq(l.skip(t + 1)))
    }
}

pub open spec fn rpm_packages_from(ls: Seq<Seq<char>>) -> Seq<(Seq<char>, Seq<char>)>
    decreases ls.len(),
{
    if ls.len() == 0 {
        seq![]
    } else if ls.last().len() == 0 {
        rpm_packages_from(ls.drop_last())
    } else {
        rpm_packages_from(ls.drop_last()).push(rpm_line(ls.last()))
    }
}

/// The packages `rpm -qa --queryformat "%{NAME}\t%{VERSION}\n"` lists.
pub fn parse_rpm_list(output: &str) -> (r: Vec<InstalledSoftware>)
    ensures
        software_view(r@) == rpm_packages_from(lines_of(output@)),
{
    let cs = chars_of(output);
    let lines = lines_vec(&cs);
    let ghost ls = lines@.map_values(|l: Vec<char>| l@);
    let mut out: Vec<InstalledSoftware> = Vec::new();
    let mut i: usize = 0;
    while i < lines.len()
        invariant
            i <= lines@.len() == ls.len(),
            ls == lines@.map_values(|l: Vec<char>| l@),
            software_view(out@) == rpm_packages_from(ls.take(i as int)),
        decreases lines@.len() - i,
    {
        let line = &lines[i];
        proof {
            assert(ls.take(i + 1).drop_last() =~= ls.take(i as int));
            assert(ls.take(i + 1).last() == line@);
        }
        if line.len() > 0 {
            let t = crate::text::find_char(line, '\t', 0);
            let (name, version) = if t >= line.len() {
                (trim_chars(line), Vec::new())
            } else {
                (trim_chars(&crate::text::vec_slice(line, 0, t)), trim_chars(&vec_skip(line, t + 1)))
            };
            proof {
                assert(line@.take(t as int) =~= line@.subrange(0, t as int));
                assert(line@.skip(t + 1) =~= line@.subrange(t + 1, line@.len() as int));
                assert(t >= line@.len() ==> version@ =~= seq![]);
            }
            let ghost before = software_view(out@);
            out.push(InstalledSoftware { name: string_from_chars(name), version: string_from_chars(version) });
            assert(software_view(out@) =~= before.push(rpm_line(line@)));
        }
        i = i + 1;
    }
    assert(ls.take(ls.len() as int) =~= ls);
    out
}

/// The installed software of a Linux host: the dpkg status file when it
/// can be read, else the `rpm` listing when `rpm` succeeded, else nothing.
pub fn collect_installed_software(dpkg_status: Option<&str>, rpm_output: Option<&str>) -> (r: Vec<InstalledSoftware>)
    ensures
        software_view(r@) == (match dpkg_status {
            Some(c) => dpkg_packages(c@),
            None => match rpm_output {
                Some(o) => rpm_packages_from(lines_of(o@)),
                None => seq![],
            },
        }),
{
    match dpkg_status {
        Some(c) => parse_dpkg_status(c),
        None => match rpm_output {
            Some(o) => parse_rpm_list(o),
            None => {
                let v: Vec<InstalledSoftware> = Vec::new();
                assert(software_view(v@) =~= seq![]);
                v
            },
        },
    }
}

/// Whether a PowerShell query printed `True` (Windows device checks).
pub fn powershell_true(stdout: &str) -> (r: bool)
    ensures
        r == (trim_seq(stdout@) == "True"@),
{
    let t = string_from_chars(trim_chars(&chars_of(stdout)));
    str_eq(t.as_str(), "True")
}

/// Whether `system_profiler SPUSBDataType` lists mass storage (macOS).
pub fn macos_usb_storage(stdout: &str) -> (r: bool)
    ensures
        r == contains_seq(unicode_lower(stdout@), "mass storage"@),
{
    crate::text::str_contains(to_lower(stdout).as_str(), "mass storage")
}

/// Whether `system_profiler SPBluetoothDataType` shows Bluetooth on (macOS).
pub fn macos_bluetooth(stdout: &str) -> (r: bool)
    ensures
        r == (contains_seq(unicode_lower(stdout@), "state: on"@) || contains_seq(
            unicode_lower(stdout@),
            "bluetooth power: on"@,
        )),
{
    let low = to_lower(stdout);
    crate::text::str_contains(low.as_str(), "state: on") || crate::text::str_contains(
        low.as_str(),
        "bluetooth power: on",
    )
}

/// Whether the launchd overrides leave `smbd` enabled (macOS).
pub fn macos_sharing(stdout: &str) -> (r: bool)
    ensures
        r == !contains_seq(unicode_lower(stdout@), "disabled = 1"@),
{
    !crate::text::str_contains(to_lower(stdout).as_str(), "disabled = 1")
}

} // verus!
