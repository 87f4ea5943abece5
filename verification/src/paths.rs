//! Where the connector looks for the Unlim CLI, and what a probe of it tells.
use vstd::prelude::*;
use crate::instances::CliOutput;
use crate::text::{decode_lossy, opt_view, with_detail, same_text, trim, trim_str, utf8_lossy};

verus! {

/// A file system path, as the base directory it starts from followed by the names
/// joined onto it.
pub struct UnlimPath {
    pub parts: Vec<String>,
}

impl View for UnlimPath {
    type V = Seq<Seq<char>>;

    open spec fn view(&self) -> Seq<Seq<char>> {
        self.parts@.map_values(|s: String| s@)
    }
}

/// The error when the AppData folder is unknown.
pub open spec fn no_appdata_message() -> Seq<char> {
    "AppDataフォルダを取得できません。"@
}

/// The folder the connector installs Unlim into, under `appdata`.
pub open spec fn managed_dir_of(appdata: Seq<char>) -> Seq<Seq<char>> {
    seq![appdata, "Woollest SMP Connector"@, "unlim"@]
}

/// The Unlim executable the connector installs, under `appdata`.
pub open spec fn managed_unlim_of(appdata: Seq<char>) -> Seq<Seq<char>> {
    managed_dir_of(appdata).push("unlim.exe"@)
}

/// A path from its parts.
fn path_of(parts: Vec<String>) -> (p: UnlimPath)
    ensures
        p.parts == parts,
{
    UnlimPath { parts }
}

/// The folder the connector installs Unlim into, given the AppData folder.
pub fn managed_dir(appdata: Option<String>) -> (r: Result<UnlimPath, String>)
    ensures
        match appdata {
            Some(a) => r matches Ok(p) && p@ == managed_dir_of(a@),
            None => r matches Err(e) && e@ == no_appdata_message(),
        },
{
    match appdata {
        Some(a) => {
            let ghost av = a@;
            let mut parts: Vec<String> = Vec::new();
            parts.push(a);
            parts.push(String::from_str("Woollest SMP Connector"));
            parts.push(String::from_str("unlim"));
            let p = path_of(parts);
            assert(p@ =~= managed_dir_of(av));
            Ok(p)
        },
        None => Err(String::from_str("AppDataフォルダを取得できません。")),
    }
}

/// The Unlim executable the connector installs, given the AppData folder.
pub fn managed_unlim(appdata: Option<String>) -> (r: Result<UnlimPath, String>)
    ensures
        match appdata {
            Some(a) => r matches Ok(p) && p@ == managed_unlim_of(a@),
            None => r matches Err(e) && e@ == no_appdata_message(),
        },
{
    let dir = managed_dir(appdata);
    match dir {
        Ok(d) => {
            let ghost dv = d@;
            let mut parts = d.parts;
            parts.push(String::from_str("unlim.exe"));
            let p = path_of(parts);
            assert(p@ =~= dv.push("unlim.exe"@));
            Ok(p)
        },
        Err(e) => Err(e),
    }
}

/// The places where Unlim may be installed, in the order they are tried: the
/// connector's own copy (under `appdata_os`), `unlim.exe` on the search path, the
/// two places of the official installer under `local_appdata`, and the one under
/// `appdata`.
pub open spec fn candidates_of(
    appdata_os: Option<Seq<char>>,
    local_appdata: Option<Seq<char>>,
    appdata: Option<Seq<char>>,
) -> Seq<Seq<Seq<char>>> {
    let managed = match appdata_os {
        Some(a) => seq![managed_unlim_of(a)],
        None => Seq::empty(),
    };
    let local = match local_appdata {
        Some(l) => seq![seq![l, "Unlim"@, "unlim.exe"@], seq![l, "Unlim"@, "bin"@, "unlim.exe"@]],
        None => Seq::empty(),
    };
    let roaming = match appdata {
        Some(r) => seq![seq![r, "unlim"@, "bin"@, "unlim.exe"@]],
        None => Seq::empty(),
    };
    managed + seq![seq!["unlim.exe"@]] + local + roaming
}

/// `base` with the names `names` joined onto it.
fn path_under(base: &String, names: Vec<&str>) -> (p: UnlimPath)
    ensures
        p@ == seq![base@] + names@.map_values(|n: &str| n@),
{
    let mut parts: Vec<String> = Vec::new();
    parts.push(base.clone());
    let mut i: usize = 0;
    while i < names.len()
        invariant
            i <= names.len(),
            parts@.len() == i + 1,
            parts@.map_values(|s: String| s@) == seq![base@] + names@.take(i as int).map_values(
                |n: &str| n@,
            ),
        decreases names.len() - i,
    {
        let ghost before = parts@;
        let name: &str = names[i];
        parts.push(String::from_str(name));
        assert(names@.take(i + 1) =~= names@.take(i as int).push(name));
        assert(parts@ =~= before.push(parts@[i + 1]));
        assert(parts@.map_values(|s: String| s@) =~= before.map_values(|s: String| s@).push(name@));
        assert(names@.take(i + 1).map_values(|n: &str| n@) =~= names@.take(i as int).map_values(
            |n: &str| n@,
        ).push(name@));
        i = i + 1;
    }
    assert(names@.take(names.len() as int) =~= names@);
    path_of(parts)
}

/// The places where Unlim may be installed, in the order they are tried.
pub fn candidate_paths(
    appdata_os: Option<String>,
    local_appdata: Option<String>,
    appdata: Option<String>,
) -> (paths: Vec<UnlimPath>)
    ensures
        paths@.map_values(|p: UnlimPath| p@) == candidates_of(
            opt_view(appdata_os),
            opt_view(local_appdata),
            opt_view(appdata),
        ),
{
    let mut paths: Vec<UnlimPath> = Vec::new();
    let ghost a_v = opt_view(appdata_os);
    let ghost l_v = opt_view(local_appdata);
    let ghost r_v = opt_view(appdata);
    if let Ok(path) = managed_unlim(appdata_os) {
        paths.push(path);
    }
    let ghost after_managed = paths@.map_values(|p: UnlimPath| p@);
    assert(after_managed =~= match a_v {
        Some(a) => seq![managed_unlim_of(a)],
        None => Seq::empty(),
    });
    let mut exe_parts: Vec<String> = Vec::new();
    exe_parts.push(String::from_str("unlim.exe"));
    let exe = path_of(exe_parts);
    assert(exe@ =~= seq!["unlim.exe"@]);
    paths.push(exe);
    if let Some(local) = &local_appdata {
        let p1 = path_under(local, vec!["Unlim", "unlim.exe"]);
        assert(p1@ =~= seq![local@, "Unlim"@, "unlim.exe"@]);
        paths.push(p1);
        let p2 = path_under(local, vec!["Unlim", "bin", "unlim.exe"]);
        assert(p2@ =~= seq![local@, "Unlim"@, "bin"@, "unlim.exe"@]);
        paths.push(p2);
    }
    if let Some(roaming) = &appdata {
        let p3 = path_under(roaming, vec!["unlim", "bin", "unlim.exe"]);
        assert(p3@ =~= seq![roaming@, "unlim"@, "bin"@, "unlim.exe"@]);
        paths.push(p3);
    }
    assert(paths@.map_values(|p: UnlimPath| p@) =~= candidates_of(a_v, l_v, r_v));
    paths
}


/// The next thing to do in the search for a working Unlim.
pub enum FindStep {
    /// Ask the candidate with this index for its version.
    Probe(usize),
    /// The candidate with this index answers.
    Found(usize),
    /// No candidate answers.
    Missing,
}

/// The search for a working Unlim: `answers[i]` tells whether candidate `i`
/// answered the version probe. The first candidate that answers is taken; until
/// one does, the next unasked one is probed.
pub fn find_unlim(candidates: &Vec<UnlimPath>, answers: &Vec<bool>) -> (r: FindStep)
    ensures
        match r {
            FindStep::Found(i) => i < answers.len() && i < candidates.len() && answers@[i as int]
                && forall|j: int| 0 <= j < i ==> !#[trigger] answers@[j],
            FindStep::Probe(i) => i == answers.len() && i < candidates.len() && forall|j: int|
                0 <= j < answers.len() ==> !#[trigger] answers@[j],
            FindStep::Missing => answers.len() >= candidates.len() && forall|j: int|
                0 <= j < candidates.len() ==> !#[trigger] answers@[j],
        },
{
    let mut i: usize = 0;
    while i < answers.len() && i < candidates.len()
        invariant
            i <= answers.len(),
            i <= candidates.len(),
            forall|j: int| 0 <= j < i ==> !#[trigger] answers@[j],
        decreases answers.len() - i,
    {
        if answers[i] {
            return FindStep::Found(i);
        }
        i = i + 1;
    }
    if answers.len() < candidates.len() {
        FindStep::Probe(answers.len())
    } else {
        FindStep::Missing
    }
}

/// The version that a probe `unlim --version` reports: none when it did not run or
/// failed, else what it printed, trimmed, when that is not empty.
pub open spec fn version_of(output: Option<CliOutput>) -> Option<Seq<char>> {
    match output {
        Some(o) => if o.success && trim(utf8_lossy(o.stdout@)).len() > 0 {
            Some(trim(utf8_lossy(o.stdout@)))
        } else {
            None
        },
        None => None,
    }
}

/// The version in the text a successful probe printed: the text trimmed, unless
/// that is empty.
pub fn version_in_text(text: &str) -> (r: Option<String>)
    ensures
        opt_view(r) == if trim(text@).len() > 0 {
            Some(trim(text@))
        } else {
            None
        },
{
    let t = trim_str(text);
    if t.as_str().is_empty() {
        None
    } else {
        Some(t)
    }
}

/// The version that a probe of an Unlim executable reports.
pub fn unlim_version(output: Option<&CliOutput>) -> (r: Option<String>)
    ensures
        opt_view(r) == version_of(
            match output {
                Some(o) => Some(*o),
                None => None,
            },
        ),
{
    match output {
        Some(o) => {
            if !o.success {
                return None;
            }
            let text = decode_lossy(o.stdout.as_slice());
            version_in_text(text.as_str())
        },
        None => None,
    }
}

/// The error for a processor that no Unlim build exists for.
pub open spec fn unsupported_cpu_message(arch: Seq<char>) -> Seq<char> {
    "未対応のCPUです: "@ + arch
}

/// The name of the Unlim build for the processor architecture `arch`.
pub open spec fn platform_of(arch: Seq<char>) -> Option<Seq<char>> {
    if arch == "x86_64"@ {
        Some("windows_amd64"@)
    } else if arch == "aarch64"@ {
        Some("windows_arm64"@)
    } else {
        None
    }
}

/// The Unlim build for the processor architecture `arch`.
pub fn platform_key(arch: &str) -> (r: Result<&'static str, String>)
    ensures
        match platform_of(arch@) {
            Some(k) => r matches Ok(s) && s@ == k,
            None => r matches Err(e) && e@ == unsupported_cpu_message(arch@),
        },
{
    proof {
        reveal_strlit("x86_64");
        reveal_strlit("aarch64");
        assert("x86_64"@.len() == 6);
        assert("aarch64"@.len() == 7);
        assert("x86_64"@ != "aarch64"@);
    }
    if same_text(arch, "x86_64") {
        Ok("windows_amd64")
    } else if same_text(arch, "aarch64") {
        Ok("windows_arm64")
    } else {
        let mut e = String::from_str("未対応のCPUです: ");
        e.append(arch);
        Err(e)
    }
}


/// Whether two paths are made of the same parts.
pub fn same_path(a: &UnlimPath, b: &UnlimPath) -> (r: bool)
    ensures
        r == (a@ == b@),
{
    if a.parts.len() != b.parts.len() {
        assert(a@.len() == a.parts@.len() && b@.len() == b.parts@.len());
        return false;
    }
    let mut i: usize = 0;
    while i < a.parts.len()
        invariant
            a.parts.len() == b.parts.len(),
            i <= a.parts.len(),
            forall|j: int| 0 <= j < i ==> a.parts@[j]@ == b.parts@[j]@,
        decreases a.parts.len() - i,
    {
        if !same_text(a.parts[i].as_str(), b.parts[i].as_str()) {
            assert(a@[i as int] == a.parts@[i as int]@);
            return false;
        }
        i = i + 1;
    }
    assert(a@ =~= b@);
    true
}


/// A copy of `p`.
pub fn copy_path(p: &UnlimPath) -> (r: UnlimPath)
    ensures
        r@ == p@,
{
    let mut parts: Vec<String> = Vec::new();
    let mut i: usize = 0;
    while i < p.parts.len()
        invariant
            i <= p.parts.len(),
            parts@.len() == i,
            forall|j: int| 0 <= j < i ==> #[trigger] parts@[j]@ == p.parts@[j]@,
        decreases p.parts.len() - i,
    {
        parts.push(p.parts[i].clone());
        i = i + 1;
    }
    let r = path_of(parts);
    assert(r@ =~= p@);
    r
}

/// `p` with the name `name` joined onto it.
pub fn path_join(p: &UnlimPath, name: &str) -> (r: UnlimPath)
    ensures
        r@ == p@.push(name@),
{
    let c = copy_path(p);
    let mut parts = c.parts;
    parts.push(String::from_str(name));
    let r = path_of(parts);
    assert(r@ =~= p@.push(name@));
    r
}

/// The error when no working Unlim is found for a command.
pub open spec fn unlim_missing_message() -> Seq<char> {
    "Unlimが見つかりません。自動セットアップを実行してください。"@
}

/// The error when no working Unlim is found for a command.
pub fn unlim_missing_error() -> (m: String)
    ensures
        m@ == unlim_missing_message(),
{
    String::from_str("Unlimが見つかりません。自動セットアップを実行してください。")
}

/// The error when Unlim cannot be run, given what the system said.
pub fn run_failure_message(detail: &str) -> (m: String)
    ensures
        m@ == "Unlimを実行できません: "@ + detail@,
{
    with_detail("Unlimを実行できません: ", detail)
}

} // verus!
