//! Installing the connector's own copy of Unlim: choosing the build, checking the
//! download, and the order of the steps that put it in place.
use vstd::prelude::*;
use sha2::Digest;
use crate::paths::{
    managed_dir, managed_dir_of, no_appdata_message, path_join, platform_key, platform_of,
    unsupported_cpu_message, UnlimPath,
};
use crate::text::{chars_of, same_text, trim, trim_str, with_detail};

verus! {

// ---------------------------------------------------------------------------
// The published list of builds
// ---------------------------------------------------------------------------

/// The size and SHA-256 digest (as hex) that the publisher gives for a build.
pub struct DownloadInfo {
    pub sha256: String,
    pub size: u64,
}

/// The published list of Unlim builds: the current version, and for each platform
/// the download address and the checksum data, each as (platform, value) entries.
pub struct UnlimMap {
    pub version: String,
    pub downloads: Vec<(String, String)>,
    pub hashes: Vec<(String, DownloadInfo)>,
}

/// The index of the first of `keys` that is `key`.
pub open spec fn key_index(keys: Seq<Seq<char>>, key: Seq<char>) -> Option<int>
    decreases keys.len(),
{
    if keys.len() == 0 {
        None
    } else {
        match key_index(keys.drop_last(), key) {
            Some(i) => Some(i),
            None => if keys.last() == key {
                Some(keys.len() - 1)
            } else {
                None
            },
        }
    }
}

/// The platforms that `m` lists download addresses for.
pub open spec fn download_keys(m: UnlimMap) -> Seq<Seq<char>> {
    m.downloads@.map_values(|e: (String, String)| e.0@)
}

/// The platforms that `m` lists checksum data for.
pub open spec fn hash_keys(m: UnlimMap) -> Seq<Seq<char>> {
    m.hashes@.map_values(|e: (String, DownloadInfo)| e.0@)
}

/// What the connector needs to install a build: its version, address and checksum
/// data, and the places involved.
pub struct InstallPlan {
    pub version: String,
    pub url: String,
    pub sha256: String,
    pub size: u64,
    pub directory: UnlimPath,
    pub target: UnlimPath,
    pub temporary: UnlimPath,
    pub backup: UnlimPath,
    pub version_file: UnlimPath,
}

/// The error when the list has no address for this platform.
pub open spec fn no_url_message() -> Seq<char> {
    "このWindows用のUnlim配布URLがありません。"@
}

/// The error when the list has no checksum data for this platform.
pub open spec fn no_hash_message() -> Seq<char> {
    "Unlimの検証情報がありません。"@
}

/// Finds the entry for `key` among `entries`.
fn find_key<V>(entries: &Vec<(String, V)>, key: &str) -> (r: Option<usize>)
    ensures
        match r {
            Some(i) => key_index(entries@.map_values(|e: (String, V)| e.0@), key@) == Some(
                i as int,
            ),
            None => key_index(entries@.map_values(|e: (String, V)| e.0@), key@) is None,
        },
{
    let ghost keys = entries@.map_values(|e: (String, V)| e.0@);
    let mut i: usize = 0;
    while i < entries.len()
        invariant
            i <= entries.len(),
            keys == entries@.map_values(|e: (String, V)| e.0@),
            key_index(keys.take(i as int), key@) is None,
        decreases entries.len() - i,
    {
        assert(keys.take(i + 1).drop_last() =~= keys.take(i as int));
        if same_text(entries[i].0.as_str(), key) {
            assert(key_index(keys.take(i + 1), key@) == Some(i as int));
            proof {
                lemma_key_index_prefix(keys, i + 1, key@);
            }
            return Some(i);
        }
        i = i + 1;
    }
    assert(keys.take(i as int) =~= keys);
    None
}

/// No two of `keys` are the same.
pub open spec fn keys_unique(keys: Seq<Seq<char>>) -> bool {
    forall|i: int, j: int| 0 <= i < j < keys.len() ==> keys[i] != keys[j]
}

impl UnlimMap {
    /// Each platform is listed at most once among the addresses and at most once
    /// among the checksum data, as in the published list, which maps platforms to
    /// entries.
    pub open spec fn well_formed(&self) -> bool {
        &&& keys_unique(download_keys(*self))
        &&& keys_unique(hash_keys(*self))
    }
}

/// Where keys are unique, the search finds the one entry of the key.
pub proof fn lemma_key_index_unique(keys: Seq<Seq<char>>, key: Seq<char>, i: int)
    requires
        keys_unique(keys),
        0 <= i < keys.len(),
        keys[i] == key,
    ensures
        key_index(keys, key) == Some(i),
    decreases keys.len(),
{
    if i < keys.len() - 1 {
        let p = keys.drop_last();
        assert(keys_unique(p)) by {
            assert forall|a: int, b: int| 0 <= a < b < p.len() implies p[a] != p[b] by {
                assert(p[a] == keys[a] && p[b] == keys[b]);
            }
        }
        assert(p[i] == key);
        lemma_key_index_unique(p, key, i);
    } else {
        lemma_key_index_found(keys.drop_last(), key);
        if let Some(j) = key_index(keys.drop_last(), key) {
            assert(keys.drop_last()[j] == keys[j]);
        }
    }
}

/// What the search finds is a key in range that matches.
proof fn lemma_key_index_found(keys: Seq<Seq<char>>, key: Seq<char>)
    ensures
        key_index(keys, key) matches Some(i) ==> 0 <= i < keys.len() && keys[i] == key,
    decreases keys.len(),
{
    if keys.len() > 0 {
        lemma_key_index_found(keys.drop_last(), key);
    }
}

/// A key found in a prefix is found at the same place in the whole.
proof fn lemma_key_index_prefix(keys: Seq<Seq<char>>, n: int, key: Seq<char>)
    requires
        0 <= n <= keys.len(),
        key_index(keys.take(n), key) is Some,
    ensures
        key_index(keys, key) == key_index(keys.take(n), key),
    decreases keys.len(),
{
    if n < keys.len() {
        assert(keys.drop_last().take(n) =~= keys.take(n));
        lemma_key_index_prefix(keys.drop_last(), n, key);
    } else {
        assert(keys.take(n) =~= keys);
    }
}


/// `p` is the plan for entry `i` of the addresses and entry `j` of the checksum
/// data of `m`, with the connector's folder under `appdata`. In a well-formed list
/// these are the only entries of their platform (`lemma_key_index_unique`).
pub open spec fn plan_fits(p: InstallPlan, m: UnlimMap, i: int, j: int, appdata: Seq<char>) -> bool {
    let dir = managed_dir_of(appdata);
    &&& p.version@ == m.version@
    &&& p.url@ == m.downloads@[i].1@
    &&& p.sha256@ == m.hashes@[j].1.sha256@
    &&& p.size == m.hashes@[j].1.size
    &&& p.directory@ == dir
    &&& p.target@ == dir.push("unlim.exe"@)
    &&& p.temporary@ == dir.push("unlim.exe.download"@)
    &&& p.backup@ == dir.push("unlim.exe.previous"@)
    &&& p.version_file@ == dir.push("version.txt"@)
}

/// The plan for installing the build that `map` lists for the processor `arch`,
/// into the connector's folder under `appdata`. It fails, in this order, when the
/// processor is not supported, when the list has no address for it, when it has
/// no checksum data for it, and when the AppData folder is unknown.
pub fn install_plan(map: &UnlimMap, arch: &str, appdata: Option<String>) -> (r: Result<
    InstallPlan,
    String,
>)
    requires
        map.well_formed(),
    ensures
        match platform_of(arch@) {
            None => r matches Err(e) && e@ == unsupported_cpu_message(arch@),
            Some(k) => match (key_index(download_keys(*map), k), key_index(hash_keys(*map), k)) {
                (None, _) => r matches Err(e) && e@ == no_url_message(),
                (Some(_), None) => r matches Err(e) && e@ == no_hash_message(),
                (Some(i), Some(j)) => match appdata {
                    None => r matches Err(e) && e@ == no_appdata_message(),
                    Some(a) => r matches Ok(p) && plan_fits(p, *map, i, j, a@),
                },
            },
        },
{
    let platform = match platform_key(arch) {
        Ok(k) => k,
        Err(e) => {
            return Err(e);
        },
    };
    let i = match find_key(&map.downloads, platform) {
        Some(i) => i,
        None => {
            return Err(String::from_str("このWindows用のUnlim配布URLがありません。"));
        },
    };
    let j = match find_key(&map.hashes, platform) {
        Some(j) => j,
        None => {
            return Err(String::from_str("Unlimの検証情報がありません。"));
        },
    };
    proof {
        lemma_key_index_found(download_keys(*map), platform@);
        lemma_key_index_found(hash_keys(*map), platform@);
    }
    let directory = match managed_dir(appdata) {
        Ok(d) => d,
        Err(e) => {
            return Err(e);
        },
    };
    let target = path_join(&directory, "unlim.exe");
    let temporary = path_join(&directory, "unlim.exe.download");
    let backup = path_join(&directory, "unlim.exe.previous");
    let version_file = path_join(&directory, "version.txt");
    Ok(
        InstallPlan {
            version: map.version.clone(),
            url: map.downloads[i].1.clone(),
            sha256: map.hashes[j].1.sha256.clone(),
            size: map.hashes[j].1.size,
            directory,
            target,
            temporary,
            backup,
            version_file,
        },
    )
}


// ---------------------------------------------------------------------------
// Checking the download
// ---------------------------------------------------------------------------

/// A running SHA-256 computation of `sha2`. Verus cannot take a declaration of
/// `sha2::Sha256` (a type alias of a generic wrapper whose bounds are written over
/// `typenum` types), so the hasher is held here, out of Verus's sight, and only the
/// wrappers below touch it.
#[verifier::external_body]
pub struct Sha256State {
    inner: sha2::Sha256,
}

/// The bytes fed into a SHA-256 computation so far.
pub uninterp spec fn hashed_bytes(h: Sha256State) -> Seq<u8>;

/// The SHA-256 digest of `data`.
pub uninterp spec fn sha256(data: Seq<u8>) -> Seq<u8>;

/// Calls `sha2::Sha256::new`: a computation that has been fed nothing.
#[verifier::external_body]
fn sha256_start() -> (h: Sha256State)
    ensures
        hashed_bytes(h) == Seq::<u8>::empty(),
{
    Sha256State { inner: sha2::Sha256::new() }
}

/// Calls `Digest::update` on the computation: it has then been fed `data` as well.
#[verifier::external_body]
fn sha256_update(h: &mut Sha256State, data: &[u8])
    ensures
        hashed_bytes(*final(h)) == hashed_bytes(*old(h)) + data@,
{
    h.inner.update(data);
}

/// Calls `Digest::finalize` on the computation: the 32-byte digest of what it was fed.
#[verifier::external_body]
fn sha256_finish(h: Sha256State) -> (d: Vec<u8>)
    ensures
        d@ == sha256(hashed_bytes(h)),
        d@.len() == 32,
{
    h.inner.finalize().to_vec()
}

/// The hex digit for `n`, in lower case.
pub open spec fn hex_digit(n: int) -> char {
    seq!['0', '1', '2', '3', '4', '5', '6', '7', '8', '9', 'a', 'b', 'c', 'd', 'e', 'f'][n]
}

/// `bytes` in hex, two lower-case digits per byte, the high one first.
pub open spec fn hex_lower(bytes: Seq<u8>) -> Seq<char>
    decreases bytes.len(),
{
    if bytes.len() == 0 {
        Seq::empty()
    } else {
        hex_lower(bytes.drop_last()) + seq![
            hex_digit(bytes.last() as int / 16),
            hex_digit(bytes.last() as int % 16),
        ]
    }
}

/// Calls `hex::encode`, which writes each byte as two lower-case hex digits, the
/// high one first.
#[verifier::external_body]
fn hex_encode(bytes: &[u8]) -> (r: String)
    ensures
        r@ == hex_lower(bytes@),
{
    hex::encode(bytes)
}

/// `c` with an ASCII capital letter taken as its small letter, as a number.
pub open spec fn ascii_folded(c: char) -> int {
    if 'A' <= c && c <= 'Z' {
        (c as u32) as int + 32
    } else {
        (c as u32) as int
    }
}

/// Whether `a` and `b` are the same text when ASCII letters are compared without
/// regard to case, as `str::eq_ignore_ascii_case` compares.
pub open spec fn same_ignoring_ascii_case(a: Seq<char>, b: Seq<char>) -> bool {
    a.len() == b.len() && forall|i: int| 0 <= i < a.len() ==> #[trigger] ascii_folded(a[i])
        == ascii_folded(b[i])
}

/// Whether `a` and `b` are the same text when ASCII letters are compared without
/// regard to case.
pub fn eq_ignore_ascii_case(a: &str, b: &str) -> (r: bool)
    ensures
        r == same_ignoring_ascii_case(a@, b@),
{
    let x = chars_of(a);
    let y = chars_of(b);
    if x.len() != y.len() {
        return false;
    }
    let mut i: usize = 0;
    while i < x.len()
        invariant
            x@ == a@,
            y@ == b@,
            x.len() == y.len(),
            i <= x.len(),
            forall|j: int| 0 <= j < i ==> #[trigger] ascii_folded(x@[j]) == ascii_folded(y@[j]),
        decreases x.len() - i,
    {
        let c = x[i];
        let d = y[i];
        let fc: u32 = if 'A' <= c && c <= 'Z' {
            (c as u32) + 32
        } else {
            c as u32
        };
        let fd: u32 = if 'A' <= d && d <= 'Z' {
            (d as u32) + 32
        } else {
            d as u32
        };
        assert(fc as int == ascii_folded(c));
        assert(fd as int == ascii_folded(d));
        if fc != fd {
            assert(ascii_folded(x@[i as int]) != ascii_folded(y@[i as int]));
            return false;
        }
        i = i + 1;
    }
    true
}

/// The check that a download runs over the bytes as they arrive: it counts them
/// against the published size and computes their SHA-256 digest.
pub struct DownloadCheck {
    hasher: Sha256State,
    received: u64,
    size: u64,
}

impl DownloadCheck {
    /// The bytes received so far.
    pub closed spec fn received_bytes(&self) -> Seq<u8> {
        hashed_bytes(self.hasher)
    }

    /// The published size.
    pub closed spec fn expected_size(&self) -> u64 {
        self.size
    }

    /// No more bytes have arrived than the published size, and the count is right.
    pub closed spec fn within_size(&self) -> bool {
        &&& self.received as int == hashed_bytes(self.hasher).len()
        &&& self.received <= self.size
    }

    /// A check for a build of the published size `size`, before any byte arrived.
    pub fn new(size: u64) -> (c: Self)
        ensures
            c.within_size(),
            c.received_bytes() == Seq::<u8>::empty(),
            c.expected_size() == size,
    {
        DownloadCheck { hasher: sha256_start(), received: 0, size }
    }

    /// Takes the next chunk of the download. It answers whether the bytes received
    /// so far still fit in the published size; once they do not, the download is to
    /// be given up.
    pub fn accept(&mut self, chunk: &[u8]) -> (fits: bool)
        requires
            old(self).within_size(),
        ensures
            final(self).received_bytes() == old(self).received_bytes() + chunk@,
            final(self).expected_size() == old(self).expected_size(),
            fits == (final(self).received_bytes().len() <= final(self).expected_size()),
            fits ==> final(self).within_size(),
    {
        sha256_update(&mut self.hasher, chunk);
        let n = chunk.len() as u64;
        match self.received.checked_add(n) {
            Some(total) => {
                self.received = total;
                total <= self.size
            },
            None => {
                self.received = u64::MAX;
                false
            },
        }
    }

    /// Whether the finished download is the published build: exactly the published
    /// size, and its SHA-256 digest in hex is `sha256_hex` up to the case of letters.
    pub fn verify(self, sha256_hex: &str) -> (ok: bool)
        requires
            self.within_size(),
        ensures
            ok == (self.received_bytes().len() == self.expected_size() && same_ignoring_ascii_case(
                hex_lower(sha256(self.received_bytes())),
                sha256_hex@,
            )),
    {
        let complete = self.received == self.size;
        let digest = sha256_finish(self.hasher);
        let hex = hex_encode(digest.as_slice());
        complete && eq_ignore_ascii_case(hex.as_str(), sha256_hex)
    }
}


// ---------------------------------------------------------------------------
// The steps of an installation
// ---------------------------------------------------------------------------

/// A step of fetching or storing that can fail with an error of the system or of
/// the network.
pub enum IoStep {
    /// Setting up the HTTP client.
    Client,
    /// Fetching the list of builds.
    FetchList,
    /// Reading the list of builds.
    ReadList,
    /// Creating the connector's folder.
    CreateDir,
    /// Starting the download.
    Request,
    /// Creating the temporary file.
    CreateTemporary,
    /// Receiving the download.
    Receive,
    /// Writing the download.
    Write,
    /// Flushing the download to disk.
    Sync,
}

/// The start of the message for a failed step.
pub open spec fn io_prefix(step: IoStep) -> Seq<char> {
    match step {
        IoStep::Client => "通信準備に失敗しました: "@,
        IoStep::FetchList => "Unlimの更新情報を取得できません: "@,
        IoStep::ReadList => "Unlimの更新情報を解析できません: "@,
        IoStep::CreateDir => "Unlim保存先を作成できません: "@,
        IoStep::Request => "Unlimをダウンロードできません: "@,
        IoStep::CreateTemporary => "一時ファイルを作成できません: "@,
        IoStep::Receive => "Unlimの受信に失敗しました: "@,
        IoStep::Write => "Unlimを保存できません: "@,
        IoStep::Sync => "Unlimの保存を確定できません: "@,
    }
}

/// The message for a failed step, given what the system said.
pub fn io_failure_message(step: &IoStep, detail: &str) -> (m: String)
    ensures
        m@ == io_prefix(*step) + detail@,
{
    let mut m = String::from_str(
        match step {
            IoStep::Client => "通信準備に失敗しました: ",
            IoStep::FetchList => "Unlimの更新情報を取得できません: ",
            IoStep::ReadList => "Unlimの更新情報を解析できません: ",
            IoStep::CreateDir => "Unlim保存先を作成できません: ",
            IoStep::Request => "Unlimをダウンロードできません: ",
            IoStep::CreateTemporary => "一時ファイルを作成できません: ",
            IoStep::Receive => "Unlimの受信に失敗しました: ",
            IoStep::Write => "Unlimを保存できません: ",
            IoStep::Sync => "Unlimの保存を確定できません: ",
        },
    );
    m.append(detail);
    m
}

/// How a download ended.
pub enum DownloadOutcome {
    /// A step failed; `detail` is what the system said.
    Failed { step: IoStep, detail: String },
    /// More bytes arrived than the published size.
    TooLarge,
    /// All bytes arrived; `verified` tells whether the download check passed.
    Complete { verified: bool },
}

/// Why a download is thrown away.
pub enum Rejection {
    TooLarge,
    BadChecksum,
}

/// Where an installation stands. Each stage waits for the answer to one action
/// (see `pending_action`).
pub enum InstallStage {
    /// Looking at the installed copy and the version it was recorded with.
    Inspecting,
    /// Checking that the installed copy runs.
    ProbingInstalled,
    /// Checking whether Unlim is connected.
    CheckingConnection,
    /// Downloading the build into the temporary file.
    Downloading,
    /// Throwing the download away.
    Discarding(Rejection),
    /// Removing an old backup before the swap.
    ClearingBackup,
    /// Looking whether there is an installed copy to back up.
    CheckingTarget,
    /// Moving the installed copy to the backup.
    BackingUp,
    /// Moving the download into place.
    Swapping,
    /// Moving the download into place failed with this message of the system;
    /// looking for a backup.
    SwapFailed(String),
    /// Moving the backup back after a failed swap.
    RestoringAfterSwap(String),
    /// Checking that the new copy runs.
    ProbingNew,
    /// Removing a new copy that does not run.
    RemovingNew,
    /// Looking for a backup after removing a new copy that does not run.
    NewFailed,
    /// Moving the backup back after removing a new copy that does not run.
    RestoringAfterProbe,
    /// Recording the installed version.
    Recording,
    /// Removing the backup after a successful installation.
    Cleaning,
    /// Done, with the message for the user or the error.
    Finished(Result<String, String>),
}

/// What the connector does next.
pub enum InstallAction {
    /// Report whether the target exists and what the version file holds.
    InspectTarget,
    /// Run the target with `--version` and report whether it answers.
    ProbeTarget,
    /// Report whether any Unlim instance is connected.
    CheckConnected,
    /// Create the folder, download the address into the temporary file, feed every
    /// chunk to a `DownloadCheck` and stop when it refuses one, flush the file, and
    /// report how it ended.
    Download,
    /// Remove the temporary file, whatever comes of it.
    RemoveTemporary,
    /// Remove the backup file, whatever comes of it.
    RemoveBackup,
    /// Report whether the target exists.
    CheckTarget,
    /// Rename the target to the backup and report the outcome.
    RenameTargetToBackup,
    /// Rename the temporary file to the target and report the outcome.
    RenameTemporaryToTarget,
    /// Report whether the backup exists.
    CheckBackup,
    /// Rename the backup to the target, whatever comes of it.
    RenameBackupToTarget,
    /// Remove the target, whatever comes of it.
    RemoveTarget,
    /// Write these contents into the version file and report the outcome.
    WriteVersionFile(String),
    /// Stop with this result.
    Finish(Result<String, String>),
}

/// What an action gave back.
pub enum InstallEvent {
    /// The target exists or not, and the version file could be read or not.
    Inspected { exists: bool, recorded: Option<String> },
    /// The executable answered its version probe or not.
    Probed(bool),
    /// Some Unlim instance is connected or not.
    Connected(bool),
    /// The download ended so.
    Downloaded(DownloadOutcome),
    /// A removal was done.
    Removed,
    /// The file asked about exists or not.
    Exists(bool),
    /// A rename succeeded, or failed with this message of the system.
    Renamed(Result<(), String>),
    /// Writing the version file succeeded, or failed with this message.
    Written(Result<(), String>),
}

/// The message when the installed copy is current.
pub open spec fn up_to_date_message(version: Seq<char>) -> Seq<char> {
    "Unlim "@ + version + " は最新です。"@
}

/// The message when the update waits for the next start.
pub open spec fn deferred_message() -> Seq<char> {
    "接続中のためUnlim更新は次回起動時に行います。"@
}

/// The error when the download is thrown away.
pub open spec fn rejection_message(r: Rejection) -> Seq<char> {
    match r {
        Rejection::TooLarge => "Unlimのファイルサイズが検証値を超えました。"@,
        Rejection::BadChecksum => "UnlimのSHA-256検証に失敗しました。ファイルは使用しません。"@,
    }
}

/// The error when the installed copy cannot be backed up.
pub open spec fn backup_failed_message(detail: Seq<char>) -> Seq<char> {
    "旧Unlimを退避できません: "@ + detail
}

/// The error when the download cannot be moved into place.
pub open spec fn swap_failed_message(detail: Seq<char>) -> Seq<char> {
    "新しいUnlimへ切り替えられません: "@ + detail
}

/// The error when the new copy does not run.
pub open spec fn rolled_back_message() -> Seq<char> {
    "更新後のUnlimを実行できないため、旧版へ戻しました。"@
}

/// The error when the version cannot be recorded.
pub open spec fn record_failed_message(detail: Seq<char>) -> Seq<char> {
    "Unlimのバージョンを記録できません: "@ + detail
}

/// The message after a successful installation.
pub open spec fn installed_message(version: Seq<char>) -> Seq<char> {
    "Unlim "@ + version + " を安全に導入しました。"@
}

/// What the version file holds, or nothing when it could not be read.
pub open spec fn recorded_text(recorded: Option<String>) -> Seq<char> {
    match recorded {
        Some(r) => r@,
        None => Seq::empty(),
    }
}

/// `t` is the finished stage with this result.
pub open spec fn finished_with(t: InstallStage, ok: bool, message: Seq<char>) -> bool {
    match t {
        InstallStage::Finished(Ok(m)) => ok && m@ == message,
        InstallStage::Finished(Err(m)) => !ok && m@ == message,
        _ => false,
    }
}

/// The stage `t` follows the stage `s` on the answer `e`, for an installation of
/// `version`. An answer to an action other than the one the stage waits for leaves
/// the stage as it is.
pub open spec fn install_transition(
    version: Seq<char>,
    s: InstallStage,
    e: InstallEvent,
    t: InstallStage,
) -> bool {
    match (s, e) {
        (InstallStage::Inspecting, InstallEvent::Inspected { exists, recorded }) => if exists
            && trim(recorded_text(recorded)) == version {
            t is ProbingInstalled
        } else {
            t is CheckingConnection
        },
        (InstallStage::ProbingInstalled, InstallEvent::Probed(runs)) => if runs {
            finished_with(t, true, up_to_date_message(version))
        } else {
            t is CheckingConnection
        },
        (InstallStage::CheckingConnection, InstallEvent::Connected(c)) => if c {
            finished_with(t, true, deferred_message())
        } else {
            t is Downloading
        },
        (InstallStage::Downloading, InstallEvent::Downloaded(outcome)) => match outcome {
            DownloadOutcome::Failed { step, detail } => finished_with(
                t,
                false,
                io_prefix(step) + detail@,
            ),
            DownloadOutcome::TooLarge => t == InstallStage::Discarding(Rejection::TooLarge),
            DownloadOutcome::Complete { verified } => if verified {
                t is ClearingBackup
            } else {
                t == InstallStage::Discarding(Rejection::BadChecksum)
            },
        },
        (InstallStage::Discarding(r), InstallEvent::Removed) => finished_with(
            t,
            false,
            rejection_message(r),
        ),
        (InstallStage::ClearingBackup, InstallEvent::Removed) => t is CheckingTarget,
        (InstallStage::CheckingTarget, InstallEvent::Exists(x)) => if x {
            t is BackingUp
        } else {
            t is Swapping
        },
        (InstallStage::BackingUp, InstallEvent::Renamed(r)) => match r {
            Ok(_) => t is Swapping,
            Err(d) => finished_with(t, false, backup_failed_message(d@)),
        },
        (InstallStage::Swapping, InstallEvent::Renamed(r)) => match r {
            Ok(_) => t is ProbingNew,
            Err(d) => t matches InstallStage::SwapFailed(d2) && d2@ == d@,
        },
        (InstallStage::SwapFailed(d), InstallEvent::Exists(x)) => if x {
            t matches InstallStage::RestoringAfterSwap(d2) && d2@ == d@
        } else {
            finished_with(t, false, swap_failed_message(d@))
        },
        (InstallStage::RestoringAfterSwap(d), InstallEvent::Renamed(_)) => finished_with(
            t,
            false,
            swap_failed_message(d@),
        ),
        (InstallStage::ProbingNew, InstallEvent::Probed(runs)) => if runs {
            t is Recording
        } else {
            t is RemovingNew
        },
        (InstallStage::RemovingNew, InstallEvent::Removed) => t is NewFailed,
        (InstallStage::NewFailed, InstallEvent::Exists(x)) => if x {
            t is RestoringAfterProbe
        } else {
            finished_with(t, false, rolled_back_message())
        },
        (InstallStage::RestoringAfterProbe, InstallEvent::Renamed(_)) => finished_with(
            t,
            false,
            rolled_back_message(),
        ),
        (InstallStage::Recording, InstallEvent::Written(r)) => match r {
            Ok(_) => t is Cleaning,
            Err(d) => finished_with(t, false, record_failed_message(d@)),
        },
        (InstallStage::Cleaning, InstallEvent::Removed) => finished_with(
            t,
            true,
            installed_message(version),
        ),
        (s, _) => t == s,
    }
}

/// `"Unlim " + version + tail`.
fn unlim_message(version: &str, tail: &str) -> (m: String)
    ensures
        m@ == "Unlim "@ + version@ + tail@,
{
    let mut m = String::from_str("Unlim ");
    m.append(version);
    m.append(tail);
    m
}

/// The stage that follows `stage` on the answer `event`.
pub fn install_step(plan: &InstallPlan, stage: InstallStage, event: InstallEvent) -> (t:
    InstallStage)
    ensures
        install_transition(plan.version@, stage, event, t),
{
    let version = plan.version.as_str();
    match (stage, event) {
        (InstallStage::Inspecting, InstallEvent::Inspected { exists, recorded }) => {
            let same = match &recorded {
                Some(r) => {
                    let t = trim_str(r.as_str());
                    same_text(t.as_str(), version)
                },
                None => {
                    assert(trim(Seq::<char>::empty()) =~= Seq::<char>::empty());
                    let e = version.is_empty();
                    if e {
                        assert(version@ =~= Seq::<char>::empty());
                    }
                    e
                },
            };
            if exists && same {
                InstallStage::ProbingInstalled
            } else {
                InstallStage::CheckingConnection
            }
        },
        (InstallStage::ProbingInstalled, InstallEvent::Probed(runs)) => {
            if runs {
                InstallStage::Finished(Ok(unlim_message(version, " は最新です。")))
            } else {
                InstallStage::CheckingConnection
            }
        },
        (InstallStage::CheckingConnection, InstallEvent::Connected(c)) => {
            if c {
                InstallStage::Finished(
                    Ok(String::from_str("接続中のためUnlim更新は次回起動時に行います。")),
                )
            } else {
                InstallStage::Downloading
            }
        },
        (InstallStage::Downloading, InstallEvent::Downloaded(outcome)) => match outcome {
            DownloadOutcome::Failed { step, detail } => InstallStage::Finished(
                Err(io_failure_message(&step, detail.as_str())),
            ),
            DownloadOutcome::TooLarge => InstallStage::Discarding(Rejection::TooLarge),
            DownloadOutcome::Complete { verified } => if verified {
                InstallStage::ClearingBackup
            } else {
                InstallStage::Discarding(Rejection::BadChecksum)
            },
        },
        (InstallStage::Discarding(r), InstallEvent::Removed) => InstallStage::Finished(
            Err(
                match r {
                    Rejection::TooLarge => String::from_str(
                        "Unlimのファイルサイズが検証値を超えました。",
                    ),
                    Rejection::BadChecksum => String::from_str(
                        "UnlimのSHA-256検証に失敗しました。ファイルは使用しません。",
                    ),
                },
            ),
        ),
        (InstallStage::ClearingBackup, InstallEvent::Removed) => InstallStage::CheckingTarget,
        (InstallStage::CheckingTarget, InstallEvent::Exists(x)) => if x {
            InstallStage::BackingUp
        } else {
            InstallStage::Swapping
        },
        (InstallStage::BackingUp, InstallEvent::Renamed(r)) => match r {
            Ok(_) => InstallStage::Swapping,
            Err(d) => InstallStage::Finished(
                Err(with_detail("旧Unlimを退避できません: ", d.as_str())),
            ),
        },
        (InstallStage::Swapping, InstallEvent::Renamed(r)) => match r {
            Ok(_) => InstallStage::ProbingNew,
            Err(d) => InstallStage::SwapFailed(d),
        },
        (InstallStage::SwapFailed(d), InstallEvent::Exists(x)) => if x {
            InstallStage::RestoringAfterSwap(d)
        } else {
            InstallStage::Finished(
                Err(with_detail("新しいUnlimへ切り替えられません: ", d.as_str())),
            )
        },
        (InstallStage::RestoringAfterSwap(d), InstallEvent::Renamed(_)) => InstallStage::Finished(
            Err(with_detail("新しいUnlimへ切り替えられません: ", d.as_str())),
        ),
        (InstallStage::ProbingNew, InstallEvent::Probed(runs)) => if runs {
            InstallStage::Recording
        } else {
            InstallStage::RemovingNew
        },
        (InstallStage::RemovingNew, InstallEvent::Removed) => InstallStage::NewFailed,
        (InstallStage::NewFailed, InstallEvent::Exists(x)) => if x {
            InstallStage::RestoringAfterProbe
        } else {
            InstallStage::Finished(
                Err(String::from_str("更新後のUnlimを実行できないため、旧版へ戻しました。")),
            )
        },
        (InstallStage::RestoringAfterProbe, InstallEvent::Renamed(_)) => InstallStage::Finished(
            Err(String::from_str("更新後のUnlimを実行できないため、旧版へ戻しました。")),
        ),
        (InstallStage::Recording, InstallEvent::Written(r)) => match r {
            Ok(_) => InstallStage::Cleaning,
            Err(d) => InstallStage::Finished(
                Err(with_detail("Unlimのバージョンを記録できません: ", d.as_str())),
            ),
        },
        (InstallStage::Cleaning, InstallEvent::Removed) => InstallStage::Finished(
            Ok(unlim_message(version, " を安全に導入しました。")),
        ),
        (s, _) => s,
    }
}


/// `a` is the action that the stage `s` waits on, for an installation of `version`.
pub open spec fn action_of(version: Seq<char>, s: InstallStage, a: InstallAction) -> bool {
    match s {
        InstallStage::Inspecting => a is InspectTarget,
        InstallStage::ProbingInstalled => a is ProbeTarget,
        InstallStage::CheckingConnection => a is CheckConnected,
        InstallStage::Downloading => a is Download,
        InstallStage::Discarding(_) => a is RemoveTemporary,
        InstallStage::ClearingBackup => a is RemoveBackup,
        InstallStage::CheckingTarget => a is CheckTarget,
        InstallStage::BackingUp => a is RenameTargetToBackup,
        InstallStage::Swapping => a is RenameTemporaryToTarget,
        InstallStage::SwapFailed(_) => a is CheckBackup,
        InstallStage::RestoringAfterSwap(_) => a is RenameBackupToTarget,
        InstallStage::ProbingNew => a is ProbeTarget,
        InstallStage::RemovingNew => a is RemoveTarget,
        InstallStage::NewFailed => a is CheckBackup,
        InstallStage::RestoringAfterProbe => a is RenameBackupToTarget,
        InstallStage::Recording => a matches InstallAction::WriteVersionFile(c) && c@ == version
            + seq!['\n'],
        InstallStage::Cleaning => a is RemoveBackup,
        InstallStage::Finished(r) => a matches InstallAction::Finish(r2) && match (r, r2) {
            (Ok(m), Ok(m2)) => m2@ == m@,
            (Err(m), Err(m2)) => m2@ == m@,
            _ => false,
        },
    }
}

/// The action that `stage` waits on.
pub fn pending_action(plan: &InstallPlan, stage: &InstallStage) -> (a: InstallAction)
    ensures
        action_of(plan.version@, *stage, a),
{
    match stage {
        InstallStage::Inspecting => InstallAction::InspectTarget,
        InstallStage::ProbingInstalled => InstallAction::ProbeTarget,
        InstallStage::CheckingConnection => InstallAction::CheckConnected,
        InstallStage::Downloading => InstallAction::Download,
        InstallStage::Discarding(_) => InstallAction::RemoveTemporary,
        InstallStage::ClearingBackup => InstallAction::RemoveBackup,
        InstallStage::CheckingTarget => InstallAction::CheckTarget,
        InstallStage::BackingUp => InstallAction::RenameTargetToBackup,
        InstallStage::Swapping => InstallAction::RenameTemporaryToTarget,
        InstallStage::SwapFailed(_) => InstallAction::CheckBackup,
        InstallStage::RestoringAfterSwap(_) => InstallAction::RenameBackupToTarget,
        InstallStage::ProbingNew => InstallAction::ProbeTarget,
        InstallStage::RemovingNew => InstallAction::RemoveTarget,
        InstallStage::NewFailed => InstallAction::CheckBackup,
        InstallStage::RestoringAfterProbe => InstallAction::RenameBackupToTarget,
        InstallStage::Recording => {
            let mut c = plan.version.clone();
            let nl = "\n";
            proof {
                reveal_strlit("\n");
            }
            assert(nl@ =~= seq!['\n']);
            c.append(nl);
            InstallAction::WriteVersionFile(c)
        },
        InstallStage::Cleaning => InstallAction::RemoveBackup,
        InstallStage::Finished(r) => InstallAction::Finish(
            match r {
                Ok(m) => Ok(m.clone()),
                Err(m) => Err(m.clone()),
            },
        ),
    }
}

/// The stages in which the download has passed its check and is being put in place.
pub open spec fn past_verification(s: InstallStage) -> bool {
    ||| s is ClearingBackup
    ||| s is CheckingTarget
    ||| s is BackingUp
    ||| s is Swapping
    ||| s is SwapFailed
    ||| s is RestoringAfterSwap
    ||| s is ProbingNew
    ||| s is RemovingNew
    ||| s is NewFailed
    ||| s is RestoringAfterProbe
    ||| s is Recording
    ||| s is Cleaning
}

/// A download is moved into place only after it passed its check: the only stage
/// that asks for the move is past the check, and the stages past the check are
/// entered only from one another or from the download on a verified outcome.
pub proof fn lemma_swap_only_after_verified(
    version: Seq<char>,
    s: InstallStage,
    e: InstallEvent,
    t: InstallStage,
    a: InstallAction,
)
    ensures
        action_of(version, s, a) && a is RenameTemporaryToTarget ==> past_verification(s),
        install_transition(version, s, e, t) && past_verification(t) ==> past_verification(s) || (
        s is Downloading && (e matches InstallEvent::Downloaded(
            DownloadOutcome::Complete { verified },
        ) && verified)),
{
}

/// An installation succeeds only from its last stage, after the version has been
/// recorded, and once finished it stays so whatever is answered.
pub proof fn lemma_success_only_at_end(
    version: Seq<char>,
    s: InstallStage,
    e: InstallEvent,
    t: InstallStage,
)
    ensures
        install_transition(version, s, e, t) && finished_with(t, true, installed_message(version))
            && !(s is Finished) ==> s is Cleaning,
        install_transition(version, s, e, t) && s is Finished ==> t == s,
{
    reveal_strlit("Unlim ");
    reveal_strlit(" は最新です。");
    reveal_strlit(" を安全に導入しました。");
    reveal_strlit("接続中のためUnlim更新は次回起動時に行います。");
    let k: int = 6 + version.len() as int;
    assert(up_to_date_message(version)[k + 1] != installed_message(version)[k + 1]);
    assert(up_to_date_message(version) != installed_message(version));
    assert(deferred_message()[0] != installed_message(version)[0]);
    assert(deferred_message() != installed_message(version));
}


/// A backup is asked for only where there is an installed copy: after the answer
/// that no copy exists, the next action moves the download into place; after the
/// answer that one exists, it backs that copy up; and the rename to the backup is
/// asked for only after the answer that a copy exists (or again, while that rename
/// is still unanswered).
pub proof fn lemma_backup_only_when_installed(
    version: Seq<char>,
    s: InstallStage,
    e: InstallEvent,
    t: InstallStage,
    a: InstallAction,
)
    ensures
        install_transition(version, InstallStage::CheckingTarget, InstallEvent::Exists(false), t)
            && action_of(version, t, a) ==> a is RenameTemporaryToTarget,
        install_transition(version, InstallStage::CheckingTarget, InstallEvent::Exists(true), t)
            && action_of(version, t, a) ==> a is RenameTargetToBackup,
        install_transition(version, s, e, t) && action_of(version, t, a) && a is RenameTargetToBackup
            ==> s is BackingUp || (s is CheckingTarget && e matches InstallEvent::Exists(true)),
{
}


/// A failed swap and a new copy that does not run are both rolled back: when
/// moving the download into place fails, the next action looks for the backup and,
/// where it exists, moves it back before the installation ends in an error; when
/// the new copy does not answer its probe, it is removed, and then likewise.
pub proof fn lemma_failures_roll_back(
    version: Seq<char>,
    d: String,
    t: InstallStage,
    u: InstallStage,
    a: InstallAction,
)
    ensures
        install_transition(version, InstallStage::Swapping, InstallEvent::Renamed(Err(d)), t)
            && action_of(version, t, a) ==> a is CheckBackup,
        install_transition(version, InstallStage::Swapping, InstallEvent::Renamed(Err(d)), t)
            && install_transition(version, t, InstallEvent::Exists(true), u) && action_of(
            version,
            u,
            a,
        ) ==> a is RenameBackupToTarget,
        install_transition(version, InstallStage::ProbingNew, InstallEvent::Probed(false), t)
            && action_of(version, t, a) ==> a is RemoveTarget,
        install_transition(version, InstallStage::RemovingNew, InstallEvent::Removed, t)
            && install_transition(version, t, InstallEvent::Exists(true), u) && action_of(
            version,
            u,
            a,
        ) ==> a is RenameBackupToTarget,
        install_transition(version, InstallStage::RemovingNew, InstallEvent::Removed, t)
            && install_transition(version, t, InstallEvent::Exists(false), u) ==> (u matches InstallStage::Finished(Err(_))),
{
}

} // verus!
