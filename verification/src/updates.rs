//! Release update discovery: which release asset to fetch, where it may be
//! fetched from, which checksum it must have, and what a check reports.
//!
//! The network requests, downloads and file operations are made by the
//! caller; this module decides on the data they return.

use vstd::prelude::*;
use crate::text::{
    char_views, chars_equal, chars_of, concat_chars, contains, contains_chars, ends_with,
    ends_with_chars, is_ascii_hex_digit, lower_ascii, lower_chars, slice_chars, split_chars,
    split_on, starts_with, starts_with_chars, string_of, upper_ascii, upper_chars, utf8_lossy,
    words, words_of,
};
pub use crate::version::is_newer;
use crate::gui_i18n::Key;
use crate::version::{first_index, newer, version_text};
use sha2::Digest;

verus! {

/// Largest package accepted for download, in bytes.
pub const MAX_PACKAGE: u64 = 67108864;

/// Largest answer read from the releases API, in bytes.
pub const MAX_RESPONSE: usize = 1048576;

#[derive(Clone, Debug)]
pub enum UpdateStatus {
    Idle,
    Checking,
    UpToDate,
    Available { latest: String, url: String },
    Downloading,
    ReadyToInstall { exe_path: String, url: String },
    InstallFailed { detail: String, url: String },
    Failed(String),
}

/// The latest release as the releases API describes it.
pub struct LatestRelease {
    pub tag_name: String,
    pub html_url: String,
    pub assets: Vec<ReleaseAsset>,
}

pub struct ReleaseAsset {
    pub name: String,
    pub browser_download_url: String,
}

/// The version of this build.
pub fn current_version() -> (r: &'static str)
    ensures
        r@ == "0.2.4-beta.3"@,
{
    "0.2.4-beta.3"
}

// ---------------------------------------------------------------------------
// Choosing the assets
// ---------------------------------------------------------------------------

pub open spec fn asset_names(assets: Seq<ReleaseAsset>) -> Seq<Seq<char>> {
    assets.map_values(|a: ReleaseAsset| a.name@)
}

/// The first position in `names` from `i` on that satisfies `p`, or
/// `names.len()`.
pub open spec fn first_where(names: Seq<Seq<char>>, p: spec_fn(Seq<char>) -> bool, i: int) -> int
    decreases names.len() - i,
{
    if i < 0 || i >= names.len() {
        names.len() as int
    } else if p(names[i]) {
        i
    } else {
        first_where(names, p, i + 1)
    }
}

pub open spec fn is_package_name(name: Seq<char>) -> bool {
    name == "GPU-Shark-win-x64.zip"@
}

pub open spec fn is_zip_name(name: Seq<char>) -> bool {
    ends_with(name, ".zip"@)
}

pub open spec fn is_sums_name(name: Seq<char>) -> bool {
    lower_ascii(name) == lower_ascii("SHA256SUMS.txt"@)
}

pub open spec fn mentions_sha256(name: Seq<char>) -> bool {
    contains(upper_ascii(name), "SHA256"@)
}

/// The package: the asset named `GPU-Shark-win-x64.zip`, or else the first
/// `.zip` asset.
pub open spec fn package_index(names: Seq<Seq<char>>) -> int {
    let exact = first_where(names, |n: Seq<char>| is_package_name(n), 0);
    if exact < names.len() {
        exact
    } else {
        first_where(names, |n: Seq<char>| is_zip_name(n), 0)
    }
}

/// The checksum list: the asset named `SHA256SUMS.txt` in any ASCII case,
/// or else the first asset whose name mentions `SHA256`.
pub open spec fn sums_index(names: Seq<Seq<char>>) -> int {
    let exact = first_where(names, |n: Seq<char>| is_sums_name(n), 0);
    if exact < names.len() {
        exact
    } else {
        first_where(names, |n: Seq<char>| mentions_sha256(n), 0)
    }
}

proof fn lemma_first_where_bounds(names: Seq<Seq<char>>, p: spec_fn(Seq<char>) -> bool, i: int)
    requires
        0 <= i <= names.len(),
    ensures
        i <= first_where(names, p, i) <= names.len(),
        first_where(names, p, i) < names.len() ==> p(names[first_where(names, p, i)]),
    decreases names.len() - i,
{
    if i < names.len() && !p(names[i]) {
        lemma_first_where_bounds(names, p, i + 1);
    }
}

/// Which kind of name the search looks for.
#[derive(Clone, Copy)]
enum NameTest {
    Package,
    Zip,
    Sums,
    MentionsSha256,
}

spec fn name_test(t: NameTest) -> spec_fn(Seq<char>) -> bool {
    match t {
        NameTest::Package => |n: Seq<char>| is_package_name(n),
        NameTest::Zip => |n: Seq<char>| is_zip_name(n),
        NameTest::Sums => |n: Seq<char>| is_sums_name(n),
        NameTest::MentionsSha256 => |n: Seq<char>| mentions_sha256(n),
    }
}

fn passes(t: NameTest, name: &str) -> (r: bool)
    ensures
        r == (name_test(t))(name@),
{
    let n = chars_of(name);
    match t {
        NameTest::Package => chars_equal(&n, &chars_of("GPU-Shark-win-x64.zip")),
        NameTest::Zip => ends_with_chars(&n, &chars_of(".zip")),
        NameTest::Sums => chars_equal(&lower_chars(&n), &lower_chars(&chars_of("SHA256SUMS.txt"))),
        NameTest::MentionsSha256 => contains_chars(&upper_chars(&n), &chars_of("SHA256")),
    }
}

fn find_asset(assets: &Vec<ReleaseAsset>, t: NameTest) -> (r: usize)
    ensures
        r as int == first_where(asset_names(assets@), name_test(t), 0),
{
    let ghost names = asset_names(assets@);
    let mut i: usize = 0;
    while i < assets.len()
        invariant
            i <= assets@.len(),
            names == asset_names(assets@),
            first_where(names, name_test(t), 0) == first_where(names, name_test(t), i as int),
        decreases assets@.len() - i,
    {
        if passes(t, assets[i].name.as_str()) {
            return i;
        }
        i = i + 1;
    }
    i
}

/// The package and checksum list of a release, when both are there.
pub fn find_package(release: &LatestRelease) -> (r: Option<(&ReleaseAsset, &ReleaseAsset)>)
    ensures
        ({
            let names = asset_names(release.assets@);
            let p = package_index(names);
            let s = sums_index(names);
            match r {
                Some((package, sums)) => p < names.len() && s < names.len() && *package
                    == release.assets@[p] && *sums == release.assets@[s],
                None => p >= names.len() || s >= names.len(),
            }
        }),
{
    let ghost names = asset_names(release.assets@);
    proof {
        lemma_first_where_bounds(names, name_test(NameTest::Package), 0);
        lemma_first_where_bounds(names, name_test(NameTest::Zip), 0);
        lemma_first_where_bounds(names, name_test(NameTest::Sums), 0);
        lemma_first_where_bounds(names, name_test(NameTest::MentionsSha256), 0);
    }
    let mut package = find_asset(&release.assets, NameTest::Package);
    if package >= release.assets.len() {
        package = find_asset(&release.assets, NameTest::Zip);
    }
    if package >= release.assets.len() {
        return None;
    }
    let mut sums = find_asset(&release.assets, NameTest::Sums);
    if sums >= release.assets.len() {
        sums = find_asset(&release.assets, NameTest::MentionsSha256);
    }
    if sums >= release.assets.len() {
        return None;
    }
    Some((&release.assets[package], &release.assets[sums]))
}

// ---------------------------------------------------------------------------
// Download locations
// ---------------------------------------------------------------------------

/// The host and path of an `https://` URL: the host runs to the first `/`,
/// and the path is everything from there (`/` when there is none).
pub open spec fn https_parts(url: Seq<char>) -> Option<(Seq<char>, Seq<char>)> {
    if !starts_with(url, "https://"@) {
        None
    } else {
        let rest = url.skip(8);
        let k = first_index(rest, '/');
        if k < rest.len() {
            Some((rest.take(k), rest.skip(k)))
        } else {
            Some((rest, "/"@))
        }
    }
}

/// Returns `(host, path)` for an https URL. Only https URLs are accepted so a
/// crafted release asset cannot downgrade the transport.
pub fn split_https_url(url: &str) -> (r: Result<(String, String), String>)
    ensures
        https_parts(url@) is None ==> (r matches Err(e) && e@ == "Only https URLs are supported"@),
        https_parts(url@) matches Some(parts) ==> (r matches Ok(v) && v.0@ == parts.0 && v.1@
            == parts.1),
{
    let u = chars_of(url);
    let scheme = chars_of("https://");
    proof {
        reveal_strlit("https://");
    }
    if !starts_with_chars(&u, &scheme) {
        return Err(String::from_str("Only https URLs are supported"));
    }
    let rest = slice_chars(&u, 8, u.len());
    assert(rest@ == u@.skip(8));
    let mut k: usize = 0;
    assert(rest@.skip(0) == rest@);
    while k < rest.len() && rest[k] != '/'
        invariant
            k <= rest@.len(),
            first_index(rest@, '/') == k + first_index(rest@.skip(k as int), '/'),
        decreases rest@.len() - k,
    {
        proof {
            assert(rest@.skip(k as int).drop_first() == rest@.skip(k + 1));
        }
        k = k + 1;
    }
    proof {
        if k < rest@.len() {
            assert(rest@.skip(k as int)[0] == '/');
        }
    }
    if k < rest.len() {
        let host = slice_chars(&rest, 0, k);
        let path = slice_chars(&rest, k, rest.len());
        assert(host@ == rest@.take(k as int));
        assert(path@ == rest@.skip(k as int));
        Ok((string_of(&host), string_of(&path)))
    } else {
        Ok((string_of(&rest), String::from_str("/")))
    }
}

/// Refuses a downloaded package above `MAX_PACKAGE` bytes.
pub fn check_package_size(len: usize) -> (r: Result<(), String>)
    ensures
        r is Ok <==> len as int <= MAX_PACKAGE,
        r matches Err(e) ==> e@ == "Package is too large"@,
{
    if len as u64 > MAX_PACKAGE {
        Err(String::from_str("Package is too large"))
    } else {
        Ok(())
    }
}

/// The read budget after a chunk of `read` bytes brought a response to
/// `total` bytes; `None` when the response outgrew the budget `limit`.
pub fn next_response_limit(total: usize, limit: usize, read: usize) -> (r: Option<usize>)
    requires
        read <= total,
    ensures
        total > limit ==> r is None,
        total <= limit ==> r == Some((limit - read) as usize),
{
    if total > limit {
        None
    } else {
        Some(limit - read)
    }
}

/// The directory name for a release tag: the tag without surrounding white
/// space and leading `v`s.
pub fn release_directory(tag: &str) -> (r: String)
    ensures
        r@ == version_text(tag@),
{
    let chars = crate::version::version_chars(tag);
    string_of(&chars)
}

// ---------------------------------------------------------------------------
// Checksums
// ---------------------------------------------------------------------------

/// `s` without one trailing carriage return.
pub open spec fn strip_cr(s: Seq<char>) -> Seq<char> {
    if s.len() > 0 && s.last() == '\r' {
        s.drop_last()
    } else {
        s
    }
}

/// The lines of `text` (`str::lines`): split at `\n`, a `\r` before the
/// `\n` dropped, and no empty line after a final line ending.
pub open spec fn text_lines(text: Seq<char>) -> Seq<Seq<char>> {
    let parts = split_on(text, '\n');
    let ended = parts.drop_last().map_values(|p: Seq<char>| strip_cr(p));
    if parts.last().len() > 0 {
        ended.push(parts.last())
    } else {
        ended
    }
}

/// Whether a line lists `hash` for `package`.
pub open spec fn lists_hash(line: Seq<char>, package: Seq<char>) -> bool {
    let w = words(line);
    &&& w.len() >= 2
    &&& w[1] == package
    &&& w[0].len() == 64
    &&& forall|i: int| 0 <= i < w[0].len() ==> is_ascii_hex_digit(#[trigger] w[0][i])
}

pub open spec fn first_listing(lines: Seq<Seq<char>>, package: Seq<char>, i: int) -> int
    decreases lines.len() - i,
{
    if i < 0 || i >= lines.len() {
        lines.len() as int
    } else if lists_hash(lines[i], package) {
        i
    } else {
        first_listing(lines, package, i + 1)
    }
}

/// The expected hash of `package` in a checksum list: the first hash of 64
/// hexadecimal digits listed for it, in upper case.
pub open spec fn expected_hash(text: Seq<char>, package: Seq<char>) -> Option<Seq<char>> {
    let lines = text_lines(text);
    let k = first_listing(lines, package, 0);
    if k < lines.len() {
        Some(upper_ascii(words(lines[k])[0]))
    } else {
        None
    }
}

fn is_hex_digit(c: char) -> (r: bool)
    ensures
        r == is_ascii_hex_digit(c),
{
    ('0' <= c && c <= '9') || ('a' <= c && c <= 'f') || ('A' <= c && c <= 'F')
}

fn line_lists_hash(line: &[char], package: &[char]) -> (r: Option<Vec<char>>)
    ensures
        r is Some <==> lists_hash(line@, package@),
        r matches Some(h) ==> h@ == words(line@)[0],
{
    let w = words_of(line);
    if w.len() < 2 {
        return None;
    }
    assert(w@[1]@ == words(line@)[1]);
    assert(w@[0]@ == words(line@)[0]);
    if !chars_equal(&w[1], package) || w[0].len() != 64 {
        return None;
    }
    let mut i: usize = 0;
    while i < 64
        invariant
            i <= 64,
            w@[0]@.len() == 64,
            w@.len() >= 2,
            char_views(w@) == words(line@),
            w@[0]@ == words(line@)[0],
            forall|k: int| 0 <= k < i ==> is_ascii_hex_digit(#[trigger] w@[0]@[k]),
        decreases 64 - i,
    {
        if !is_hex_digit(w[0][i]) {
            assert(!is_ascii_hex_digit(words(line@)[0][i as int]));
            return None;
        }
        i = i + 1;
    }
    Some(slice_chars(&w[0], 0, w[0].len()))
}

/// The expected hash of `package` in the checksum list `text`.
pub fn expected_sha256_in(text: &str, package_name: &str) -> (r: Result<String, String>)
    ensures
        expected_hash(text@, package_name@) matches Some(h) ==> (r matches Ok(v) && v@ == h),
        expected_hash(text@, package_name@) is None ==> (r matches Err(e) && e@
            == "SHA256SUMS has no entry for "@ + package_name@),
{
    let t = chars_of(text);
    let package = chars_of(package_name);
    let parts = split_chars(&t, '\n');
    let ghost lines = text_lines(t@);
    proof {
        crate::text::lemma_split_on_nonempty(t@, '\n');
    }
    let n = parts.len();
    let ghost sp = split_on(t@, '\n');
    assert(forall|k: int| 0 <= k < n - 1 ==> lines[k] == strip_cr(#[trigger] sp[k]));
    let mut i: usize = 0;
    while i < n
        invariant
            i <= n,
            n == parts@.len(),
            n >= 1,
            sp == split_on(t@, '\n'),
            t@ == text@,
            package@ == package_name@,
            sp.len() == n,
            char_views(parts@) == sp,
            lines == text_lines(t@),
            forall|k: int| 0 <= k < n - 1 ==> lines[k] == strip_cr(#[trigger] sp[k]),
            sp.last().len() > 0 ==> lines.len() == n && lines[n - 1] == sp.last(),
            sp.last().len() == 0 ==> lines.len() == n - 1,
            first_listing(lines, package@, 0) == first_listing(lines, package@, i as int),
        ensures
            i >= lines.len(),
            lines == text_lines(t@),
            first_listing(lines, package@, 0) == first_listing(lines, package@, i as int),
        decreases n - i,
    {
        let last = i + 1 == n;
        let line = if last {
            slice_chars(&parts[i], 0, parts[i].len())
        } else {
            strip_trailing_cr(&parts[i])
        };
        proof {
            assert(parts@[i as int]@ == sp[i as int]);
        }
        if last && line.len() == 0 {
            break;
        }
        proof {
            if last {
                assert(sp.last() == sp[i as int]);
            }
            assert(lines[i as int] == line@);
        }
        match line_lists_hash(&line, &package) {
            Some(hash) => {
                proof {
                    assert(i < lines.len());
                    assert(first_listing(lines, package@, i as int) == i);
                }
                return Ok(string_of(&upper_chars(&hash)));
            },
            None => {},
        }
        i = i + 1;
    }
    proof {
        lemma_first_listing_none(lines, package@, i as int);
    }
    let mut m = chars_of("SHA256SUMS has no entry for ");
    crate::text::append_str(&mut m, package_name);
    Err(string_of(&m))
}

proof fn lemma_first_listing_none(lines: Seq<Seq<char>>, package: Seq<char>, i: int)
    requires
        0 <= i,
        i >= lines.len(),
    ensures
        first_listing(lines, package, i) == lines.len(),
{
}

fn strip_trailing_cr(s: &Vec<char>) -> (r: Vec<char>)
    ensures
        r@ == strip_cr(s@),
{
    if s.len() > 0 && s[s.len() - 1] == '\r' {
        slice_chars(s, 0, s.len() - 1)
    } else {
        slice_chars(s, 0, s.len())
    }
}

/// The expected hash of `package_name` in the downloaded checksum list.
pub fn expected_sha256(sums: &[u8], package_name: &str) -> (r: Result<String, String>)
    ensures
        expected_hash(utf8_lossy(sums@), package_name@) matches Some(h) ==> (r matches Ok(v)
            && v@ == h),
        expected_hash(utf8_lossy(sums@), package_name@) is None ==> (r matches Err(e) && e@
            == "SHA256SUMS has no entry for "@ + package_name@),
{
    let text = crate::text::decode_lossy(sums);
    expected_sha256_in(text.as_str(), package_name)
}

// ---------------------------------------------------------------------------
// Check outcomes
// ---------------------------------------------------------------------------

/// An unpacked, checksum-verified update: its executable and the release
/// page it came from.
pub struct PreparedUpdate {
    pub exe_path: String,
    pub page_url: String,
}

/// What a finished update check reports: a newer tag is available, an equal
/// or older one means up to date, and a failed request is reported as is.
pub open spec fn check_result(fetched: Result<LatestRelease, String>) -> UpdateStatus {
    match fetched {
        Ok(release) => if newer(release.tag_name@, "0.2.4-beta.3"@) {
            UpdateStatus::Available { latest: release.tag_name, url: release.html_url }
        } else {
            UpdateStatus::UpToDate
        },
        Err(error) => UpdateStatus::Failed(error),
    }
}

/// What a finished update check reports.
pub fn check_outcome(fetched: Result<LatestRelease, String>) -> (r: UpdateStatus)
    ensures
        r == check_result(fetched),
{
    match fetched {
        Ok(release) => {
            if is_newer(release.tag_name.as_str(), current_version()) {
                UpdateStatus::Available { latest: release.tag_name, url: release.html_url }
            } else {
                UpdateStatus::UpToDate
            }
        },
        Err(error) => UpdateStatus::Failed(error),
    }
}

/// A check downloads and installs nothing: what it reports is never a
/// download under way or an installable package, and the most its update
/// action offers is a download, which takes a click.
pub proof fn law_a_check_installs_nothing(fetched: Result<LatestRelease, String>)
    ensures
        !(check_result(fetched) is Downloading),
        !(check_result(fetched) is ReadyToInstall),
        !(click_for(check_result(fetched)) is Install),
{
}

/// Whether `status` is what a finished download of `prepared` reports: the
/// unpacked executable and the release page, or why preparing failed, with
/// no page to offer.
pub open spec fn prepare_result(prepared: Result<PreparedUpdate, String>, status: UpdateStatus) -> bool {
    match prepared {
        Ok(p) => status == UpdateStatus::ReadyToInstall { exe_path: p.exe_path, url: p.page_url },
        Err(e) => status matches UpdateStatus::InstallFailed { detail, url } && detail == e
            && url@.len() == 0,
    }
}

/// What a finished download reports.
pub fn prepare_outcome(prepared: Result<PreparedUpdate, String>) -> (r: UpdateStatus)
    ensures
        prepare_result(prepared, r),
{
    match prepared {
        Ok(p) => UpdateStatus::ReadyToInstall { exe_path: p.exe_path, url: p.page_url },
        Err(detail) => UpdateStatus::InstallFailed { detail, url: String::new() },
    }
}

/// What clicking the update action does for a status.
#[derive(Clone, Debug)]
pub enum UpdateClick {
    /// Check for a newer release.
    Check,
    /// Download and unpack the newer release.
    Download,
    /// Install the unpacked executable at this path.
    Install(String),
    /// A check or download is under way: nothing.
    Wait,
}

pub open spec fn click_for(status: UpdateStatus) -> UpdateClick {
    match status {
        UpdateStatus::Available { .. } => UpdateClick::Download,
        UpdateStatus::InstallFailed { .. } => UpdateClick::Download,
        UpdateStatus::ReadyToInstall { exe_path, .. } => UpdateClick::Install(exe_path),
        UpdateStatus::Checking => UpdateClick::Wait,
        UpdateStatus::Downloading => UpdateClick::Wait,
        _ => UpdateClick::Check,
    }
}

/// The release page a status offers, if it names a non-empty one.
pub open spec fn page_of(status: UpdateStatus) -> Option<Seq<char>> {
    match status {
        UpdateStatus::Available { url, .. } => if url@.len() > 0 {
            Some(url@)
        } else {
            None
        },
        UpdateStatus::ReadyToInstall { url, .. } => if url@.len() > 0 {
            Some(url@)
        } else {
            None
        },
        UpdateStatus::InstallFailed { url, .. } => if url@.len() > 0 {
            Some(url@)
        } else {
            None
        },
        _ => None,
    }
}

/// The text the about panel's status line shows for a status: nothing
/// before any check unless automatic checks are off, which it then says.
pub open spec fn status_key_of(status: UpdateStatus, check_updates: bool) -> Option<Key> {
    match status {
        UpdateStatus::Idle => if check_updates {
            None
        } else {
            Some(Key::UpdateDisabled)
        },
        UpdateStatus::Checking => Some(Key::UpdateChecking),
        UpdateStatus::UpToDate => Some(Key::UpdateUpToDate),
        UpdateStatus::Available { .. } => Some(Key::UpdateAvailable),
        UpdateStatus::Downloading => Some(Key::UpdateDownloading),
        UpdateStatus::ReadyToInstall { .. } => Some(Key::UpdateReady),
        UpdateStatus::InstallFailed { .. } => Some(Key::UpdateInstallFailed),
        UpdateStatus::Failed(_) => Some(Key::UpdateFailed),
    }
}

/// The text of the about panel's status line.
pub fn update_status_key(status: &UpdateStatus, check_updates: bool) -> (r: Option<Key>)
    ensures
        r == status_key_of(*status, check_updates),
{
    match status {
        UpdateStatus::Idle => if check_updates {
            None
        } else {
            Some(Key::UpdateDisabled)
        },
        UpdateStatus::Checking => Some(Key::UpdateChecking),
        UpdateStatus::UpToDate => Some(Key::UpdateUpToDate),
        UpdateStatus::Available { .. } => Some(Key::UpdateAvailable),
        UpdateStatus::Downloading => Some(Key::UpdateDownloading),
        UpdateStatus::ReadyToInstall { .. } => Some(Key::UpdateReady),
        UpdateStatus::InstallFailed { .. } => Some(Key::UpdateInstallFailed),
        UpdateStatus::Failed(_) => Some(Key::UpdateFailed),
    }
}

/// The label of the update action: none while a check or download runs.
pub fn update_action_key(click: &UpdateClick) -> (r: Option<Key>)
    ensures
        r == (match *click {
            UpdateClick::Check => Some(Key::UpdateCheck),
            UpdateClick::Download => Some(Key::UpdateInstall),
            UpdateClick::Install(_) => Some(Key::UpdateRestart),
            UpdateClick::Wait => None,
        }),
{
    match click {
        UpdateClick::Check => Some(Key::UpdateCheck),
        UpdateClick::Download => Some(Key::UpdateInstall),
        UpdateClick::Install(_) => Some(Key::UpdateRestart),
        UpdateClick::Wait => None,
    }
}

fn copy_status(status: &UpdateStatus) -> (r: UpdateStatus)
    ensures
        r == *status,
{
    match status {
        UpdateStatus::Idle => UpdateStatus::Idle,
        UpdateStatus::Checking => UpdateStatus::Checking,
        UpdateStatus::UpToDate => UpdateStatus::UpToDate,
        UpdateStatus::Available { latest, url } => UpdateStatus::Available {
            latest: latest.clone(),
            url: url.clone(),
        },
        UpdateStatus::Downloading => UpdateStatus::Downloading,
        UpdateStatus::ReadyToInstall { exe_path, url } => UpdateStatus::ReadyToInstall {
            exe_path: exe_path.clone(),
            url: url.clone(),
        },
        UpdateStatus::InstallFailed { detail, url } => UpdateStatus::InstallFailed {
            detail: detail.clone(),
            url: url.clone(),
        },
        UpdateStatus::Failed(e) => UpdateStatus::Failed(e.clone()),
    }
}

/// The update status the window shows, and whether a check, download or
/// installation is running in the background. Only one runs at a time.
pub struct UpdateTracker {
    status: UpdateStatus,
    running: bool,
}

impl UpdateTracker {
    pub closed spec fn current(&self) -> UpdateStatus {
        self.status
    }

    pub closed spec fn busy(&self) -> bool {
        self.running
    }

    /// Nothing checked, nothing running.
    pub fn new() -> (r: Self)
        ensures
            r.current() == UpdateStatus::Idle,
            !r.busy(),
    {
        UpdateTracker { status: UpdateStatus::Idle, running: false }
    }

    /// The status as it is now.
    pub fn snapshot(&self) -> (r: UpdateStatus)
        ensures
            r == self.current(),
    {
        copy_status(&self.status)
    }

    /// What clicking the update action does now.
    pub fn click(&self) -> (r: UpdateClick)
        ensures
            r == click_for(self.current()),
    {
        match &self.status {
            UpdateStatus::Available { .. } => UpdateClick::Download,
            UpdateStatus::InstallFailed { .. } => UpdateClick::Download,
            UpdateStatus::ReadyToInstall { exe_path, .. } => UpdateClick::Install(exe_path.clone()),
            UpdateStatus::Checking => UpdateClick::Wait,
            UpdateStatus::Downloading => UpdateClick::Wait,
            _ => UpdateClick::Check,
        }
    }

    /// The release page to open, if the status offers one.
    pub fn release_page(&self) -> (r: Option<String>)
        ensures
            crate::text::string_opt_view(r) == page_of(self.current()),
    {
        match &self.status {
            UpdateStatus::Available { url, .. } | UpdateStatus::ReadyToInstall { url, .. }
            | UpdateStatus::InstallFailed { url, .. } => {
                if !url.as_str().is_empty() {
                    Some(url.clone())
                } else {
                    None
                }
            },
            _ => None,
        }
    }

    /// Starts a check unless a task is running; says whether it started.
    pub fn begin_check(&mut self) -> (started: bool)
        ensures
            started == !old(self).busy(),
            started ==> final(self).current() == UpdateStatus::Checking && final(self).busy(),
            !started ==> final(self).current() == old(self).current() && final(self).busy(),
    {
        if self.running {
            return false;
        }
        self.running = true;
        self.status = UpdateStatus::Checking;
        true
    }

    /// Takes in a finished check.
    pub fn finish_check(&mut self, fetched: Result<LatestRelease, String>)
        ensures
            final(self).current() == check_result(fetched),
            !final(self).busy(),
    {
        self.status = check_outcome(fetched);
        self.running = false;
    }

    /// Starts downloading unless a task is running; says whether it started.
    pub fn begin_download(&mut self) -> (started: bool)
        ensures
            started == !old(self).busy(),
            started ==> final(self).current() == UpdateStatus::Downloading && final(self).busy(),
            !started ==> final(self).current() == old(self).current() && final(self).busy(),
    {
        if self.running {
            return false;
        }
        self.running = true;
        self.status = UpdateStatus::Downloading;
        true
    }

    /// Takes in a finished download.
    pub fn finish_download(&mut self, prepared: Result<PreparedUpdate, String>)
        ensures
            prepare_result(prepared, final(self).current()),
            !final(self).busy(),
    {
        self.status = prepare_outcome(prepared);
        self.running = false;
    }

    /// Starts installing unless a task is running; says whether it started.
    /// The status stays as it is while the installation runs.
    pub fn begin_install(&mut self) -> (started: bool)
        ensures
            started == !old(self).busy(),
            final(self).current() == old(self).current(),
            final(self).busy(),
    {
        if self.running {
            return false;
        }
        self.running = true;
        true
    }

    /// Takes in a finished installation; says whether the application
    /// restarts into the new version. A failure is shown with no page.
    pub fn finish_install(&mut self, installed: Result<(), String>) -> (restart: bool)
        ensures
            restart == installed is Ok,
            installed is Ok ==> final(self).current() == old(self).current(),
            installed matches Err(e) ==> (final(self).current() matches UpdateStatus::InstallFailed {
                detail,
                url,
            } && detail == e && url@.len() == 0),
            !final(self).busy(),
    {
        self.running = false;
        match installed {
            Ok(()) => true,
            Err(detail) => {
                self.status = UpdateStatus::InstallFailed { detail, url: String::new() };
                false
            },
        }
    }
}

/// Whether a file in an unpacked package is the application executable.
pub fn is_package_executable(file_name: &str) -> (r: bool)
    ensures
        r == (lower_ascii(file_name@) == lower_ascii("GPU-Shark.exe"@) || lower_ascii(file_name@)
            == lower_ascii("gpu-shark-gui.exe"@)),
{
    let n = lower_chars(&chars_of(file_name));
    chars_equal(&n, &lower_chars(&chars_of("GPU-Shark.exe"))) || chars_equal(
        &n,
        &lower_chars(&chars_of("gpu-shark-gui.exe")),
    )
}

// ---------------------------------------------------------------------------
// Package verification
// ---------------------------------------------------------------------------

/// The SHA-256 digest of `data`, as `sha2::Sha256::digest` computes it.
pub uninterp spec fn sha256_of(data: Seq<u8>) -> Seq<u8>;

/// `sha2::Sha256::digest`: the digest of `data`, 32 bytes long.
#[verifier::external_body]
fn sha256_digest(data: &[u8]) -> (r: Vec<u8>)
    ensures
        r@ == sha256_of(data@),
        r@.len() == 32,
{
    sha2::Sha256::digest(data).to_vec()
}

pub open spec fn hex_digit_upper(d: int) -> char {
    if d < 10 {
        (('0' as int) + d) as char
    } else {
        (('A' as int) + d - 10) as char
    }
}

/// Upper-case hexadecimal notation of `bytes`, two digits per byte.
pub open spec fn hex_upper(bytes: Seq<u8>) -> Seq<char>
    decreases bytes.len(),
{
    if bytes.len() == 0 {
        Seq::empty()
    } else {
        hex_upper(bytes.drop_last()) + seq![
            hex_digit_upper(bytes.last() as int / 16),
            hex_digit_upper(bytes.last() as int % 16),
        ]
    }
}

fn hex_char(d: u8) -> (r: char)
    requires
        d < 16,
    ensures
        r == hex_digit_upper(d as int),
{
    if d < 10 {
        ((48 + d) as u8) as char
    } else {
        ((55 + d) as u8) as char
    }
}

/// Upper-case hexadecimal notation of `bytes`.
pub fn to_hex_upper(bytes: &[u8]) -> (r: Vec<char>)
    ensures
        r@ == hex_upper(bytes@),
{
    let mut r: Vec<char> = Vec::new();
    let mut i: usize = 0;
    while i < bytes.len()
        invariant
            i <= bytes@.len(),
            r@ == hex_upper(bytes@.take(i as int)),
        decreases bytes@.len() - i,
    {
        let b = bytes[i];
        r.push(hex_char(b / 16));
        r.push(hex_char(b % 16));
        i = i + 1;
        proof {
            let t = bytes@.take(i as int);
            assert(t.drop_last() == bytes@.take(i - 1));
            assert(t.last() == b);
        }
    }
    assert(bytes@.take(bytes@.len() as int) == bytes@);
    r
}

/// Accepts a digest whose hexadecimal notation matches `expected` in any
/// ASCII case.
pub fn check_digest(digest: &[u8], expected: &str) -> (r: Result<(), String>)
    ensures
        r is Ok <==> hex_upper(digest@) == upper_ascii(expected@),
        r matches Err(e) ==> e@ == "Checksum mismatch: expected "@ + expected@ + ", got "@
            + hex_upper(digest@),
{
    let actual = to_hex_upper(digest);
    let wanted = upper_chars(&chars_of(expected));
    if chars_equal(&actual, &wanted) {
        Ok(())
    } else {
        let mut m = chars_of("Checksum mismatch: expected ");
        crate::text::append_str(&mut m, expected);
        crate::text::append_str(&mut m, ", got ");
        let m = concat_chars(&m, &actual);
        Err(string_of(&m))
    }
}

/// Accepts package bytes whose SHA-256 digest is `expected`.
pub fn verify_sha256(data: &[u8], expected: &str) -> (r: Result<(), String>)
    ensures
        r is Ok <==> hex_upper(sha256_of(data@)) == upper_ascii(expected@),
        r matches Err(e) ==> e@ == "Checksum mismatch: expected "@ + expected@ + ", got "@
            + hex_upper(sha256_of(data@)),
{
    let digest = sha256_digest(data);
    check_digest(digest.as_slice(), expected)
}

/// The message for a release without a package and checksum list.
pub open spec fn no_package_error() -> Seq<char> {
    "The release has no verifiable package"@
}

/// Whether downloaded package bytes may be unpacked: the release names a
/// package and a checksum list, the list gives the package's hash, and the
/// package's SHA-256 digest has that hash (in any ASCII case). Otherwise
/// the error says which of these failed.
pub fn package_ready(release: &LatestRelease, sums: &[u8], package: &[u8]) -> (r: Result<(), String>)
    ensures
        ({
            let names = asset_names(release.assets@);
            let p = package_index(names);
            let s = sums_index(names);
            if p >= names.len() || s >= names.len() {
                r matches Err(e) && e@ == no_package_error()
            } else {
                let name = release.assets@[p].name@;
                match expected_hash(utf8_lossy(sums@), name) {
                    None => r matches Err(e) && e@ == "SHA256SUMS has no entry for "@ + name,
                    Some(h) => (r is Ok <==> hex_upper(sha256_of(package@)) == upper_ascii(h)) && (
                    r matches Err(e) ==> e@ == "Checksum mismatch: expected "@ + h + ", got "@
                        + hex_upper(sha256_of(package@))),
                }
            }
        }),
{
    let asset = match find_package(release) {
        Some((asset, _)) => asset,
        None => return Err(String::from_str("The release has no verifiable package")),
    };
    let expected = match expected_sha256(sums, asset.name.as_str()) {
        Ok(h) => h,
        Err(e) => return Err(e),
    };
    verify_sha256(package, expected.as_str())
}

/// A piece of file work in putting a prepared executable in place of the
/// running one. The caller performs it and reports how it went.
#[derive(Clone, Debug)]
pub enum InstallStep {
    /// Remove a backup left by an earlier update; how this goes is not
    /// reported.
    ClearBackup,
    /// Move the running executable aside as the backup.
    Backup,
    /// Copy the prepared executable into the running one's place.
    Place,
    /// Move the backup back into place after placing failed; how this goes
    /// is not reported. The install then fails with `placement_error`.
    RestoreBackup { placement_error: String },
}

/// What to do next in an install.
#[derive(Debug)]
pub enum InstallProgress {
    /// Perform this step and report its outcome to `advance_install`.
    Perform(InstallStep),
    /// The install is over.
    Finished(Result<(), String>),
}

/// The first step of an install.
pub fn install_prepared() -> (r: InstallStep)
    ensures
        r is ClearBackup,
{
    InstallStep::ClearBackup
}

fn prefixed(prefix: &str, detail: &str) -> (r: String)
    ensures
        r@ == prefix@ + detail@,
{
    let mut r = String::from_str(prefix);
    r.append(detail);
    r
}

/// Takes in how a step went. Clearing the old backup always leads to the
/// backup; a failed backup ends the install with its error and a made one
/// leads to placing; placing ends the install when it went well, and
/// otherwise leads to restoring the backup, after which the install fails
/// with the placing error.
pub fn advance_install(step: InstallStep, outcome: Result<(), String>) -> (r: InstallProgress)
    ensures
        step is ClearBackup ==> r matches InstallProgress::Perform(InstallStep::Backup),
        step is Backup ==> (match outcome {
            Ok(()) => r matches InstallProgress::Perform(InstallStep::Place),
            Err(e) => r matches InstallProgress::Finished(Err(m)) && m@
                == "Could not back up the current executable: "@ + e@,
        }),
        step is Place ==> (match outcome {
            Ok(()) => r matches InstallProgress::Finished(Ok(())),
            Err(e) => r matches InstallProgress::Perform(
                InstallStep::RestoreBackup { placement_error: m },
            ) && m@ == "Could not place the update: "@ + e@,
        }),
        step matches InstallStep::RestoreBackup { placement_error: p } ==> (
        r matches InstallProgress::Finished(Err(m)) && m@ == p@),
{
    match step {
        InstallStep::ClearBackup => InstallProgress::Perform(InstallStep::Backup),
        InstallStep::Backup => match outcome {
            Ok(()) => InstallProgress::Perform(InstallStep::Place),
            Err(e) => InstallProgress::Finished(
                Err(prefixed("Could not back up the current executable: ", e.as_str())),
            ),
        },
        InstallStep::Place => match outcome {
            Ok(()) => InstallProgress::Finished(Ok(())),
            Err(e) => InstallProgress::Perform(
                InstallStep::RestoreBackup {
                    placement_error: prefixed("Could not place the update: ", e.as_str()),
                },
            ),
        },
        InstallStep::RestoreBackup { placement_error } => InstallProgress::Finished(
            Err(placement_error),
        ),
    }
}


} // verus!
