//! Update checks: reading a release notice and comparing versions.

use vstd::prelude::*;
use vstd::string::*;

use crate::engine::notifications::{
    notify_up_to_date, notify_update_available, toast_of, Toast,
};
use crate::json::{json_document, parse_json, text_field, text_under, JsonDocument, JsonDocumentView};
use crate::text::{concat2, decimal, opt_text, trim_leading, without_leading};

verus! {

/// Seconds between start-up and the check for updates.
pub const CHECK_DELAY_SECS: u64 = 10;

/// Where the latest release is announced.
pub fn release_url() -> (r: String)
    ensures
        r@ == "https://api.github.com/repos/IshekKhal/gingify/releases/latest"@,
{
    "https://api.github.com/repos/IshekKhal/gingify/releases/latest".to_owned()
}

/// How the application names itself when it asks.
pub fn user_agent(current: &str) -> (r: String)
    ensures
        r@ == "Gingify/"@ + current@,
{
    concat2("Gingify/", current)
}

// ---------------------------------------------------------------------------
// Results and errors
// ---------------------------------------------------------------------------

/// A version that is newer than the running one.
#[derive(Debug, PartialEq, Eq)]
pub struct UpdateInfo {
    /// The version, without a leading "v".
    pub version: String,
    /// Where it can be had.
    pub download_url: String,
}

/// Why no check could be made.
#[derive(Debug, PartialEq, Eq)]
pub enum UpdateError {
    /// The notice could not be had.
    Network(String),
    /// The announced version, and why it is none.
    VersionParse(String, String),
    /// The running version, and why it is none.
    CurrentVersionParse(String, String),
    /// The notice lacks this field.
    MissingField(String),
}

/// A newer version as plain mathematical values.
#[verifier::ext_equal]
pub struct UpdateInfoView {
    pub version: Seq<char>,
    pub download_url: Seq<char>,
}

impl View for UpdateInfo {
    type V = UpdateInfoView;

    open spec fn view(&self) -> UpdateInfoView {
        UpdateInfoView { version: self.version@, download_url: self.download_url@ }
    }
}

impl Clone for UpdateInfo {
    fn clone(&self) -> (r: Self)
        ensures
            r == *self,
    {
        UpdateInfo { version: self.version.clone(), download_url: self.download_url.clone() }
    }
}

/// An error as plain mathematical values.
#[verifier::ext_equal]
pub enum UpdateErrorView {
    Network(Seq<char>),
    VersionParse(Seq<char>, Seq<char>),
    CurrentVersionParse(Seq<char>, Seq<char>),
    MissingField(Seq<char>),
}

impl View for UpdateError {
    type V = UpdateErrorView;

    open spec fn view(&self) -> UpdateErrorView {
        match self {
            UpdateError::Network(e) => UpdateErrorView::Network(e@),
            UpdateError::VersionParse(v, e) => UpdateErrorView::VersionParse(v@, e@),
            UpdateError::CurrentVersionParse(v, e) => UpdateErrorView::CurrentVersionParse(v@, e@),
            UpdateError::MissingField(f) => UpdateErrorView::MissingField(f@),
        }
    }
}

impl UpdateErrorView {
    /// The text of the error.
    pub open spec fn text(self) -> Seq<char> {
        match self {
            UpdateErrorView::Network(e) => "Network request failed: "@ + e,
            UpdateErrorView::VersionParse(v, e) => "Failed to parse remote version '"@ + v + "': "@
                + e,
            UpdateErrorView::CurrentVersionParse(v, e) => "Failed to parse current version '"@ + v
                + "': "@ + e,
            UpdateErrorView::MissingField(f) => "GitHub API response missing expected field: "@ + f,
        }
    }
}

impl UpdateError {
    /// The text of the error.
    pub fn message(&self) -> (r: String)
        ensures
            r@ == self@.text(),
    {
        match self {
            UpdateError::Network(e) => concat2("Network request failed: ", e.as_str()),
            UpdateError::VersionParse(v, e) => {
                let mut r: String = concat2("Failed to parse remote version '", v.as_str());
                r.append("': ");
                r.append(e.as_str());
                r
            },
            UpdateError::CurrentVersionParse(v, e) => {
                let mut r: String = concat2("Failed to parse current version '", v.as_str());
                r.append("': ");
                r.append(e.as_str());
                r
            },
            UpdateError::MissingField(f) => concat2(
                "GitHub API response missing expected field: ",
                f.as_str(),
            ),
        }
    }
}

/// What came of a check, as plain mathematical values.
pub open spec fn outcome_view(r: Result<Option<UpdateInfo>, UpdateError>) -> Result<
    Option<UpdateInfoView>,
    UpdateErrorView,
> {
    match r {
        Ok(Some(info)) => Ok(Some(info@)),
        Ok(None) => Ok(None),
        Err(e) => Err(e@),
    }
}

// ---------------------------------------------------------------------------
// Versions
// ---------------------------------------------------------------------------

/// Why a text is no version; nothing where it is one.
pub uninterp spec fn version_error(text: Seq<char>) -> Option<Seq<char>>;

/// The first version comes behind the second.
pub uninterp spec fn version_newer(a: Seq<char>, b: Seq<char>) -> bool;

/// A plain version: three numbers with dots between them.
pub open spec fn plain_version(major: u64, minor: u64, patch: u64) -> Seq<char> {
    decimal(major as nat) + "."@ + decimal(minor as nat) + "."@ + decimal(patch as nat)
}

/// The first plain version comes behind the second.
pub open spec fn comes_later(a: (u64, u64, u64), b: (u64, u64, u64)) -> bool {
    ||| a.0 > b.0
    ||| a.0 == b.0 && a.1 > b.1
    ||| a.0 == b.0 && a.1 == b.1 && a.2 > b.2
}

/// `semver::Version::parse`, as far as it tells why a text is no version. Claims
/// that this depends on the text alone, and that three numbers of 64 bits without
/// leading zeros, with dots between them, are a version.
#[verifier::external_body]
fn version_problem(text: &str) -> (r: Option<String>)
    ensures
        opt_text(r) == version_error(text@),
        forall|x: u64, y: u64, z: u64| text@ == #[trigger] plain_version(x, y, z) ==> r is None,
{
    semver::Version::parse(text).err().map(|e| e.to_string())
}

/// `>` on two values of `semver::Version`. Claims that it depends on the two
/// texts alone, is never true both ways nor of a version and itself, and orders
/// plain versions by their numbers, the first number first.
#[verifier::external_body]
fn is_newer(a: &str, b: &str) -> (r: bool)
    requires
        version_error(a@) is None,
        version_error(b@) is None,
    ensures
        r == version_newer(a@, b@),
        r ==> !version_newer(b@, a@),
        a@ == b@ ==> !r,
        forall|x: u64, y: u64, z: u64, u: u64, v: u64, w: u64|
            a@ == #[trigger] plain_version(x, y, z) && b@ == #[trigger] plain_version(u, v, w)
                ==> r == comes_later((x, y, z), (u, v, w)),
{
    match (semver::Version::parse(a), semver::Version::parse(b)) {
        (Ok(a), Ok(b)) => a > b,
        _ => false,
    }
}

// ---------------------------------------------------------------------------
// The check
// ---------------------------------------------------------------------------

/// An announced release.
#[derive(Debug, PartialEq, Eq)]
pub struct Release {
    /// Its version, without any leading "v".
    pub version: String,
    /// Where it can be had.
    pub download_url: String,
}

/// Where a release can be had: where the notice says, else at the site's front
/// page.
pub open spec fn release_page(document: JsonDocumentView) -> Seq<char> {
    match text_under(document, "html_url"@) {
        Some(url) => url,
        None => "https://github.com"@,
    }
}

/// Reads a release notice.
pub fn read_release(document: &JsonDocument) -> (r: Result<Release, UpdateError>)
    ensures
        match text_under(document@, "tag_name"@) {
            Some(tag) => r is Ok && r->Ok_0.version@ == without_leading(tag, 'v')
                && r->Ok_0.download_url@ == release_page(document@),
            None => r is Err && r->Err_0@ == UpdateErrorView::MissingField("tag_name"@),
        },
{
    match text_field(document, "tag_name") {
        Some(tag) => {
            let download_url: String = match text_field(document, "html_url") {
                Some(url) => url,
                None => "https://github.com".to_owned(),
            };
            Ok(Release { version: trim_leading(tag.as_str(), 'v'), download_url })
        },
        None => Err(UpdateError::MissingField("tag_name".to_owned())),
    }
}

/// What a release amounts to for a running version, given what is wrong with
/// either version and whether the release is newer.
pub open spec fn verdict_on(
    version: Seq<char>,
    download_url: Seq<char>,
    current: Seq<char>,
    remote_error: Option<Seq<char>>,
    current_error: Option<Seq<char>>,
    newer: bool,
) -> Result<Option<UpdateInfoView>, UpdateErrorView> {
    match (remote_error, current_error) {
        (Some(e), _) => Err(UpdateErrorView::VersionParse(version, e)),
        (None, Some(e)) => Err(UpdateErrorView::CurrentVersionParse(current, e)),
        (None, None) => if newer {
            Ok(Some(UpdateInfoView { version, download_url }))
        } else {
            Ok(None)
        },
    }
}

/// What a release amounts to for a running version.
pub fn verdict(
    release: Release,
    current: &str,
    remote_error: Option<String>,
    current_error: Option<String>,
    newer: bool,
) -> (r: Result<Option<UpdateInfo>, UpdateError>)
    ensures
        outcome_view(r) == verdict_on(
            release.version@,
            release.download_url@,
            current@,
            opt_text(remote_error),
            opt_text(current_error),
            newer,
        ),
{
    if let Some(e) = remote_error {
        return Err(UpdateError::VersionParse(release.version, e));
    }
    if let Some(e) = current_error {
        return Err(UpdateError::CurrentVersionParse(current.to_owned(), e));
    }
    if newer {
        Ok(
            Some(
                UpdateInfo { version: release.version, download_url: release.download_url },
            ),
        )
    } else {
        Ok(None)
    }
}

/// What a release notice amounts to for a running version.
pub open spec fn notice_outcome(document: JsonDocumentView, current: Seq<char>) -> Result<
    Option<UpdateInfoView>,
    UpdateErrorView,
> {
    match text_under(document, "tag_name"@) {
        Some(tag) => {
            let version = without_leading(tag, 'v');
            verdict_on(
                version,
                release_page(document),
                current,
                version_error(version),
                version_error(current),
                version_newer(version, current),
            )
        },
        None => Err(UpdateErrorView::MissingField("tag_name"@)),
    }
}

/// Compares an announced release with the running version. The running version
/// itself is no update, and of two plain versions the numbers decide.
pub fn check_release(document: &JsonDocument, current: &str) -> (r: Result<
    Option<UpdateInfo>,
    UpdateError,
>)
    ensures
        outcome_view(r) == notice_outcome(document@, current@),
        text_under(document@, "tag_name"@) matches Some(tag) ==> without_leading(tag, 'v')
            == current@ ==> !(r matches Ok(Some(_))),
        text_under(document@, "tag_name"@) matches Some(tag) ==> forall|
            x: u64,
            y: u64,
            z: u64,
            u: u64,
            v: u64,
            w: u64,
        |
            without_leading(tag, 'v') == #[trigger] plain_version(x, y, z) && current@
                == #[trigger] plain_version(u, v, w) ==> outcome_view(r) == (if comes_later(
                (x, y, z),
                (u, v, w),
            ) {
                Ok::<Option<UpdateInfoView>, UpdateErrorView>(
                    Some(
                        UpdateInfoView {
                            version: without_leading(tag, 'v'),
                            download_url: release_page(document@),
                        },
                    ),
                )
            } else {
                Ok::<Option<UpdateInfoView>, UpdateErrorView>(None)
            }),
{
    match read_release(document) {
        Ok(release) => {
            let remote_error: Option<String> = version_problem(release.version.as_str());
            let current_error: Option<String> = version_problem(current);
            let newer: bool = remote_error.is_none() && current_error.is_none() && is_newer(
                release.version.as_str(),
                current,
            );
            verdict(release, current, remote_error, current_error, newer)
        },
        Err(e) => Err(e),
    }
}

/// What is wrong where the release notice is no JSON text.
pub open spec fn undecodable_body() -> UpdateErrorView {
    UpdateErrorView::Network("error decoding response body"@)
}

/// The error for a release notice that is no JSON text.
pub fn undecodable() -> (r: UpdateError)
    ensures
        r@ == undecodable_body(),
{
    UpdateError::Network("error decoding response body".to_owned())
}

/// Checks for an update, given the text of the release notice.
pub fn check_for_update(body: &str, current: &str) -> (r: Result<Option<UpdateInfo>, UpdateError>)
    ensures
        outcome_view(r) == (match json_document(body@) {
            Ok(document) => notice_outcome(document, current@),
            Err(_) => Err(undecodable_body()),
        }),
{
    match parse_json(body) {
        Ok(document) => check_release(&document, current),
        Err(_) => Err(undecodable()),
    }
}

/// What to tell the user of a check. An update is always announced; that there
/// is none only where the user asked; a failed check never.
pub fn update_notice(outcome: &Result<Option<UpdateInfo>, UpdateError>, asked: bool) -> (r: Option<
    Toast,
>)
    ensures
        match outcome_view(*outcome) {
            Ok(Some(info)) => r is Some && r->0@ == toast_of(
                "Gingify Update"@,
                "v"@ + info.version + " is available — right-click tray to update"@,
            ),
            Ok(None) => if asked {
                r is Some && r->0@ == toast_of("Gingify"@, "You're on the latest version."@)
            } else {
                r is None
            },
            Err(_) => r is None,
        },
{
    match outcome {
        Ok(Some(info)) => Some(
            notify_update_available(info.version.as_str(), info.download_url.as_str()),
        ),
        Ok(None) => if asked {
            Some(notify_up_to_date())
        } else {
            None
        },
        Err(_) => None,
    }
}

/// An update is found just where both versions can be read and the announced one is
/// newer; it is the announced one, without any leading "v", and it is to be had where
/// the notice says. A notice without a version, and versions that cannot be read, are
/// errors that name them; the announced version is looked at first.
pub proof fn an_update_is_found_just_where_it_is_newer(
    document: JsonDocumentView,
    current: Seq<char>,
)
    ensures
        ({
            let r = notice_outcome(document, current);
            let tag = text_under(document, "tag_name"@);
            let version = without_leading(tag->0, 'v');
            let readable = version_error(version) is None && version_error(current) is None;
            &&& tag is None ==> r == Err::<Option<UpdateInfoView>, UpdateErrorView>(
                UpdateErrorView::MissingField("tag_name"@),
            )
            &&& tag is Some && readable && version_newer(version, current) ==> {
                &&& r matches Ok(Some(info))
                &&& info.version == version
                &&& text_under(document, "html_url"@) matches Some(url) ==> info.download_url == url
                &&& text_under(document, "html_url"@) is None ==> info.download_url
                    == "https://github.com"@
            }
            &&& tag is Some && readable && !version_newer(version, current) ==> r == Ok::<
                Option<UpdateInfoView>,
                UpdateErrorView,
            >(None)
            &&& tag is Some && version_error(version) is Some ==> r == Err::<
                Option<UpdateInfoView>,
                UpdateErrorView,
            >(UpdateErrorView::VersionParse(version, version_error(version)->0))
            &&& tag is Some && version_error(version) is None && version_error(current) is Some
                ==> r == Err::<Option<UpdateInfoView>, UpdateErrorView>(
                UpdateErrorView::CurrentVersionParse(current, version_error(current)->0),
            )
        }),
{
}

/// An error quotes what it is about.
pub proof fn update_errors_quote_their_cause(v: Seq<char>, e: Seq<char>)
    ensures
        UpdateErrorView::Network(e).text() == "Network request failed: "@ + e,
        UpdateErrorView::VersionParse(v, e).text() == "Failed to parse remote version '"@ + v
            + "': "@ + e,
        UpdateErrorView::CurrentVersionParse(v, e).text() == "Failed to parse current version '"@ + v
            + "': "@ + e,
        UpdateErrorView::MissingField(v).text() == "GitHub API response missing expected field: "@
            + v,
{
}

/// Of two plain versions the later one has the greater number in the first place in
/// which they differ.
pub proof fn later_versions_differ_upwards(a: (u64, u64, u64), b: (u64, u64, u64))
    ensures
        a == b ==> !comes_later(a, b),
        a.0 != b.0 ==> (comes_later(a, b) <==> a.0 > b.0),
        a.0 == b.0 && a.1 != b.1 ==> (comes_later(a, b) <==> a.1 > b.1),
        a.0 == b.0 && a.1 == b.1 && a.2 != b.2 ==> (comes_later(a, b) <==> a.2 > b.2),
{
}

} // verus!
