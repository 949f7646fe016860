//! Finds out whether a newer release is offered.

use vstd::prelude::*;
use vstd::string::*;

use crate::parsing;
use crate::text;
use crate::text::{chars_of, str_ends_with, text_eq};
use crate::types::clone_text;

verus! {

/// A release as the server describes it.
#[derive(Debug)]
pub struct Release {
    pub tag_name: String,
    pub body: Option<String>,
    pub assets: Vec<Asset>,
}

/// A file of a release.
#[derive(Debug)]
pub struct Asset {
    pub name: String,
    pub browser_download_url: String,
}

/// An update that is offered.
#[derive(Debug, PartialEq, Eq)]
pub struct UpdateInfo {
    pub latest_version: String,
    pub download_url: String,
    pub release_notes: Option<String>,
}

impl Clone for UpdateInfo {
    fn clone(&self) -> (copy: Self)
        ensures
            copy == *self,
    {
        UpdateInfo {
            latest_version: self.latest_version.clone(),
            download_url: self.download_url.clone(),
            release_notes: clone_text(&self.release_notes),
        }
    }
}

/// Why no release could be looked at.
#[derive(Debug, Clone, Copy, PartialEq, Eq, Structural)]
pub enum UpdateError {
    /// The server answered with this status.
    Status(u16),
    /// The answer describes no release.
    Unreadable,
}

/// The version that a tag names: without the `v` in front.
pub open spec fn version_of_tag(tag: Seq<char>) -> Seq<char> {
    parsing::trim_start(tag, parsing::only('v'))
}

/// The first asset from `i` on that is an installer.
pub open spec fn installer_from(assets: Seq<Asset>, i: int) -> Option<Asset>
    decreases assets.len() - i,
{
    if i >= assets.len() {
        None
    } else if text::ends_with_text(assets[i].name@, ".msi"@) {
        Some(assets[i])
    } else {
        installer_from(assets, i + 1)
    }
}

/// An update is offered: another version than the current one, with an installer.
pub open spec fn offers(release: Release, current_version: Seq<char>) -> bool {
    &&& version_of_tag(release.tag_name@) != current_version
    &&& installer_from(release.assets@, 0) is Some
}

/// The version that a tag names: without the `v` in front.
pub fn latest_version(tag: &str) -> (version: String)
    ensures
        version@ == version_of_tag(tag@),
{
    let chars = chars_of(tag);
    let len: usize = chars.len();
    let mut start: usize = 0;
    assert(chars@.skip(0) =~= chars@);
    while start < len && chars[start] == 'v'
        invariant
            start <= len,
            len == chars@.len(),
            version_of_tag(chars@) == version_of_tag(chars@.skip(start as int)),
        decreases len - start,
    {
        assert(chars@.skip(start as int).skip(1) =~= chars@.skip(start + 1));
        start = start + 1;
    }
    assert(tag@.subrange(start as int, len as int) =~= tag@.skip(start as int));
    tag.substring_char(start, len).to_owned()
}

fn find_installer(assets: &[Asset]) -> (found: Option<usize>)
    ensures
        found matches Some(i) ==> i < assets@.len() && installer_from(assets@, 0) == Some(
            assets@[i as int],
        ),
        found is None ==> installer_from(assets@, 0) is None,
{
    for i in 0..assets.len()
        invariant
            installer_from(assets@, 0) == installer_from(assets@, i as int),
    {
        if str_ends_with(assets[i].name.as_str(), ".msi") {
            return Some(i);
        }
    }
    None
}

/// The update that a release offers to the current version, if any.
pub fn find_update(release: &Release, current_version: &str) -> (update: Option<UpdateInfo>)
    ensures
        update is Some <==> offers(*release, current_version@),
        update matches Some(info) ==> {
            &&& info.latest_version@ == version_of_tag(release.tag_name@)
            &&& info.download_url == installer_from(release.assets@, 0)->0.browser_download_url
            &&& info.release_notes == release.body
        },
{
    let latest_version = latest_version(release.tag_name.as_str());
    if !text_eq(latest_version.as_str(), current_version) {
        if let Some(i) = find_installer(&release.assets) {
            return Some(
                UpdateInfo {
                    latest_version,
                    download_url: release.assets[i].browser_download_url.clone(),
                    release_notes: clone_text(&release.body),
                },
            );
        }
    }
    None
}

/// The status of an answer that succeeded.
pub open spec fn success(status: u16) -> bool {
    200 <= status < 300
}

/// What the answer of the server says about an update; `release` is absent where the answer could
/// not be read.
pub fn check_for_updates(
    status: u16,
    release: Option<&Release>,
    current_version: &str,
) -> (checked: Result<Option<UpdateInfo>, UpdateError>)
    ensures
        checked is Ok <==> success(status) && release is Some,
        !success(status) ==> checked == Err::<Option<UpdateInfo>, UpdateError>(
            UpdateError::Status(status),
        ),
        success(status) && release is None ==> checked == Err::<Option<UpdateInfo>, UpdateError>(
            UpdateError::Unreadable,
        ),
        checked matches Ok(update) ==> {
            &&& update is Some <==> offers(*release->0, current_version@)
            &&& update matches Some(info) ==> {
                &&& info.latest_version@ == version_of_tag(release->0.tag_name@)
                &&& info.download_url == installer_from(
                    release->0.assets@,
                    0,
                )->0.browser_download_url
                &&& info.release_notes == release->0.body
            }
        },
{
    if !(200 <= status && status < 300) {
        return Err(UpdateError::Status(status));
    }
    match release {
        Some(release) => Ok(find_update(release, current_version)),
        None => Err(UpdateError::Unreadable),
    }
}

/// A release of the current version is never offered, with or without a `v` in its tag.
pub proof fn law_current_version_is_not_offered(release: Release, current_version: Seq<char>)
    requires
        release.tag_name@ == current_version || release.tag_name@ == seq!['v'] + current_version,
        current_version.len() > 0 ==> current_version[0] != 'v',
    ensures
        !offers(release, current_version),
{
    assert((seq!['v'] + current_version).skip(1) =~= current_version);
    reveal_with_fuel(parsing::trim_start, 2);
}

/// The version of a tag is what stands behind the letters `v` in front, however many there are.
pub proof fn law_version_stands_behind_the_letters(letters: Seq<char>, version: Seq<char>)
    requires
        forall|i: int| 0 <= i < letters.len() ==> #[trigger] letters[i] == 'v',
        version.len() == 0 || version[0] != 'v',
    ensures
        version_of_tag(letters + version) == version,
    decreases letters.len(),
{
    if letters.len() == 0 {
        assert(letters + version =~= version);
    } else {
        let rest = letters.skip(1);
        assert(letters[0] == 'v');
        assert((letters + version).skip(1) =~= rest + version);
        assert forall|i: int| 0 <= i < rest.len() implies #[trigger] rest[i] == 'v' by {
            assert(rest[i] == letters[i + 1]);
        }
        law_version_stands_behind_the_letters(rest, version);
    }
}

/// The installer is the first file whose name ends in `.msi`; there is none where no name does.
pub proof fn law_installer_is_the_first_msi(assets: Seq<Asset>, i: int)
    requires
        0 <= i <= assets.len(),
        forall|k: int|
            0 <= k < i ==> !text::ends_with_text((#[trigger] assets[k]).name@, ".msi"@),
        i < assets.len() ==> text::ends_with_text(assets[i].name@, ".msi"@),
    ensures
        i == assets.len() ==> installer_from(assets, 0) is None,
        i < assets.len() ==> installer_from(assets, 0) == Some(assets[i]),
{
    lemma_installer_from(assets, i, 0);
}

proof fn lemma_installer_from(assets: Seq<Asset>, i: int, from: int)
    requires
        0 <= from <= i <= assets.len(),
        forall|k: int|
            0 <= k < i ==> !text::ends_with_text((#[trigger] assets[k]).name@, ".msi"@),
        i < assets.len() ==> text::ends_with_text(assets[i].name@, ".msi"@),
    ensures
        i == assets.len() ==> installer_from(assets, from) is None,
        i < assets.len() ==> installer_from(assets, from) == Some(assets[i]),
    decreases i - from,
{
    if from < i {
        assert(!text::ends_with_text(assets[from].name@, ".msi"@));
        lemma_installer_from(assets, i, from + 1);
    }
}

/// An update is offered exactly if the version of the tag is not the current one, older or newer, and
/// some file is an installer.
pub proof fn law_other_version_with_installer_is_offered(
    release: Release,
    letters: Seq<char>,
    version: Seq<char>,
    current_version: Seq<char>,
)
    requires
        forall|i: int| 0 <= i < letters.len() ==> #[trigger] letters[i] == 'v',
        version.len() == 0 || version[0] != 'v',
        release.tag_name@ == letters + version,
    ensures
        offers(release, current_version) <==> version != current_version && exists|k: int|
            0 <= k < release.assets@.len() && text::ends_with_text(
                (#[trigger] release.assets@[k]).name@,
                ".msi"@,
            ),
{
    law_version_stands_behind_the_letters(letters, version);
    let assets = release.assets@;
    let first = lemma_first_msi(assets, 0);
    law_installer_is_the_first_msi(assets, first);
    if first < assets.len() {
        assert(text::ends_with_text(assets[first].name@, ".msi"@));
    }
}

proof fn lemma_first_msi(assets: Seq<Asset>, from: int) -> (first: int)
    requires
        0 <= from <= assets.len(),
    ensures
        from <= first <= assets.len(),
        forall|k: int|
            from <= k < first ==> !text::ends_with_text((#[trigger] assets[k]).name@, ".msi"@),
        first < assets.len() ==> text::ends_with_text(assets[first].name@, ".msi"@),
    decreases assets.len() - from,
{
    if from == assets.len() || text::ends_with_text(assets[from].name@, ".msi"@) {
        from
    } else {
        lemma_first_msi(assets, from + 1)
    }
}

/// An answer succeeded where its status is one of the two hundreds.
pub proof fn law_success_is_two_hundred(status: u16)
    ensures
        success(status) <==> status / 100 == 2,
{
}

} // verus!
