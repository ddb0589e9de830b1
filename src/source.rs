use vstd::prelude::*;
use crate::error::PipelineError;
use crate::text::{push_str_chars, string_of};

verus! {

/// Where the template archive is fetched from.
#[derive(Debug)]
pub struct ArchiveSource {
    pub url: String,
}

/// The archive of branch `branch` of repository `owner/repo` on GitHub.
pub open spec fn github_archive_url(owner: Seq<char>, repo: Seq<char>, branch: Seq<char>) -> Seq<char> {
    "https://github.com/"@ + owner + "/"@ + repo + "/archive/refs/heads/"@ + branch + ".zip"@
}

pub const TEMPLATE_OWNER: &'static str = "HaoboGu";

pub const TEMPLATE_REPO: &'static str = "rmk-template";

pub const TEMPLATE_BRANCH: &'static str = "feat/rework";

impl ArchiveSource {
    /// The archive of branch `branch` of repository `owner/repo` on GitHub.
    pub fn github(owner: &str, repo: &str, branch: &str) -> (r: ArchiveSource)
        ensures
            r.url@ == github_archive_url(owner@, repo@, branch@),
    {
        let mut v: Vec<char> = Vec::new();
        push_str_chars(&mut v, "https://github.com/");
        push_str_chars(&mut v, owner);
        push_str_chars(&mut v, "/");
        push_str_chars(&mut v, repo);
        push_str_chars(&mut v, "/archive/refs/heads/");
        push_str_chars(&mut v, branch);
        push_str_chars(&mut v, ".zip");
        assert(v@ =~= github_archive_url(owner@, repo@, branch@));
        ArchiveSource { url: string_of(&v) }
    }

    /// The firmware project template.
    pub fn template() -> (r: ArchiveSource)
        ensures
            r.url@ == github_archive_url(TEMPLATE_OWNER@, TEMPLATE_REPO@, TEMPLATE_BRANCH@),
    {
        ArchiveSource::github(TEMPLATE_OWNER, TEMPLATE_REPO, TEMPLATE_BRANCH)
    }
}

/// The template folder for a chip: the chip's name, with `_split` after it
/// for a split keyboard.
pub open spec fn remote_folder_spec(chip: Seq<char>, split: bool) -> Seq<char> {
    if split {
        chip + "_split"@
    } else {
        chip
    }
}

/// The template folder for `chip` (see `remote_folder_spec`).
pub fn remote_folder(chip: &str, split: bool) -> (r: String)
    ensures
        r@ == remote_folder_spec(chip@, split),
{
    let mut v: Vec<char> = Vec::new();
    push_str_chars(&mut v, chip);
    if split {
        push_str_chars(&mut v, "_split");
    }
    assert(v@ =~= remote_folder_spec(chip@, split));
    string_of(&v)
}

/// An HTTP status code in the success class.
pub open spec fn is_success_status(status: u16) -> bool {
    200 <= status <= 299
}

/// Accepts the archive response only with a success status; any other
/// status fails the download, with that status and no further cause.
pub fn check_download_status(status: u16) -> (r: Result<(), PipelineError>)
    ensures
        r is Ok <==> is_success_status(status),
        r matches Err(e) ==> (e matches PipelineError::DownloadFailed { status: st, cause } && st
            == Some(status) && cause@.len() == 0),
{
    if 200 <= status && status <= 299 {
        Ok(())
    } else {
        Err(PipelineError::DownloadFailed { status: Some(status), cause: String::new() })
    }
}

} // verus!
