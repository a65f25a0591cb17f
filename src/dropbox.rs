use vstd::prelude::*;

verus! {

/// Whether the sync client has finished mirroring a file.
#[derive(Clone, Copy, Debug, PartialEq, Eq, Structural)]
pub enum DropboxStatus {
    UpToDate,
    Syncing,
}

/// The text that the sync client's status command prints, once the part
/// before the colon is cut away, for a file that is fully mirrored.
pub open spec fn up_to_date_report() -> Seq<char> {
    " up to date\n"@
}

/// Reads the sync client's report on one file: up to date exactly when the
/// report is the up-to-date line; anything else counts as still syncing.
pub fn dropbox_filestatus(report: &str) -> (r: DropboxStatus)
    ensures
        (r == DropboxStatus::UpToDate) == (report@ == up_to_date_report()),
{
    let up_to_date: String = " up to date\n".to_owned();
    if report.to_owned() == up_to_date {
        DropboxStatus::UpToDate
    } else {
        DropboxStatus::Syncing
    }
}

} // verus!
