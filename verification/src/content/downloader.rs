//! The reports of a download worker: where it starts, what each fetched or
//! failed file reports, and how it ends. The transfers themselves happen at
//! the application edge.

use vstd::prelude::*;

use crate::event::DownloadUpdate;

verus! {

/// The report a worker sends before fetching `total` files.
pub fn start_update(total: usize) -> (r: DownloadUpdate)
    ensures
        r matches DownloadUpdate::Progress { done, total: t, label } && done == 0 && t == total && label@
            == "starting"@,
{
    DownloadUpdate::Progress { done: 0, total, label: String::from_str("starting") }
}

/// The report after file `index` (of `total`, labelled `label`) was fetched
/// (`error` is `None`) or failed; the flag says whether the worker stops. A
/// failure names the file and the error and ends the download.
pub fn file_update(index: usize, total: usize, label: &str, error: Option<&str>) -> (r: (DownloadUpdate, bool))
    requires
        index < usize::MAX,
    ensures
        match error {
            Some(e) => r.1 && (r.0 matches DownloadUpdate::Failed(m) && m@ == label@ + " \u{2014} "@ + e@),
            None => !r.1 && (r.0 matches DownloadUpdate::Progress { done, total: t, label: l } && done == index + 1
                && t == total && l@ == label@),
        },
{
    match error {
        Some(e) => {
            let mut m = String::from_str(label);
            m.append(" \u{2014} ");
            m.append(e);
            (DownloadUpdate::Failed(m), true)
        },
        None => (DownloadUpdate::Progress { done: index + 1, total, label: String::from_str(label) }, false),
    }
}

/// The report once every file is fetched.
pub fn finished_update() -> (r: DownloadUpdate)
    ensures
        r is Completed,
{
    DownloadUpdate::Completed
}

} // verus!
