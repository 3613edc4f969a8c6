//! What is made of the answers of the remote source: the batch of resources
//! that the fetches for the modules add up to, and the outcome of a download.

use vstd::prelude::*;
use vstd::string::StringExecFns;
use crate::data::DataItems;
use crate::data::FetchStatus;
use crate::order::reversed;
use crate::resource::DownloadStatus;
use crate::resource::ResourceState;
use crate::storage::Error;
use crate::time::Timestamp;

verus! {

/// A resource as the remote source lists it: its descriptor, its path within
/// its module and category, and the time of its last change.
#[derive(Debug)]
pub struct Listed<R> {
    pub resource: R,
    pub path: String,
    pub last_updated: Timestamp,
}

/// How the remote source ended a download.
#[derive(Debug)]
pub enum OverwriteResult {
    /// A new file was written.
    NewFile,
    /// The file was there already, with the same content.
    AlreadyHave,
    /// Another file was in the way and was kept.
    Skipped,
    /// Another file was in the way and was replaced.
    Overwritten,
    /// Another file was in the way and was moved to `renamed_path`.
    Renamed { renamed_path: String },
}

/// The state of a listed resource of the module `module_id`.
pub open spec fn state_of<R>(module_id: String, listed: Listed<R>) -> ResourceState<R> {
    ResourceState {
        module_id,
        path: listed.path,
        last_updated: listed.last_updated,
        download_path: None,
        download_time: None,
        resource: Some(listed.resource),
        download_status: DownloadStatus::Idle,
    }
}

/// The states of the resources that the fetches `loaded` brought, module by
/// module.
pub open spec fn collected<R, E>(loaded: Seq<(String, Result<Vec<Listed<R>>, E>)>) -> Seq<
    ResourceState<R>,
>
    decreases loaded.len(),
{
    if loaded.len() == 0 {
        Seq::empty()
    } else {
        let (module_id, fetched) = loaded.last();
        collected(loaded.drop_last()) + (match fetched {
            Ok(listing) => Seq::new(listing@.len(), |k: int| state_of(module_id, listing@[k])),
            Err(_) => Seq::empty(),
        })
    }
}

/// The fetches of `loaded` that failed, each with the id of its module.
pub open spec fn failures<R, E>(loaded: Seq<(String, Result<Vec<Listed<R>>, E>)>) -> Seq<
    (String, E),
>
    decreases loaded.len(),
{
    if loaded.len() == 0 {
        Seq::empty()
    } else {
        let (module_id, fetched) = loaded.last();
        match fetched {
            Ok(_) => failures(loaded.drop_last()),
            Err(e) => failures(loaded.drop_last()).push((module_id, e)),
        }
    }
}

/// Puts together the batch of one category: the resources that the fetches
/// for the modules brought, in the order of the modules, tagged with
/// `last_updated`. The fetches that failed are handed back beside it.
pub fn collect_resources<R, E>(
    loaded: Vec<(String, Result<Vec<Listed<R>>, E>)>,
    last_updated: Timestamp,
) -> (batch: (DataItems<ResourceState<R>>, Vec<(String, E)>))
    ensures
        batch.0.last_updated == last_updated,
        batch.0.fetch_status == FetchStatus::Idle,
        batch.0.items@ == collected(loaded@),
        batch.1@ == failures(loaded@),
{
    let ghost all = loaded@;
    let n = loaded.len();
    let mut rest = reversed(loaded);
    let mut items: Vec<ResourceState<R>> = Vec::new();
    let mut failed: Vec<(String, E)> = Vec::new();
    while rest.len() > 0
        invariant
            n == all.len(),
            rest.len() <= n,
            forall|k: int| 0 <= k < rest.len() ==> rest[k] == all[n - 1 - k],
            items@ == collected(all.subrange(0, n - rest.len())),
            failed@ == failures(all.subrange(0, n - rest.len())),
        decreases rest.len(),
    {
        let ghost i = n - rest.len();
        let ghost before = items@;
        let (module_id, fetched) = rest.pop().unwrap();
        assert(all.subrange(0, i + 1).drop_last() =~= all.subrange(0, i));
        assert(all.subrange(0, i + 1).last() == all[i]);
        match fetched {
            Ok(listing) => {
                let ghost listed = listing@;
                let m = listing.len();
                let mut later = reversed(listing);
                while later.len() > 0
                    invariant
                        m == listed.len(),
                        later.len() <= m,
                        forall|k: int| 0 <= k < later.len() ==> later[k] == listed[m - 1 - k],
                        items@ == before + Seq::new(
                            (m - later.len()) as nat,
                            |k: int| state_of(module_id, listed[k]),
                        ),
                    decreases later.len(),
                {
                    let one = later.pop().unwrap();
                    items.push(
                        ResourceState::new(one.resource, module_id.clone(), one.path, one.last_updated),
                    );
                }
            },
            Err(e) => {
                failed.push((module_id, e));
            },
        }
    }
    assert(all.subrange(0, n as int) =~= all);
    (DataItems::new(last_updated, items), failed)
}

/// What the client makes of the end of a download: however the remote source
/// dealt with a file in the way, the download went through and the local copy
/// is reported at `return_path`; a failure of the remote source is passed on.
pub fn download_outcome<E>(outcome: Result<OverwriteResult, E>, return_path: String) -> (local:
    Result<String, Error>)
    ensures
        local == (match outcome {
            Ok(_) => Ok::<String, Error>(return_path),
            Err(_) => Err(Error::RemoteFailure),
        }),
{
    match outcome {
        Ok(_) => Ok(return_path),
        Err(_) => Err(Error::RemoteFailure),
    }
}

/// The name under which a file is kept while its download is under way.
pub fn make_temp_file_name(name: &str) -> (temp: String)
    ensures
        temp@ == "~!"@ + name@,
{
    String::from_str("~!").concat(name)
}

} // verus!
