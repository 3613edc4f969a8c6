//! Resources of a module and what is known of their local copies.

use vstd::prelude::*;
use crate::time::Timestamp;
use crate::text::text_lt;
use crate::text::text_precedes;
use crate::text::text_equal;
use crate::text::lemma_text_irreflexive;
use crate::text::lemma_text_transitive;
use crate::text::lemma_text_asymmetric;
use crate::text::lemma_text_connected;
use crate::order::Ranked;
use crate::groups::Grouped;
use crate::module::Module;
use crate::module::handle_cloned;
use vstd::hash_map::StringHashMap;
use vstd::string::StringExecFns;
use crate::storage::Error;

verus! {

/// The categories of resources that a module offers.
#[derive(Debug, Clone, Copy, PartialEq, Eq, Structural)]
pub enum ResourceType {
    File,
    Multimedia,
    Weblecture,
    Conference,
}

/// Where the download of a resource stands in the running session.
#[derive(Debug, Clone, Copy, PartialEq, Eq, Structural)]
pub enum DownloadStatus {
    Idle,
    Fetching,
    Error,
}

impl Default for DownloadStatus {
    fn default() -> (s: Self)
        ensures
            s == DownloadStatus::Idle,
    {
        DownloadStatus::Idle
    }
}

/// What the user can ask of one resource.
#[derive(Debug, Clone, Copy, PartialEq, Eq, Structural)]
pub enum ResourceMessage {
    OpenResource,
    DownloadResource,
}

/// One resource of a module, as a fetch observed it, together with what is
/// known of its local copy. `R` is the descriptor of the remote resource; it
/// is carried along for the download and never stored.
#[derive(Debug)]
pub struct ResourceState<R> {
    pub module_id: String,
    /// The path of the resource within its module and category; the empty
    /// path stands for no resource.
    pub path: String,
    /// When the fetch that last observed this resource was started.
    pub last_updated: Timestamp,
    /// Where the local copy lies, once there is one.
    pub download_path: Option<String>,
    /// When the local copy was last written.
    pub download_time: Option<Timestamp>,
    pub resource: Option<R>,
    pub download_status: DownloadStatus,
}

/// The name of the folder that holds the resources of a category.
pub open spec fn category_folder(resource_type: ResourceType) -> Seq<char> {
    match resource_type {
        ResourceType::File => "Files"@,
        ResourceType::Multimedia => "Multimedia"@,
        ResourceType::Weblecture => "Weblectures"@,
        ResourceType::Conference => "Conferences"@,
    }
}

/// The name of the folder of the module `module_id`: its code, or `Unknown`
/// where `modules_map` does not know the module.
pub open spec fn module_folder<M>(
    modules_map: Map<Seq<char>, Module<M>>,
    module_id: Seq<char>,
) -> Seq<char> {
    if modules_map.contains_key(module_id) {
        modules_map[module_id].code@
    } else {
        "Unknown"@
    }
}

impl ResourceType {
    /// The name of the folder that holds the resources of this category.
    pub fn folder(&self) -> (name: &'static str)
        ensures
            name@ == category_folder(*self),
    {
        match self {
            ResourceType::File => "Files",
            ResourceType::Multimedia => "Multimedia",
            ResourceType::Weblecture => "Weblectures",
            ResourceType::Conference => "Conferences",
        }
    }
}

/// Position `i` holds the first state of `items` for the resource `path` of
/// the module `module_id`.
pub open spec fn is_first_match<R>(
    items: Seq<ResourceState<R>>,
    module_id: Seq<char>,
    path: Seq<char>,
    i: int,
) -> bool {
    &&& 0 <= i < items.len()
    &&& items[i].path@ == path
    &&& items[i].module_id@ == module_id
    &&& forall|j: int|
        0 <= j < i ==> !((#[trigger] items[j]).path@ == path && items[j].module_id@ == module_id)
}

/// No state of `items` is for the resource `path` of the module `module_id`.
pub open spec fn has_no_match<R>(
    items: Seq<ResourceState<R>>,
    module_id: Seq<char>,
    path: Seq<char>,
) -> bool {
    forall|j: int|
        0 <= j < items.len() ==> !((#[trigger] items[j]).path@ == path && items[j].module_id@
            == module_id)
}

/// Finds the first state for the resource `path` of the module `module_id`.
pub fn find_resource<R>(items: &Vec<ResourceState<R>>, module_id: &str, path: &str) -> (found:
    Option<usize>)
    ensures
        match found {
            Some(i) => is_first_match(items@, module_id@, path@, i as int),
            None => has_no_match(items@, module_id@, path@),
        },
{
    let n = items.len();
    let mut i: usize = 0;
    while i < n
        invariant
            i <= n,
            n == items.len(),
            forall|j: int|
                0 <= j < i ==> !((#[trigger] items[j]).path@ == path@ && items[j].module_id@
                    == module_id@),
        decreases n - i,
    {
        if text_equal(items[i].path.as_str(), path) && text_equal(
            items[i].module_id.as_str(),
            module_id,
        ) {
            return Some(i);
        }
        i += 1;
    }
    None
}

impl<R: Clone> ResourceState<R> {
    /// `self` is a copy of `source`: the same state, with a clone of its
    /// descriptor.
    pub open spec fn copy_of(&self, source: &Self) -> bool {
        &&& self.module_id == source.module_id
        &&& self.path == source.path
        &&& self.last_updated == source.last_updated
        &&& self.download_path == source.download_path
        &&& self.download_time == source.download_time
        &&& handle_cloned(source.resource, self.resource)
        &&& self.download_status == source.download_status
    }
}

impl<R: Clone> Clone for ResourceState<R> {
    fn clone(&self) -> (copy: Self)
        ensures
            copy.copy_of(self),
    {
        ResourceState {
            module_id: self.module_id.clone(),
            path: self.path.clone(),
            last_updated: self.last_updated,
            download_path: match &self.download_path {
                Some(p) => Some(p.clone()),
                None => None,
            },
            download_time: self.download_time,
            resource: self.resource.clone(),
            download_status: self.download_status,
        }
    }
}

impl<R> ResourceState<R> {
    /// Where the local copy of the resource belongs, below the download
    /// directory: the folder of its module, the folder of its category, and
    /// its own path, joined by `/`.
    pub fn local_resource_path<M>(
        &self,
        modules_map: &StringHashMap<Module<M>>,
        resource_type: ResourceType,
    ) -> (local: String)
        ensures
            local@ == module_folder(modules_map@, self.module_id@) + "/"@ + category_folder(
                resource_type,
            ) + "/"@ + self.path@,
    {
        let module_dir = match modules_map.get(self.module_id.as_str()) {
            Some(module) => module.code.as_str(),
            None => "Unknown",
        };
        String::from_str(module_dir).concat("/").concat(resource_type.folder()).concat("/").concat(
            self.path.as_str(),
        )
    }

    /// The state once a download of the resource has ended at `now`. A
    /// download that went through leaves a local copy at the path it reports,
    /// written at `now`, and no download is under way; one that failed only
    /// leaves its mark.
    pub open spec fn after_download(self, outcome: Result<String, Error>, now: Timestamp) -> Self {
        match outcome {
            Ok(download_path) => ResourceState {
                download_path: Some(download_path),
                download_time: Some(now),
                download_status: DownloadStatus::Idle,
                ..self
            },
            Err(_) => ResourceState { download_status: DownloadStatus::Error, ..self },
        }
    }

    /// Takes note of how a download of the resource ended at `now`.
    pub fn downloaded(&mut self, outcome: Result<String, Error>, now: Timestamp)
        ensures
            *final(self) == old(self).after_download(outcome, now),
    {
        match outcome {
            Ok(download_path) => {
                self.download_path = Some(download_path);
                self.download_time = Some(now);
                self.download_status = DownloadStatus::Idle;
            },
            Err(_) => {
                self.download_status = DownloadStatus::Error;
            },
        }
    }

    /// A state with empty texts, the epoch as its time, and neither a local
    /// copy nor a descriptor.
    pub fn empty() -> (r: Self)
        ensures
            r.module_id@ == Seq::<char>::empty(),
            r.path@ == Seq::<char>::empty(),
            r.last_updated.is_epoch(),
            r.download_path is None,
            r.download_time is None,
            r.resource is None,
            r.download_status == DownloadStatus::Idle,
    {
        ResourceState {
            module_id: String::new(),
            path: String::new(),
            last_updated: Timestamp::epoch(),
            download_path: None,
            download_time: None,
            resource: None,
            download_status: DownloadStatus::Idle,
        }
    }

    /// The state of a resource that a fetch has just observed under `path`
    /// in the module `module_id`: it holds the descriptor and has no local
    /// copy yet.
    pub fn new(resource: R, module_id: String, path: String, last_updated: Timestamp) -> (r: Self)
        ensures
            r == (ResourceState {
                module_id,
                path,
                last_updated,
                download_path: None,
                download_time: None,
                resource: Some(resource),
                download_status: DownloadStatus::Idle,
            }),
    {
        ResourceState {
            module_id,
            path,
            last_updated,
            download_path: None,
            download_time: None,
            resource: Some(resource),
            download_status: DownloadStatus::Idle,
        }
    }

    /// The state as read back from storage: it has no descriptor, and no
    /// download is under way.
    pub fn restored(
        module_id: String,
        path: String,
        last_updated: Timestamp,
        download_path: Option<String>,
        download_time: Option<Timestamp>,
    ) -> (r: Self)
        ensures
            r == (ResourceState::<R> {
                module_id,
                path,
                last_updated,
                download_path,
                download_time,
                resource: None,
                download_status: DownloadStatus::Idle,
            }),
    {
        ResourceState {
            module_id,
            path,
            last_updated,
            download_path,
            download_time,
            resource: None,
            download_status: DownloadStatus::Idle,
        }
    }
}

/// Whether `a` and `b` describe one resource, that is one `(module_id, path)`.
pub open spec fn same_resource<R>(a: &ResourceState<R>, b: &ResourceState<R>) -> bool {
    a.module_id@ == b.module_id@ && a.path@ == b.path@
}

/// Whether the resource of `a` is filed before that of `b`: by module, then
/// by path.
pub open spec fn filed_before<R>(a: &ResourceState<R>, b: &ResourceState<R>) -> bool {
    ||| text_lt(a.module_id@, b.module_id@)
    ||| a.module_id@ == b.module_id@ && text_lt(a.path@, b.path@)
}

/// Resources are totally ordered by `filed_before`.
pub proof fn lemma_resource_order<R>(
    a: &ResourceState<R>,
    b: &ResourceState<R>,
    c: &ResourceState<R>,
)
    ensures
        same_resource(a, a),
        same_resource(a, b) ==> same_resource(b, a),
        same_resource(a, b) && same_resource(b, c) ==> same_resource(a, c),
        filed_before(a, b) || same_resource(a, b) || filed_before(b, a),
        !(filed_before(a, b) && same_resource(a, b)),
        !(filed_before(a, b) && filed_before(b, a)),
        filed_before(a, b) && filed_before(b, c) ==> filed_before(a, c),
        same_resource(a, b) && filed_before(b, c) ==> filed_before(a, c),
        filed_before(a, b) && same_resource(b, c) ==> filed_before(a, c),
{
    lemma_text_irreflexive(a.module_id@);
    lemma_text_irreflexive(a.path@);
    lemma_text_irreflexive(b.module_id@);
    lemma_text_irreflexive(b.path@);
    if !text_lt(a.module_id@, b.module_id@) && !text_lt(b.module_id@, a.module_id@) {
        lemma_text_connected(a.module_id@, b.module_id@);
    }
    if !text_lt(a.path@, b.path@) && !text_lt(b.path@, a.path@) {
        lemma_text_connected(a.path@, b.path@);
    }
    if text_lt(a.module_id@, b.module_id@) {
        lemma_text_asymmetric(a.module_id@, b.module_id@);
    }
    if text_lt(a.path@, b.path@) {
        lemma_text_asymmetric(a.path@, b.path@);
    }
    if text_lt(a.module_id@, b.module_id@) && text_lt(b.module_id@, c.module_id@) {
        lemma_text_transitive(a.module_id@, b.module_id@, c.module_id@);
    }
    if text_lt(a.path@, b.path@) && text_lt(b.path@, c.path@) {
        lemma_text_transitive(a.path@, b.path@, c.path@);
    }
}

/// The states of one resource form a group. They rank by resource, then by
/// the time of their fetch, oldest first, and at one time a state with a
/// local copy ranks before one without.
impl<R> Ranked for ResourceState<R> {
    open spec fn before(&self, other: &Self) -> bool {
        ||| filed_before(self, other)
        ||| same_resource(self, other) && self.last_updated.earlier_than(other.last_updated)
        ||| same_resource(self, other) && self.last_updated == other.last_updated
            && self.download_path is Some && other.download_path is None
    }

    fn precedes(&self, other: &Self) -> (r: bool) {
        proof {
            lemma_text_irreflexive(self.module_id@);
            lemma_text_irreflexive(self.path@);
        }
        if !(self.module_id == other.module_id) {
            text_precedes(self.module_id.as_str(), other.module_id.as_str())
        } else if !(self.path == other.path) {
            text_precedes(self.path.as_str(), other.path.as_str())
        } else if self.last_updated.is_before(&other.last_updated) {
            true
        } else if other.last_updated.is_before(&self.last_updated) {
            false
        } else {
            self.download_path.is_some() && other.download_path.is_none()
        }
    }

    proof fn lemma_irreflexive(a: &Self) {
        lemma_resource_order(a, a, a);
    }

    proof fn lemma_transitive(a: &Self, b: &Self, c: &Self) {
        lemma_resource_order(a, b, c);
        lemma_resource_order(a, c, b);
    }

    proof fn lemma_ties_transitive(a: &Self, b: &Self, c: &Self) {
        lemma_resource_order(a, b, c);
        lemma_resource_order(b, c, a);
        lemma_resource_order(c, a, b);
    }
}

impl<R> Grouped for ResourceState<R> {
    open spec fn same_group(&self, other: &Self) -> bool {
        same_resource(self, other)
    }

    open spec fn group_before(&self, other: &Self) -> bool {
        filed_before(self, other)
    }

    proof fn lemma_group_order(a: &Self, b: &Self, c: &Self) {
        lemma_resource_order(a, b, c);
        lemma_resource_order(b, a, c);
    }
}

} // verus!
