//! The snapshot of the catalogue, and the envelope that wraps what one of
//! its categories holds.

use vstd::prelude::*;
use vstd::string::StringExecFns;
use crate::time::Timestamp;
use crate::module::Module;
use crate::resource::ResourceState;
use crate::resource::ResourceType;
use crate::storage::Storage;
use crate::storage::SaveStep;
use crate::storage::save_step;
use crate::storage::Error;
use crate::merge::modules::merge_modules;
use crate::merge::modules::merged_modules;
use crate::merge::resources::merge_resources;
use crate::merge::resources::merged_resources;

verus! {

/// Where the fetch of a category stands.
#[derive(Debug, Clone, Copy, PartialEq, Eq, Structural)]
pub enum FetchStatus {
    Idle,
    Fetching,
    Error,
}

impl Default for FetchStatus {
    fn default() -> (s: Self)
        ensures
            s == FetchStatus::Idle,
    {
        FetchStatus::Idle
    }
}

/// The items of one category, with the time of the fetch that last refreshed
/// them. The status describes the running session and is never stored.
#[derive(Debug, Clone)]
pub struct DataItems<T> {
    pub last_updated: Timestamp,
    pub items: Vec<T>,
    pub fetch_status: FetchStatus,
}

impl<T> Default for DataItems<T> {
    fn default() -> (d: Self)
        ensures
            d.last_updated.is_epoch(),
            d.items@ == Seq::<T>::empty(),
            d.fetch_status == FetchStatus::Idle,
    {
        DataItems {
            last_updated: Timestamp::epoch(),
            items: Vec::new(),
            fetch_status: FetchStatus::Idle,
        }
    }
}

impl<T> DataItems<T> {
    /// The envelope around `items`, fetched or read back from storage, with
    /// the time of their fetch: no fetch is under way.
    pub fn new(last_updated: Timestamp, items: Vec<T>) -> (d: Self)
        ensures
            d.last_updated == last_updated,
            d.items == items,
            d.fetch_status == FetchStatus::Idle,
    {
        DataItems {
            last_updated,
            items,
            fetch_status: FetchStatus::Idle,
        }
    }
}

/// The snapshot of the catalogue: its modules and, category by category,
/// their resources. The two flags at the end describe the running session and
/// are never stored: `dirty` says that the snapshot has changed since it was
/// last written, `saving` that a write is under way. `M` and `R` are the
/// remote handles of a module and of a resource.
#[derive(Debug, Clone)]
pub struct Data<M, R> {
    pub modules: DataItems<Module<M>>,
    pub files: DataItems<ResourceState<R>>,
    pub multimedia: DataItems<ResourceState<R>>,
    pub weblectures: DataItems<ResourceState<R>>,
    pub conferences: DataItems<ResourceState<R>>,
    pub dirty: bool,
    pub saving: bool,
}

impl<M, R> Data<M, R> {
    /// The resources of `resource_type`.
    pub open spec fn category(&self, resource_type: ResourceType) -> DataItems<ResourceState<R>> {
        match resource_type {
            ResourceType::File => self.files,
            ResourceType::Multimedia => self.multimedia,
            ResourceType::Weblecture => self.weblectures,
            ResourceType::Conference => self.conferences,
        }
    }

    /// The snapshot with `items` in place of the resources of `resource_type`.
    pub open spec fn with_category(
        &self,
        resource_type: ResourceType,
        items: DataItems<ResourceState<R>>,
    ) -> Self {
        match resource_type {
            ResourceType::File => Data { files: items, ..*self },
            ResourceType::Multimedia => Data { multimedia: items, ..*self },
            ResourceType::Weblecture => Data { weblectures: items, ..*self },
            ResourceType::Conference => Data { conferences: items, ..*self },
        }
    }

    /// The empty snapshot, with both flags clear.
    pub fn default() -> (d: Self)
        ensures
            d.modules.items@ == Seq::<Module<M>>::empty(),
            d.modules.last_updated.is_epoch(),
            d.modules.fetch_status == FetchStatus::Idle,
            forall|t: ResourceType|
                {
                    &&& (#[trigger] d.category(t)).items@ == Seq::<ResourceState<R>>::empty()
                    &&& d.category(t).last_updated.is_epoch()
                    &&& d.category(t).fetch_status == FetchStatus::Idle
                },
            !d.dirty,
            !d.saving,
    {
        Data {
            modules: DataItems::default(),
            files: DataItems::default(),
            multimedia: DataItems::default(),
            weblectures: DataItems::default(),
            conferences: DataItems::default(),
            dirty: false,
            saving: false,
        }
    }

    /// The snapshot as read back from storage, with both flags clear.
    pub fn restored(
        modules: DataItems<Module<M>>,
        files: DataItems<ResourceState<R>>,
        multimedia: DataItems<ResourceState<R>>,
        weblectures: DataItems<ResourceState<R>>,
        conferences: DataItems<ResourceState<R>>,
    ) -> (d: Self)
        ensures
            d.modules == modules,
            d.files == files,
            d.multimedia == multimedia,
            d.weblectures == weblectures,
            d.conferences == conferences,
            !d.dirty,
            !d.saving,
    {
        Data { modules, files, multimedia, weblectures, conferences, dirty: false, saving: false }
    }

    /// `after` is the snapshot `self` once the fetched modules `batch` are
    /// merged in and a save is asked for: the modules are merged, the
    /// snapshot counts as changed, and the request to save either starts a
    /// write or finds one under way.
    pub open spec fn modules_absorbed(&self, batch: DataItems<Module<M>>, after: Self) -> bool {
        &&& after.modules.last_updated == batch.last_updated
        &&& after.modules.fetch_status == batch.fetch_status
        &&& merged_modules(self.modules.items@ + batch.items@, after.modules.items@)
        &&& after == (Data { modules: after.modules, dirty: self.saving, saving: true, ..*self })
    }

    /// `after` is the snapshot `self` once the fetched resources `batch` of
    /// `resource_type` are merged in and a save is asked for.
    pub open spec fn resources_absorbed(
        &self,
        resource_type: ResourceType,
        batch: DataItems<ResourceState<R>>,
        after: Self,
    ) -> bool {
        let merged = after.category(resource_type);
        &&& merged.last_updated == batch.last_updated
        &&& merged.fetch_status == batch.fetch_status
        &&& merged_resources(self.category(resource_type).items@ + batch.items@, merged.items@)
        &&& after == (Data { dirty: self.saving, saving: true, ..self.with_category(resource_type, merged) })
    }

    /// Merges the fetched modules `batch` into the snapshot, marks it as
    /// changed and asks for a save, whose step is handed back.
    pub fn absorb_modules(&mut self, batch: DataItems<Module<M>>) -> (step: SaveStep)
        ensures
            old(self).modules_absorbed(batch, *final(self)),
            step == save_step(true, old(self).saving),
    {
        merge_modules(&mut self.modules, batch);
        self.mark_dirty();
        self.save()
    }

    /// Merges the fetched resources `batch` of `resource_type` into the
    /// snapshot, marks it as changed and asks for a save, whose step is
    /// handed back.
    pub fn absorb_resources(
        &mut self,
        resource_type: ResourceType,
        batch: DataItems<ResourceState<R>>,
    ) -> (step: SaveStep)
        ensures
            old(self).resources_absorbed(resource_type, batch, *final(self)),
            step == save_step(true, old(self).saving),
    {
        merge_resources(self.category_mut(resource_type), batch);
        self.mark_dirty();
        self.save()
    }

    /// The snapshot with the fetch of `resource_type` in the state `status`.
    pub open spec fn with_fetch_status(
        &self,
        resource_type: ResourceType,
        status: FetchStatus,
    ) -> Self {
        self.with_category(
            resource_type,
            DataItems { fetch_status: status, ..self.category(resource_type) },
        )
    }

    /// Records where the fetch of `resource_type` stands.
    pub fn set_fetch_status(&mut self, resource_type: ResourceType, status: FetchStatus)
        ensures
            *final(self) == old(self).with_fetch_status(resource_type, status),
    {
        self.category_mut(resource_type).fetch_status = status;
    }

    /// The resources of `resource_type`.
    pub fn category_ref(&self, resource_type: ResourceType) -> (items: &DataItems<
        ResourceState<R>,
    >)
        ensures
            *items == self.category(resource_type),
    {
        match resource_type {
            ResourceType::File => &self.files,
            ResourceType::Multimedia => &self.multimedia,
            ResourceType::Weblecture => &self.weblectures,
            ResourceType::Conference => &self.conferences,
        }
    }

    /// Records that the snapshot has changed.
    pub fn mark_dirty(&mut self)
        ensures
            *final(self) == (Data { dirty: true, ..*old(self) }),
    {
        self.dirty = true;
    }

    /// The resources of `resource_type`, to be changed.
    pub fn category_mut(&mut self, resource_type: ResourceType) -> (items: &mut DataItems<
        ResourceState<R>,
    >)
        ensures
            *items == old(self).category(resource_type),
            *final(self) == old(self).with_category(resource_type, *final(items)),
    {
        match resource_type {
            ResourceType::File => &mut self.files,
            ResourceType::Multimedia => &mut self.multimedia,
            ResourceType::Weblecture => &mut self.weblectures,
            ResourceType::Conference => &mut self.conferences,
        }
    }
}

impl<M, R> Storage for Data<M, R> {
    open spec fn dirty(&self) -> bool {
        self.dirty
    }

    open spec fn saving(&self) -> bool {
        self.saving
    }

    open spec fn with_flags(&self, dirty: bool, saving: bool) -> Self {
        Data { dirty, saving, ..*self }
    }

    proof fn lemma_flags(&self, dirty: bool, saving: bool, dirty2: bool, saving2: bool) {
        assert(self.with_flags(self.dirty(), self.saving()) == *self);
    }

    fn file_name() -> (name: String)
        ensures
            name@ == "data.json"@,
    {
        String::from_str("data.json")
    }

    fn get_dirty(&mut self) -> (flag: &mut bool) {
        assert(self.with_flags(self.dirty(), self.saving()) == *self);
        &mut self.dirty
    }

    fn get_saving(&mut self) -> (flag: &mut bool) {
        assert(self.with_flags(self.dirty(), self.saving()) == *self);
        &mut self.saving
    }
}

} // verus!
