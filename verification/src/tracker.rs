//! What a plugin keeps of the workloads that it serves, and of their components.
use vstd::prelude::*;

use crate::table::Table;

verus! {

/// What is kept of one workload: its own data, once it has any, and that of its components.
pub struct WorkloadTrackerItem<T, Y> {
    pub workload_data: Option<T>,
    pub components: Table<Y>,
}

/// What is kept of all workloads, and in which workload each component stands.
pub struct WorkloadTracker<T, Y> {
    pub workloads: Table<WorkloadTrackerItem<T, Y>>,
    pub components: Table<String>,
}

/// Whether the tables of an item are in order.
pub open spec fn item_wf<T, Y>(item: WorkloadTrackerItem<T, Y>) -> bool {
    item.components.wf()
}

/// The keys of the first `n` entries.
spec fn first_keys<Y>(listing: Seq<(Seq<char>, Y)>, n: int) -> Set<Seq<char>> {
    Set::new(|key: Seq<char>| exists|j: int| 0 <= j < n && (#[trigger] listing[j]).0 == key)
}

impl<T, Y> WorkloadTracker<T, Y> {
    /// Every table in the tracker is in order.
    pub open spec fn wf(&self) -> bool {
        &&& self.workloads.wf()
        &&& self.components.wf()
        &&& forall|id: Seq<char>| #[trigger]
            self.workloads@.contains_key(id) ==> item_wf(self.workloads@[id])
    }

    /// The workloads under their ids.
    pub open spec fn items(&self) -> Map<Seq<char>, WorkloadTrackerItem<T, Y>> {
        self.workloads@
    }

    /// The ids of the workloads in which the components stand.
    pub open spec fn index(&self) -> Map<Seq<char>, Seq<char>> {
        self.components@.map_values(|id: String| id@)
    }

    /// Whether the tracker holds data of the component.
    pub open spec fn has_component(&self, component: Seq<char>) -> bool {
        &&& self.index().contains_key(component)
        &&& self.items().contains_key(self.index()[component])
        &&& self.items()[self.index()[component]].components@.contains_key(component)
    }

    /// The data of the component.
    pub open spec fn component(&self, component: Seq<char>) -> Y {
        self.items()[self.index()[component]].components@[component]
    }

    /// A tracker of no workloads.
    pub fn new() -> (tracker: Self)
        ensures
            tracker.wf(),
            tracker.items() == Map::<Seq<char>, WorkloadTrackerItem<T, Y>>::empty(),
            tracker.index() == Map::<Seq<char>, Seq<char>>::empty(),
    {
        let tracker = WorkloadTracker { workloads: Table::new(), components: Table::new() };
        assert(tracker.index() =~= Map::<Seq<char>, Seq<char>>::empty());
        tracker
    }

    /// The data of a workload.
    pub fn get_workload_data(&self, workload: &str) -> (data: Option<&T>)
        ensures
            match data {
                Some(data) => self.items().contains_key(workload@)
                    && self.items()[workload@].workload_data == Some(*data),
                None => self.items().contains_key(workload@)
                    ==> self.items()[workload@].workload_data is None,
            },
    {
        match self.workloads.get(workload) {
            Some(item) => match &item.workload_data {
                Some(data) => Some(data),
                None => None,
            },
            None => None,
        }
    }

    /// Keeps `data` of a workload, whose components stay as they are.
    pub fn add_unresolved_workload(&mut self, workload: String, data: T)
        requires
            old(self).wf(),
        ensures
            final(self).wf(),
            final(self).index() == old(self).index(),
            final(self).items().dom() == old(self).items().dom().insert(workload@),
            forall|id: Seq<char>|
                id != workload@ && #[trigger] old(self).items().contains_key(id)
                    ==> final(self).items()[id] == old(self).items()[id],
            final(self).items()[workload@].workload_data == Some(data),
            final(self).items()[workload@].components@ == (if old(self).items().contains_key(
                workload@,
            ) {
                old(self).items()[workload@].components@
            } else {
                Map::<Seq<char>, Y>::empty()
            }),
    {
        let ghost before = self.workloads@;
        match self.workloads.get_mut(workload.as_str()) {
            Some(item) => {
                item.workload_data = Some(data);
            },
            None => {
                self.workloads.insert(
                    workload,
                    WorkloadTrackerItem { workload_data: Some(data), components: Table::new() },
                );
            },
        }
    }

    /// Keeps `data` of a component of a workload, in place of what was kept of it there.
    pub fn add_component(&mut self, workload: String, component: String, data: Y)
        requires
            old(self).wf(),
        ensures
            final(self).wf(),
            final(self).index() == old(self).index().insert(component@, workload@),
            final(self).items().dom() == old(self).items().dom().insert(workload@),
            forall|id: Seq<char>|
                id != workload@ && #[trigger] old(self).items().contains_key(id)
                    ==> final(self).items()[id] == old(self).items()[id],
            final(self).items()[workload@].workload_data == (if old(self).items().contains_key(
                workload@,
            ) {
                old(self).items()[workload@].workload_data
            } else {
                None
            }),
            final(self).items()[workload@].components@ == (if old(self).items().contains_key(
                workload@,
            ) {
                old(self).items()[workload@].components@
            } else {
                Map::<Seq<char>, Y>::empty()
            }).insert(component@, data),
    {
        let name = component.clone();
        match self.workloads.get_mut(workload.as_str()) {
            Some(item) => {
                item.components.insert(name, data);
            },
            None => {
                let mut components: Table<Y> = Table::new();
                components.insert(name, data);
                self.workloads.insert(
                    workload.clone(),
                    WorkloadTrackerItem { workload_data: None, components },
                );
            },
        }
        self.components.insert(component, workload);
        assert(self.index() =~= old(self).index().insert(component@, workload@));
    }

    /// The data of a component.
    pub fn get_component_data(&self, component: &str) -> (data: Option<&Y>)
        ensures
            match data {
                Some(data) => self.has_component(component@) && *data == self.component(component@),
                None => !self.has_component(component@),
            },
    {
        match self.components.get(component) {
            Some(workload) => match self.workloads.get(workload.as_str()) {
                Some(item) => item.components.get(component),
                None => None,
            },
            None => None,
        }
    }

    /// The data of a component, to be changed.
    pub fn get_component_data_mut(&mut self, component: &str) -> (data: Option<&mut Y>)
        requires
            old(self).wf(),
        ensures
            match data {
                Some(data) => {
                    let workload = old(self).index()[component@];
                    &&& old(self).has_component(component@)
                    &&& *data == old(self).component(component@)
                    &&& final(self).wf()
                    &&& final(self).index() == old(self).index()
                    &&& final(self).items().dom() =~= old(self).items().dom()
                    &&& forall|id: Seq<char>|
                        id != workload && #[trigger] old(self).items().contains_key(id)
                            ==> final(self).items()[id] == old(self).items()[id]
                    &&& final(self).items()[workload].workload_data == old(
                        self,
                    ).items()[workload].workload_data
                    &&& final(self).items()[workload].components@ == old(
                        self,
                    ).items()[workload].components@.insert(component@, *final(data))
                },
                None => !old(self).has_component(component@) && *final(self) == *old(self),
            },
    {
        if self.get_component_data(component).is_none() {
            return None;
        }
        let workload = match self.components.get(component) {
            Some(workload) => workload.clone(),
            None => {
                return None;
            },
        };
        match self.workloads.get_mut(workload.as_str()) {
            Some(item) => item.components.get_mut(component),
            None => None,
        }
    }

    /// Takes a workload out, with the index entries of its components.
    pub fn remove_workload(&mut self, workload: &str) -> (item: Option<WorkloadTrackerItem<T, Y>>)
        requires
            old(self).wf(),
        ensures
            final(self).wf(),
            final(self).items() == old(self).items().remove(workload@),
            match item {
                Some(item) => {
                    &&& old(self).items().contains_key(workload@)
                    &&& item == old(self).items()[workload@]
                    &&& final(self).index() == old(self).index().remove_keys(
                        item.components@.dom(),
                    )
                },
                None => !old(self).items().contains_key(workload@) && final(self).index()
                    == old(self).index(),
            },
    {
        match self.workloads.remove(workload) {
            Some(item) => {
                let n: usize = item.components.len();
                let ghost listing = item.components.listing();
                let ghost index = self.index();
                let ghost rest = self.workloads@;
                let mut i: usize = 0;
                assert(index =~= index.remove_keys(first_keys(listing, 0)));
                while i < n
                    invariant
                        n == listing.len(),
                        i <= n,
                        listing == item.components.listing(),
                        item.components.wf(),
                        self.components.wf(),
                        self.workloads@ == rest,
                        self.workloads.wf(),
                        self.index() == index.remove_keys(first_keys(listing, i as int)),
                    decreases n - i,
                {
                    let ghost before = self.index();
                    let key = item.components.key_at(i);
                    self.components.remove(key.as_str());
                    proof {
                        assert(self.index() =~= before.remove(key@));
                        let earlier = first_keys(listing, i as int);
                        let later = first_keys(listing, i + 1);
                        assert(later =~= earlier.insert(key@)) by {
                            assert forall|k: Seq<char>| earlier.insert(key@).contains(
                                k,
                            ) implies later.contains(k) by {
                                if k == key@ {
                                    assert(listing[i as int].0 == k);
                                }
                            }
                        }
                        assert(self.index() =~= index.remove_keys(later));
                    }
                    i = i + 1;
                }
                proof {
                    let all = first_keys(listing, n as int);
                    assert(all =~= item.components@.dom()) by {
                        assert forall|k: Seq<char>| all.contains(k) implies item.components@.dom().contains(k) by {
                            let j = choose|j: int| 0 <= j < n && (#[trigger] listing[j]).0 == k;
                            item.components.lemma_entry(j);
                        }
                        assert forall|k: Seq<char>| item.components@.dom().contains(k) implies all.contains(k) by {
                            let j = item.components.lemma_key(k);
                            assert(listing[j].0 == k);
                        }
                    }
                }
                Some(item)
            },
            None => None,
        }
    }
}

} // verus!
