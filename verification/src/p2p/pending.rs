use std::collections::HashMap;
use std::collections::HashSet;
use vstd::prelude::*;
use vstd::std_specs::hash::group_hash_axioms;

use crate::p2p::name_table::NameTable;

verus! {

broadcast use group_hash_axioms;

/// The network queries and requests a node has issued and not yet seen answered.
///
/// Queries are identified by the numbers that the network layer gave them.
/// `S` is the handle on which whoever asked for a file to be provided is told that
/// providing has started.
pub struct PendingQueries<S> {
    start_providing: HashMap<u64, S>,
    get_providers: HashSet<u64>,
    request_file: NameTable<HashSet<u64>>,
}

/// What [`PendingQueries`] holds, as mathematical values.
#[verifier::ext_equal]
pub struct PendingView<S> {
    /// Provider announcements under way, each with the handle to signal when it starts.
    pub start_providing: Map<u64, S>,
    /// Provider lookups whose first answer has not been acted on.
    pub get_providers: Set<u64>,
    /// For each file name, the file requests sent out for it.
    pub request_file: Map<Seq<char>, Set<u64>>,
}

impl<S> PendingView<S> {
    /// Nothing is pending.
    pub open spec fn empty() -> PendingView<S> {
        PendingView {
            start_providing: Map::empty(),
            get_providers: Set::empty(),
            request_file: Map::empty(),
        }
    }

    /// A provider announcement `query` was issued, to be signalled on `sender`.
    pub open spec fn record_start_providing(self, query: u64, sender: S) -> PendingView<S> {
        PendingView { start_providing: self.start_providing.insert(query, sender), ..self }
    }

    /// The announcement `query` is no longer pending.
    pub open spec fn take_start_providing(self, query: u64) -> PendingView<S> {
        PendingView { start_providing: self.start_providing.remove(query), ..self }
    }

    /// A provider lookup `query` was issued.
    pub open spec fn record_get_providers(self, query: u64) -> PendingView<S> {
        PendingView { get_providers: self.get_providers.insert(query), ..self }
    }

    /// The lookup `query` is no longer pending.
    pub open spec fn take_get_providers(self, query: u64) -> PendingView<S> {
        PendingView { get_providers: self.get_providers.remove(query), ..self }
    }

    /// The request ids sent out for `file_name` so far.
    pub open spec fn requests_for(self, file_name: Seq<char>) -> Set<u64> {
        if self.request_file.contains_key(file_name) {
            self.request_file[file_name]
        } else {
            Set::empty()
        }
    }

    /// A file request `request` was sent out for `file_name`.
    pub open spec fn record_file_request(self, file_name: Seq<char>, request: u64) -> PendingView<
        S,
    > {
        PendingView {
            request_file: self.request_file.insert(
                file_name,
                self.requests_for(file_name).insert(request),
            ),
            ..self
        }
    }

    /// No request for `file_name` is pending any more.
    pub open spec fn take_file_request(self, file_name: Seq<char>) -> PendingView<S> {
        PendingView { request_file: self.request_file.remove(file_name), ..self }
    }

    /// Every file name with pending requests has at least one of them.
    pub open spec fn requests_nonempty(self) -> bool {
        forall|n: Seq<char>| #[trigger]
            self.request_file.contains_key(n) ==> !self.request_file[n].is_empty()
    }
}

impl<S> View for PendingQueries<S> {
    type V = PendingView<S>;

    closed spec fn view(&self) -> PendingView<S> {
        PendingView {
            start_providing: self.start_providing@,
            get_providers: self.get_providers@,
            request_file: self.request_file@.map_values(|s: HashSet<u64>| s@),
        }
    }
}

impl<S> PendingQueries<S> {
    /// The internal invariant of the tables.
    pub closed spec fn wf(&self) -> bool {
        self.request_file.wf()
    }

    /// Nothing pending.
    pub fn new() -> (p: Self)
        ensures
            p.wf(),
            p@ == PendingView::<S>::empty(),
    {
        let p = PendingQueries {
            start_providing: HashMap::new(),
            get_providers: HashSet::new(),
            request_file: NameTable::new(),
        };
        assert(p@.request_file =~= Map::<Seq<char>, Set<u64>>::empty());
        p
    }

    /// Records that the provider announcement `query` was issued; `sender` is signalled
    /// when it starts. A handle recorded earlier under the same query is replaced.
    pub fn record_start_providing(&mut self, query: u64, sender: S)
        requires
            old(self).wf(),
        ensures
            final(self).wf(),
            final(self)@ == old(self)@.record_start_providing(query, sender),
    {
        self.start_providing.insert(query, sender);
    }

    /// Takes out the handle of the announcement `query`, if it is pending.
    pub fn take_start_providing(&mut self, query: u64) -> (r: Option<S>)
        requires
            old(self).wf(),
        ensures
            final(self).wf(),
            final(self)@ == old(self)@.take_start_providing(query),
            match r {
                Some(s) => old(self)@.start_providing.contains_key(query)
                    && s == old(self)@.start_providing[query],
                None => !old(self)@.start_providing.contains_key(query),
            },
    {
        self.start_providing.remove(&query)
    }

    /// Records that the provider lookup `query` was issued.
    pub fn record_get_providers(&mut self, query: u64)
        requires
            old(self).wf(),
        ensures
            final(self).wf(),
            final(self)@ == old(self)@.record_get_providers(query),
    {
        self.get_providers.insert(query);
    }

    /// Whether the lookup `query` is pending.
    pub fn awaits_providers(&self, query: u64) -> (b: bool)
        requires
            self.wf(),
        ensures
            b == self@.get_providers.contains(query),
    {
        self.get_providers.contains(&query)
    }

    /// Takes the lookup `query` out of the pending ones; tells whether it was pending.
    pub fn take_get_providers(&mut self, query: u64) -> (was_pending: bool)
        requires
            old(self).wf(),
        ensures
            final(self).wf(),
            final(self)@ == old(self)@.take_get_providers(query),
            was_pending == old(self)@.get_providers.contains(query),
    {
        self.get_providers.remove(&query)
    }

    /// Records that the file request `request` was sent out for `file_name`.
    pub fn record_file_request(&mut self, file_name: String, request: u64)
        requires
            old(self).wf(),
        ensures
            final(self).wf(),
            final(self)@ == old(self)@.record_file_request(file_name@, request),
    {
        let ghost name = file_name@;
        let ids = match self.request_file.remove(&file_name) {
            Some(mut ids) => {
                ids.insert(request);
                ids
            },
            None => {
                let mut ids: HashSet<u64> = HashSet::new();
                ids.insert(request);
                ids
            },
        };
        assert(ids@ == old(self)@.requests_for(name).insert(request));
        self.request_file.insert(file_name, ids);
        assert(self@.request_file =~= old(self)@.record_file_request(name, request).request_file);
    }

    /// Takes the requests for `file_name` out of the pending ones; tells whether there were any.
    pub fn take_file_request(&mut self, file_name: &String) -> (was_pending: bool)
        requires
            old(self).wf(),
        ensures
            final(self).wf(),
            final(self)@ == old(self)@.take_file_request(file_name@),
            was_pending == old(self)@.request_file.contains_key(file_name@),
    {
        let r = self.request_file.remove(file_name);
        assert(self@.request_file =~= old(self)@.take_file_request(file_name@).request_file);
        r.is_some()
    }
}

} // verus!
