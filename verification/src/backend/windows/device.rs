//! The interfaces of an open device, and the way from an endpoint to its interface.

use vstd::prelude::*;
use vstd::string::StringExecFns;
use std::collections::HashMap;

use crate::backend::windows::pipes::{Handle, PipeInfo, PipeSearch, SearchView};
use crate::error::{outcome, ErrorView, UsbError};
use crate::numeral::{
    digits_value, hex_fixed, law_hex_fixed_reads_back, lemma_numeral, numeral, write_hex_fixed,
    write_numeral,
};
use vstd::arithmetic::power::pow;
use crate::protocol::descriptor::EndpointInfo;
use crate::text::string_of;

verus! {

broadcast use {vstd::std_specs::hash::group_hash_axioms, vstd::string::group_string_axioms};

/// The interfaces of an open device. The first interface is held as long as the device is
/// open. Each other one is held from its claim to its release, by a handle of its own.
pub struct WinUsbDevice {
    primary: Handle,
    associated: Vec<(u8, Handle)>,
    endpoint_cache: HashMap<u8, Handle>,
}

/// A [`WinUsbDevice`] with its interfaces as a sequence and its endpoints as a map.
#[verifier::ext_equal]
pub struct DeviceView {
    /// The handle of the first interface.
    pub primary: Handle,
    /// The numbers and handles of the claimed interfaces, in the order of their claims.
    pub associated: Seq<(u8, Handle)>,
    /// The handles of the endpoints that are known.
    pub cache: Map<u8, Handle>,
}

impl View for WinUsbDevice {
    type V = DeviceView;

    closed spec fn view(&self) -> DeviceView {
        DeviceView {
            primary: self.primary,
            associated: self.associated@,
            cache: self.endpoint_cache@,
        }
    }
}

impl DeviceView {
    /// A device none of whose interfaces is claimed.
    pub open spec fn opened(primary: Handle) -> DeviceView {
        DeviceView { primary, associated: Seq::empty(), cache: Map::empty() }
    }

    /// Whether an interface other than the first is claimed.
    pub open spec fn claimed(self, interface: u8) -> bool {
        exists|i: int|
            0 <= i < self.associated.len() && (#[trigger] self.associated[i]).0 == interface
    }

    /// The handles, in the order in which they were obtained.
    pub open spec fn handles(self) -> Seq<Handle> {
        seq![self.primary] + self.associated.map_values(|a: (u8, Handle)| a.1)
    }

    /// Whether no interface is claimed twice, the first never, and each known endpoint belongs
    /// to a handle that is held.
    pub open spec fn wf(self) -> bool {
        &&& forall|i: int|
            0 <= i < self.associated.len() ==> (#[trigger] self.associated[i]).0 != 0
        &&& forall|i: int, j: int|
            0 <= i < j < self.associated.len() ==> (#[trigger] self.associated[i]).0
                != (#[trigger] self.associated[j]).0
        &&& forall|e: u8| #[trigger]
            self.cache.dom().contains(e) ==> self.handles().contains(self.cache[e])
    }

    /// The device after the endpoints of an interface have become known.
    pub open spec fn with_endpoints(self, handle: Handle, endpoints: Seq<u8>) -> DeviceView {
        DeviceView {
            cache: self.cache.union_prefer_right(
                Map::new(|e: u8| endpoints.contains(e), |e: u8| handle),
            ),
            ..self
        }
    }

    /// The device after it has claimed an interface with the given handle and endpoints.
    pub open spec fn with_interface(self, interface: u8, handle: Handle, endpoints: Seq<u8>) -> DeviceView {
        DeviceView {
            associated: self.associated.push((interface, handle)),
            ..self.with_endpoints(handle, endpoints)
        }
    }

    /// The place of a claimed interface.
    pub open spec fn place(self, interface: u8) -> int {
        choose|i: int|
            0 <= i < self.associated.len() && (#[trigger] self.associated[i]).0 == interface
    }

    /// The device after it has released a claimed interface: endpoints that belong to the
    /// handle of the interface are no longer known.
    pub open spec fn without_interface(self, interface: u8) -> DeviceView {
        let handle = self.associated[self.place(interface)].1;
        DeviceView {
            associated: self.associated.remove(self.place(interface)),
            cache: self.cache.restrict(self.cache.dom().filter(|e: u8| self.cache[e] != handle)),
            ..self
        }
    }

    /// Where an endpoint leads. A known endpoint leads to its interface. Of one that is not
    /// known the interface has to be searched for, unless only the first one is held.
    pub open spec fn leads_to(self, endpoint: u8) -> Option<Handle> {
        if self.cache.dom().contains(endpoint) {
            Some(self.cache[endpoint])
        } else if self.associated.len() == 0 {
            Some(self.primary)
        } else {
            None
        }
    }
}

/// The complaint about an interface that is not claimed.
pub open spec fn not_claimed_text(interface: u8) -> Seq<char> {
    "interface "@ + numeral(interface as int, 10) + " not claimed; call claim_interface first"@
}

/// The complaint about an endpoint that no held interface has.
pub open spec fn no_endpoint_text(endpoint: u8) -> Seq<char> {
    "endpoint 0x"@ + hex_fixed(endpoint as int, 2) + " not found on any claimed interface"@
}

/// What a claim takes.
#[derive(Debug, Clone, Copy, PartialEq, Eq, Structural)]
pub enum ClaimStep {
    /// The interface is held already, and its endpoints are to be scanned.
    Scan(Handle),
    /// The interface is claimed already.
    Nothing,
    /// The associated interface with this index is to be obtained from the first interface.
    Associate(u8),
}

/// How an endpoint leads to its interface.
#[derive(Debug)]
pub enum Route {
    Known(Handle),
    Search(PipeSearch),
}

impl WinUsbDevice {
    /// What holds of every device.
    #[verifier::type_invariant]
    pub open spec fn inv(self) -> bool {
        self@.wf()
    }

    /// A device that was just opened.
    pub fn new(primary: Handle) -> (d: WinUsbDevice)
        ensures
            d@ == DeviceView::opened(primary),
            d@.wf(),
    {
        WinUsbDevice { primary, associated: Vec::new(), endpoint_cache: HashMap::new() }
    }

    /// The handle of the first interface.
    pub fn primary(&self) -> (h: Handle)
        ensures
            h == self@.primary,
    {
        self.primary
    }

    /// The place of a claimed interface.
    fn position(&self, interface: u8) -> (r: Option<usize>)
        ensures
            match r {
                Some(i) => {
                    &&& i < self@.associated.len()
                    &&& self@.associated[i as int].0 == interface
                    &&& i == self@.place(interface)
                },
                None => !self@.claimed(interface),
            },
    {
        proof {
            use_type_invariant(self);
        }
        let mut i: usize = 0;
        while i < self.associated.len()
            invariant
                i <= self.associated@.len(),
                forall|j: int|
                    0 <= j < i ==> (#[trigger] self.associated@[j]).0 != interface,
                self@.wf(),
            decreases self.associated@.len() - i,
        {
            if self.associated[i].0 == interface {
                assert(self@.associated[i as int].0 == interface);
                let ghost p = self@.place(interface);
                assert(self@.associated[p].0 == interface);
                return Some(i);
            }
            i += 1;
        }
        None
    }

    /// Return the WinUSB interface handle for the given interface number.
    /// Returns `Err` if the interface has not been claimed.
    pub fn interface_handle(&self, interface: u8) -> (r: Result<Handle, UsbError>)
        ensures
            outcome(r) == if interface == 0 {
                Ok(self@.primary)
            } else if self@.claimed(interface) {
                Ok(self@.associated[self@.place(interface)].1)
            } else {
                Err(ErrorView::Other(not_claimed_text(interface)))
            },
    {
        if interface == 0 {
            return Ok(self.primary);
        }
        match self.position(interface) {
            Some(i) => {
                assert(self@.associated[i as int].0 == interface);
                Ok(self.associated[i].1)
            },
            None => {
                let number: String = string_of(write_numeral(interface as u32, 10).as_slice());
                let front: String = "interface ".to_owned().concat(number.as_str());
                Err(UsbError::Other(front.concat(" not claimed; call claim_interface first")))
            },
        }
    }

    /// All handles, in the order in which they were obtained.
    pub fn handles(&self) -> (r: Vec<Handle>)
        ensures
            r@ == self@.handles(),
    {
        let mut r: Vec<Handle> = Vec::new();
        r.push(self.primary);
        for i in 0..self.associated.len()
            invariant
                r@ == seq![self.primary] + self.associated@.take(i as int).map_values(
                    |a: (u8, Handle)| a.1,
                ),
        {
            let ghost before = r@;
            r.push(self.associated[i].1);
            assert(r@ =~= seq![self.primary] + self.associated@.take(i + 1).map_values(
                |a: (u8, Handle)| a.1,
            ));
        }
        assert(self.associated@.take(self.associated@.len() as int) =~= self.associated@);
        r
    }

    /// Find which held interface handle owns `endpoint`.
    ///
    /// Checks the endpoint cache (populated by `claim_interface`) first; falls
    /// back to searching all held handles.
    pub fn handle_for_endpoint(&self, endpoint: u8) -> (r: Route)
        ensures
            match r {
                Route::Known(h) => self@.leads_to(endpoint) == Some(h),
                Route::Search(s) => self@.leads_to(endpoint) is None && s@ == SearchView::start(
                    endpoint,
                    self@.handles(),
                ),
            },
    {
        if let Some(h) = self.endpoint_cache.get(&endpoint) {
            return Route::Known(*h);
        }
        if self.associated.len() == 0 {
            return Route::Known(self.primary);
        }
        Route::Search(PipeSearch::start(endpoint, self.handles()))
    }

    /// The interface that a search of an endpoint ends with: the first one where no interface
    /// has it.
    pub fn searched_handle(&self, found: Option<(Handle, PipeInfo)>) -> (h: Handle)
        ensures
            h == match found {
                Some((h, _)) => h,
                None => self@.primary,
            },
    {
        match found {
            Some((h, _)) => h,
            None => self.primary,
        }
    }

    /// Begins the search for the pipe of an endpoint in all held interfaces.
    pub fn search_pipe(&self, endpoint: u8) -> (s: PipeSearch)
        ensures
            s@ == SearchView::start(endpoint, self@.handles()),
    {
        PipeSearch::start(endpoint, self.handles())
    }

    /// What a search for the pipe of an endpoint tells about the endpoint. The types of WinUSB
    /// pipes are those of the attributes of an endpoint: control, isochronous, bulk and
    /// interrupt.
    pub fn get_pipe_info(endpoint: u8, found: Option<(Handle, PipeInfo)>) -> (r: Result<
        EndpointInfo,
        UsbError,
    >)
        ensures
            outcome(r) == match found {
                Some((_, p)) => Ok(
                    EndpointInfo {
                        endpoint_address: p.pipe_id,
                        attributes: #[verifier::truncate] (p.pipe_type as u8),
                        max_packet_size: p.max_packet_size,
                        interval: p.interval,
                    },
                ),
                None => Err(ErrorView::Other(no_endpoint_text(endpoint))),
            },
    {
        match found {
            Some((_, p)) => Ok(
                EndpointInfo::new(
                    p.pipe_id,
                    #[verifier::truncate]
                    (p.pipe_type as u8),
                    p.max_packet_size,
                    p.interval,
                ),
            ),
            None => {
                let number: String = string_of(write_hex_fixed(endpoint as u32, 2).as_slice());
                let front: String = "endpoint 0x".to_owned().concat(number.as_str());
                Err(UsbError::Other(front.concat(" not found on any claimed interface")))
            },
        }
    }

    /// What a claim of an interface takes. The first interface needs no claim, but its
    /// endpoints become known by one. The associated interfaces are numbered from the second
    /// one on.
    pub fn claim_interface(&self, interface: u8) -> (step: ClaimStep)
        ensures
            step == if interface == 0 {
                ClaimStep::Scan(self@.primary)
            } else if self@.claimed(interface) {
                ClaimStep::Nothing
            } else {
                ClaimStep::Associate((interface - 1) as u8)
            },
    {
        if interface == 0 {
            ClaimStep::Scan(self.primary)
        } else {
            match self.position(interface) {
                Some(i) => {
                    assert(self@.associated[i as int].0 == interface);
                    ClaimStep::Nothing
                },
                None => ClaimStep::Associate(interface - 1),
            }
        }
    }

    /// Ends a claim of the first interface with its endpoints.
    pub fn finish_primary_claim(&mut self, endpoints: &[u8])
        ensures
            final(self)@ == old(self)@.with_endpoints(old(self)@.primary, endpoints@),
            final(self)@.wf(),
    {
        proof {
            use_type_invariant(&*self);
            lemma_primary_claim_keeps_handles(self@, endpoints@);
        }
        let mut cache: HashMap<u8, Handle> = HashMap::new();
        std::mem::swap(&mut cache, &mut self.endpoint_cache);
        build_endpoint_cache(&mut cache, self.primary, endpoints);
        self.endpoint_cache = cache;
    }

    /// Ends a claim of any other interface with its handle and its endpoints.
    pub fn finish_claim(&mut self, interface: u8, handle: Handle, endpoints: &[u8])
        requires
            interface != 0,
            !old(self)@.claimed(interface),
        ensures
            final(self)@ == old(self)@.with_interface(interface, handle, endpoints@),
            final(self)@.wf(),
    {
        proof {
            use_type_invariant(&*self);
            lemma_claim_keeps_handles(self@, interface, handle, endpoints@);
        }
        let mut cache: HashMap<u8, Handle> = HashMap::new();
        std::mem::swap(&mut cache, &mut self.endpoint_cache);
        build_endpoint_cache(&mut cache, handle, endpoints);
        let mut associated: Vec<(u8, Handle)> = Vec::new();
        std::mem::swap(&mut associated, &mut self.associated);
        associated.push((interface, handle));
        self.associated = associated;
        self.endpoint_cache = cache;
    }

    /// Releases an interface, and gives its handle, which is to be freed. The first interface
    /// is released when the device is closed, and one that is not claimed has nothing to free.
    pub fn release_interface(&mut self, interface: u8) -> (freed: Option<Handle>)
        ensures
            final(self)@.wf(),
            if interface != 0 && old(self)@.claimed(interface) {
                &&& freed == Some(old(self)@.associated[old(self)@.place(interface)].1)
                &&& final(self)@ == old(self)@.without_interface(interface)
            } else {
                freed is None && final(self)@ == old(self)@
            },
    {
        proof {
            use_type_invariant(&*self);
        }
        if interface == 0 {
            return None;
        }
        match self.position(interface) {
            Some(i) => {
                assert(self@.associated[i as int].0 == interface);
                proof {
                    lemma_release_keeps_handles(self@, interface);
                }
                let mut cache: HashMap<u8, Handle> = HashMap::new();
                std::mem::swap(&mut cache, &mut self.endpoint_cache);
                let mut associated: Vec<(u8, Handle)> = Vec::new();
                std::mem::swap(&mut associated, &mut self.associated);
                let (_, handle) = associated.remove(i);
                evict(&mut cache, handle);
                self.associated = associated;
                self.endpoint_cache = cache;
                Some(handle)
            },
            None => None,
        }
    }

    /// The handles that are to be freed when the device is closed: those obtained last go
    /// first.
    pub fn handles_to_free(&self) -> (r: Vec<Handle>)
        ensures
            r@ == self@.handles().reverse(),
    {
        let handles: Vec<Handle> = self.handles();
        let mut r: Vec<Handle> = Vec::new();
        for i in 0..handles.len()
            invariant
                r@ == handles@.reverse().take(i as int),
        {
            r.push(handles[handles.len() - 1 - i]);
            assert(r@ =~= handles@.reverse().take(i + 1));
        }
        assert(handles@.reverse().take(handles@.len() as int) =~= handles@.reverse());
        r
    }
}

/// Adds endpoints of an interface to a cache.
fn build_endpoint_cache(cache: &mut HashMap<u8, Handle>, handle: Handle, endpoints: &[u8])
    ensures
        final(cache)@ == old(cache)@.union_prefer_right(
            Map::new(|e: u8| endpoints@.contains(e), |e: u8| handle),
        ),
{
    let ghost all = cache@;
    for i in 0..endpoints.len()
        invariant
            cache@ == all.union_prefer_right(
                Map::new(|e: u8| endpoints@.take(i as int).contains(e), |e: u8| handle),
            ),
    {
        let ghost before = endpoints@.take(i as int);
        let ghost after = endpoints@.take(i + 1);
        assert(after =~= before.push(endpoints@[i as int]));
        assert forall|e: u8| after.contains(e) <==> before.contains(e) || e
            == endpoints@[i as int] by {
            if before.contains(e) {
                let k = before.index_of(e);
                assert(after[k] == e);
            }
            if e == endpoints@[i as int] {
                assert(after[i as int] == e);
            }
        }
        cache.insert(endpoints[i], handle);
        assert(cache@ =~= all.union_prefer_right(
            Map::new(|e: u8| after.contains(e), |e: u8| handle),
        ));
    }
    assert(endpoints@.take(endpoints@.len() as int) =~= endpoints@);
    assert(endpoints@.take(0) =~= Seq::empty());
}

/// Removes the endpoints of a handle from a cache.
fn evict(cache: &mut HashMap<u8, Handle>, handle: Handle)
    ensures
        final(cache)@ == old(cache)@.restrict(
            old(cache)@.dom().filter(|e: u8| old(cache)@[e] != handle),
        ),
{
    let ghost all = cache@;
    let mut n: u16 = 0;
    while n < 256
        invariant
            n <= 256,
            cache@ == all.restrict(all.dom().filter(|e: u8| e < n ==> all[e] != handle)),
        decreases 256 - n,
    {
        let e: u8 = n as u8;
        let known: Option<&Handle> = cache.get(&e);
        let evicted: bool = match known {
            Some(h) => *h == handle,
            None => false,
        };
        if evicted {
            cache.remove(&e);
        }
        n += 1;
        assert(cache@ =~= all.restrict(all.dom().filter(|e: u8| e < n ==> all[e] != handle)));
    }
    assert(cache@ =~= all.restrict(all.dom().filter(|e: u8| all[e] != handle)));
}

/// A claim of the first interface keeps the handles of known endpoints held.
proof fn lemma_primary_claim_keeps_handles(d: DeviceView, endpoints: Seq<u8>)
    requires
        d.wf(),
    ensures
        d.with_endpoints(d.primary, endpoints).wf(),
{
    let after = d.with_endpoints(d.primary, endpoints);
    assert(after.handles() == d.handles());
    assert forall|e: u8| #[trigger] after.cache.dom().contains(e) implies after.handles().contains(
        after.cache[e],
    ) by {
        if endpoints.contains(e) {
            assert(after.handles()[0] == d.primary);
        } else {
            assert(d.cache.dom().contains(e));
        }
    }
}

/// A claim keeps the handles of known endpoints held.
proof fn lemma_claim_keeps_handles(d: DeviceView, interface: u8, handle: Handle, endpoints: Seq<u8>)
    requires
        d.wf(),
        interface != 0,
        !d.claimed(interface),
    ensures
        d.with_interface(interface, handle, endpoints).wf(),
{
    let after = d.with_interface(interface, handle, endpoints);
    let n = d.associated.len() as int;
    assert(after.handles() =~= d.handles().push(handle));
    assert forall|e: u8| #[trigger] after.cache.dom().contains(e) implies after.handles().contains(
        after.cache[e],
    ) by {
        if endpoints.contains(e) {
            assert(after.handles()[n + 1] == handle);
        } else {
            let k = d.handles().index_of(d.cache[e]);
            assert(d.cache.dom().contains(e));
            assert(after.handles()[k] == d.cache[e]);
        }
    }
    assert forall|i: int, j: int| 0 <= i < j < after.associated.len() implies (
    #[trigger] after.associated[i]).0 != (#[trigger] after.associated[j]).0 by {
        assert(after.associated[i] == d.associated[i]);
        if j < n {
            assert(after.associated[j] == d.associated[j]);
        }
    }
    assert forall|i: int| 0 <= i < after.associated.len() implies (
    #[trigger] after.associated[i]).0 != 0 by {
        if i < n {
            assert(after.associated[i] == d.associated[i]);
        }
    }
}

/// A release keeps the handles of known endpoints held.
proof fn lemma_release_keeps_handles(d: DeviceView, interface: u8)
    requires
        d.wf(),
        d.claimed(interface),
    ensures
        d.without_interface(interface).wf(),
{
    let after = d.without_interface(interface);
    let p = d.place(interface);
    let handle = d.associated[p].1;
    assert forall|e: u8| #[trigger] after.cache.dom().contains(e) implies after.handles().contains(
        after.cache[e],
    ) by {
        assert(d.cache.dom().contains(e));
        let k = d.handles().index_of(d.cache[e]);
        assert(d.handles()[k] == d.cache[e]);
        if k <= p {
            assert(after.handles()[k] == d.handles()[k]);
        } else {
            assert(k != p + 1);
            assert(after.handles()[k - 1] == d.handles()[k]);
        }
    }
    assert forall|i: int, j: int| 0 <= i < j < after.associated.len() implies (
    #[trigger] after.associated[i]).0 != (#[trigger] after.associated[j]).0 by {
        let i0 = if i < p { i } else { i + 1 };
        let j0 = if j < p { j } else { j + 1 };
        assert(after.associated[i] == d.associated[i0]);
        assert(after.associated[j] == d.associated[j0]);
    }
    assert forall|i: int| 0 <= i < after.associated.len() implies (
    #[trigger] after.associated[i]).0 != 0 by {
        let i0 = if i < p { i } else { i + 1 };
        assert(after.associated[i] == d.associated[i0]);
    }
}

// ---------------------------------------------------------------------------
// Laws
// ---------------------------------------------------------------------------

/// After a claim the interface is claimed, its handle is the one that was obtained, and its
/// endpoints lead to that handle. Endpoints that were known and are not among its own lead
/// where they led before.
pub proof fn law_claimed_endpoints_lead_to_their_interface(
    d: DeviceView,
    interface: u8,
    handle: Handle,
    endpoints: Seq<u8>,
)
    requires
        d.wf(),
        interface != 0,
        !d.claimed(interface),
    ensures
        ({
            let after = d.with_interface(interface, handle, endpoints);
            &&& after.wf()
            &&& after.claimed(interface)
            &&& after.associated[after.place(interface)].1 == handle
            &&& forall|e: u8|
                endpoints.contains(e) ==> #[trigger] after.leads_to(e) == Some(handle)
            &&& forall|e: u8|
                d.cache.dom().contains(e) && !endpoints.contains(e) ==> #[trigger] after.leads_to(e)
                    == d.leads_to(e)
        }),
{
    lemma_claim_keeps_handles(d, interface, handle, endpoints);
    let after = d.with_interface(interface, handle, endpoints);
    let n = d.associated.len() as int;
    assert(after.associated[n] == (interface, handle));
    let p = after.place(interface);
    assert(after.associated[p].0 == interface);
    if p < n {
        assert(d.associated[p].0 == interface);
    }
}

/// A release undoes a claim: the same interfaces are claimed as before. Where the handle was a
/// new one, the same endpoints are known as before, but for those of the interface.
pub proof fn law_release_undoes_a_claim(
    d: DeviceView,
    interface: u8,
    handle: Handle,
    endpoints: Seq<u8>,
)
    requires
        d.wf(),
        interface != 0,
        !d.claimed(interface),
    ensures
        ({
            let after = d.with_interface(interface, handle, endpoints).without_interface(interface);
            &&& after.wf()
            &&& after.primary == d.primary
            &&& after.associated == d.associated
            &&& !d.handles().contains(handle) ==> after.cache == d.cache.restrict(
                d.cache.dom().filter(|e: u8| !endpoints.contains(e)),
            )
        }),
{
    law_claimed_endpoints_lead_to_their_interface(d, interface, handle, endpoints);
    let claimed = d.with_interface(interface, handle, endpoints);
    let after = claimed.without_interface(interface);
    lemma_release_keeps_handles(claimed, interface);
    let n = d.associated.len() as int;
    assert(claimed.associated[n] == (interface, handle));
    let p = claimed.place(interface);
    assert(claimed.associated[p].0 == interface);
    assert(p == n) by {
        if p < n {
            assert(d.associated[p].0 == interface);
        }
    }
    assert(after.associated =~= d.associated);
    if !d.handles().contains(handle) {
        assert(after.cache =~= d.cache.restrict(
            d.cache.dom().filter(|e: u8| !endpoints.contains(e)),
        ));
    }
}

/// After a release the interface is not claimed any more, and no known endpoint leads to the
/// handle that is freed.
pub proof fn law_nothing_leads_to_a_released_interface(d: DeviceView, interface: u8)
    requires
        d.wf(),
        d.claimed(interface),
    ensures
        ({
            let after = d.without_interface(interface);
            let handle = d.associated[d.place(interface)].1;
            &&& after.wf()
            &&& !after.claimed(interface)
            &&& forall|e: u8| #[trigger]
                after.cache.dom().contains(e) ==> after.cache[e] != handle
        }),
{
    lemma_release_keeps_handles(d, interface);
    let after = d.without_interface(interface);
    let p = d.place(interface);
    assert forall|i: int| 0 <= i < after.associated.len() implies (
    #[trigger] after.associated[i]).0 != interface by {
        let i0 = if i < p { i } else { i + 1 };
        assert(after.associated[i] == d.associated[i0]);
        assert(d.associated[p].0 == interface);
    }
}

/// A known endpoint leads to its own interface. Any other leads to the first interface where no
/// other is claimed, and is to be searched for where one is.
pub proof fn law_where_an_endpoint_leads(d: DeviceView, endpoint: u8)
    ensures
        d.cache.dom().contains(endpoint) ==> d.leads_to(endpoint) == Some(d.cache[endpoint]),
        !d.cache.dom().contains(endpoint) && d.associated.len() == 0 ==> d.leads_to(endpoint)
            == Some(d.primary),
        !d.cache.dom().contains(endpoint) && d.associated.len() > 0 ==> d.leads_to(endpoint) is None,
{
}

/// The handles are that of the first interface, and behind it one for each claim, in the order
/// of the claims.
pub proof fn law_handles_are_in_order(d: DeviceView)
    ensures
        d.handles().len() == d.associated.len() + 1,
        d.handles()[0] == d.primary,
        forall|i: int|
            0 <= i < d.associated.len() ==> #[trigger] d.handles()[i + 1] == d.associated[i].1,
{
    assert forall|i: int| 0 <= i < d.associated.len() implies #[trigger] d.handles()[i + 1]
        == d.associated[i].1 by {
        assert(d.associated.map_values(|a: (u8, Handle)| a.1)[i] == d.associated[i].1);
    }
}

/// A device that was just opened holds its first interface and knows no endpoint.
pub proof fn law_opened_device_holds_one_interface(primary: Handle)
    ensures
        ({
            let d = DeviceView::opened(primary);
            &&& d.primary == primary && d.associated.len() == 0
            &&& forall|e: u8| !#[trigger] d.cache.dom().contains(e)
            &&& d.wf()
        }),
{
}

/// An interface is claimed exactly where it is among the claimed ones, and its place is the one
/// where it stands.
pub proof fn law_claimed_interface_has_one_place(d: DeviceView, interface: u8, i: int)
    requires
        d.wf(),
    ensures
        0 <= i < d.associated.len() && d.associated[i].0 == interface ==> d.claimed(interface)
            && d.place(interface) == i,
        (forall|k: int| 0 <= k < d.associated.len() ==> (#[trigger] d.associated[k]).0 != interface)
            ==> !d.claimed(interface),
{
    if 0 <= i < d.associated.len() && d.associated[i].0 == interface {
        let p = d.place(interface);
        assert(d.associated[p].0 == interface);
    }
}

/// A claim of the first interface makes its endpoints lead to it, and changes nothing else.
pub proof fn law_primary_endpoints_lead_to_the_first_interface(d: DeviceView, endpoints: Seq<u8>)
    requires
        d.wf(),
    ensures
        ({
            let after = d.with_endpoints(d.primary, endpoints);
            &&& after.wf()
            &&& after.primary == d.primary && after.associated == d.associated
            &&& forall|e: u8|
                endpoints.contains(e) ==> #[trigger] after.leads_to(e) == Some(d.primary)
            &&& forall|e: u8|
                !endpoints.contains(e) ==> #[trigger] after.leads_to(e) == d.leads_to(e)
        }),
{
    lemma_primary_claim_keeps_handles(d, endpoints);
}

/// A claim adds its interface behind those that are claimed, and keeps them.
pub proof fn law_claim_keeps_the_other_interfaces(
    d: DeviceView,
    interface: u8,
    handle: Handle,
    endpoints: Seq<u8>,
)
    ensures
        ({
            let after = d.with_interface(interface, handle, endpoints);
            &&& after.primary == d.primary
            &&& after.associated.len() == d.associated.len() + 1
            &&& after.associated.drop_last() == d.associated
            &&& after.associated.last() == (interface, handle)
        }),
{
    let after = d.with_interface(interface, handle, endpoints);
    assert(after.associated.drop_last() =~= d.associated);
}

/// A release keeps every other interface with its handle, and every known endpoint that leads
/// to another handle.
pub proof fn law_release_keeps_the_other_interfaces(d: DeviceView, interface: u8)
    requires
        d.wf(),
        d.claimed(interface),
    ensures
        ({
            let after = d.without_interface(interface);
            let p = d.place(interface);
            &&& after.primary == d.primary
            &&& after.associated.len() == d.associated.len() - 1
            &&& forall|i: int| 0 <= i < p ==> #[trigger] after.associated[i] == d.associated[i]
            &&& forall|i: int|
                p <= i < after.associated.len() ==> #[trigger] after.associated[i]
                    == d.associated[i + 1]
            &&& forall|e: u8|
                d.cache.dom().contains(e) && d.cache[e] != d.associated[p].1 ==> (
                #[trigger] after.cache.dom().contains(e)) && after.cache[e] == d.cache[e]
            &&& forall|e: u8| #[trigger]
                after.cache.dom().contains(e) ==> d.cache.dom().contains(e)
        }),
{
    let p = d.place(interface);
    assert(d.associated[p].0 == interface);
}

/// The complaints tell the number of the interface in decimal digits, and the address of the
/// endpoint in two hexadecimal ones.
pub proof fn law_complaints_tell_the_number(n: u8)
    ensures
        not_claimed_text(n) == "interface "@ + numeral(n as int, 10)
            + " not claimed; call claim_interface first"@,
        digits_value(numeral(n as int, 10), 10) == n,
        no_endpoint_text(n) == "endpoint 0x"@ + hex_fixed(n as int, 2)
            + " not found on any claimed interface"@,
        digits_value(hex_fixed(n as int, 2), 16) == n,
        hex_fixed(n as int, 2).len() == 2,
{
    lemma_numeral(n as int, 10);
    reveal_with_fuel(pow, 3);
    law_hex_fixed_reads_back(n as int, 2);
}

/// What is told about the endpoint of a pipe is what WinUSB told about the pipe. A pipe that was
/// not found is told as missing, with the address of the endpoint.
pub proof fn law_pipe_info_keeps_the_properties(
    endpoint: u8,
    h: Handle,
    p: PipeInfo,
    found: Result<EndpointInfo, UsbError>,
    missing: Result<EndpointInfo, UsbError>,
)
    requires
        call_ensures(WinUsbDevice::get_pipe_info, (endpoint, Some((h, p))), found),
        call_ensures(WinUsbDevice::get_pipe_info, (endpoint, None::<(Handle, PipeInfo)>), missing),
    ensures
        found is Ok,
        found->Ok_0.endpoint_address == p.pipe_id,
        found->Ok_0.max_packet_size == p.max_packet_size,
        found->Ok_0.interval == p.interval,
        0 <= p.pipe_type <= 255 ==> found->Ok_0.attributes == p.pipe_type,
        missing is Err && missing->Err_0@ == ErrorView::Other(no_endpoint_text(endpoint)),
{
}

} // verus!
