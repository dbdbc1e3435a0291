//! A backend whose devices are made up, for tests without hardware.

use vstd::prelude::*;
use std::collections::HashSet;
use std::time::Duration;

use crate::backend::{UsbBackend, UsbDevice};
use crate::error::{outcome, outcome_view, ErrorView, UsbError};
use crate::protocol::descriptor::ConfigView;
use crate::protocol::device_info::{info_views, DeviceInfoView};
use crate::protocol::{ConfigDescriptor, ControlSetup, DeviceDescriptor, DeviceInfo};

verus! {

broadcast use {vstd::std_specs::hash::group_hash_axioms, vstd::string::group_string_axioms};

// ---------------------------------------------------------------------------
// Texts
// ---------------------------------------------------------------------------

/// The text of an index in a language.
#[derive(Debug)]
struct StringEntry {
    index: u8,
    lang: u16,
    text: String,
}

/// The texts of a device, by their index and language.
#[derive(Debug)]
pub struct StringTable {
    entries: Vec<StringEntry>,
}

/// The texts that entries tell, of which a later one overrides an earlier one.
spec fn table_map(entries: Seq<StringEntry>) -> Map<(u8, u16), Seq<char>>
    decreases entries.len(),
{
    if entries.len() == 0 {
        Map::empty()
    } else {
        let e = entries.last();
        table_map(entries.drop_last()).insert((e.index, e.lang), e.text@)
    }
}

impl View for StringTable {
    type V = Map<(u8, u16), Seq<char>>;

    closed spec fn view(&self) -> Map<(u8, u16), Seq<char>> {
        table_map(self.entries@)
    }
}

impl StringTable {
    /// A table without texts.
    pub fn new() -> (t: StringTable)
        ensures
            t@ == Map::<(u8, u16), Seq<char>>::empty(),
    {
        StringTable { entries: Vec::new() }
    }

    /// Sets the text of an index in a language.
    pub fn insert(&mut self, index: u8, lang: u16, text: String)
        ensures
            final(self)@ == old(self)@.insert((index, lang), text@),
    {
        let e = StringEntry { index, lang, text };
        self.entries.push(e);
        assert(self.entries@.drop_last() =~= old(self).entries@);
    }

    /// The text of an index in a language.
    pub fn get(&self, index: u8, lang: u16) -> (r: Option<&String>)
        ensures
            match r {
                Some(s) => self@.dom().contains((index, lang)) && self@[(index, lang)] == s@,
                None => !self@.dom().contains((index, lang)),
            },
    {
        let mut n: usize = self.entries.len();
        assert(self.entries@.take(n as int) =~= self.entries@);
        while n > 0
            invariant
                n <= self.entries@.len(),
                self@.dom().contains((index, lang)) <==> table_map(
                    self.entries@.take(n as int),
                ).dom().contains((index, lang)),
                self@[(index, lang)] == table_map(self.entries@.take(n as int))[(index, lang)],
            decreases n,
        {
            let e: &StringEntry = &self.entries[n - 1];
            assert(self.entries@.take(n as int).drop_last() =~= self.entries@.take(n - 1));
            if e.index == index && e.lang == lang {
                return Some(&e.text);
            }
            n -= 1;
        }
        None
    }
}

impl Clone for StringTable {
    fn clone(&self) -> (t: StringTable)
        ensures
            t@ == self@,
    {
        let mut entries: Vec<StringEntry> = Vec::new();
        assert(self.entries@.take(0) =~= Seq::empty());
        for i in 0..self.entries.len()
            invariant
                table_map(entries@) == table_map(self.entries@.take(i as int)),
        {
            let e: &StringEntry = &self.entries[i];
            let copy = StringEntry { index: e.index, lang: e.lang, text: e.text.clone() };
            let ghost before = entries@;
            entries.push(copy);
            assert(entries@.drop_last() =~= before);
            assert(self.entries@.take(i + 1).drop_last() =~= self.entries@.take(i as int));
        }
        assert(self.entries@.take(self.entries@.len() as int) =~= self.entries@);
        StringTable { entries }
    }
}

// ---------------------------------------------------------------------------
// Backend
// ---------------------------------------------------------------------------

/// A made-up device.
struct MockDeviceInfo {
    info: DeviceInfo,
    descriptor: DeviceDescriptor,
    configs: Vec<ConfigDescriptor>,
    strings: StringTable,
}

/// All that is known of a made-up device.
#[verifier::ext_equal]
pub struct MockEntry {
    pub info: DeviceInfoView,
    pub descriptor: DeviceDescriptor,
    pub configs: Seq<ConfigView>,
    pub strings: Map<(u8, u16), Seq<char>>,
}

/// The views of a sequence of configurations.
pub open spec fn config_views(s: Seq<ConfigDescriptor>) -> Seq<ConfigView> {
    s.map_values(|c: ConfigDescriptor| c@)
}

impl MockDeviceInfo {
    spec fn entry(self) -> MockEntry {
        MockEntry {
            info: self.info@,
            descriptor: self.descriptor,
            configs: config_views(self.configs@),
            strings: self.strings@,
        }
    }
}

/// A mock backend for testing without physical USB hardware.
pub struct MockBackend {
    devices: Vec<MockDeviceInfo>,
}

/// Whether a device of the sequence has a path.
spec fn has_path(devices: Seq<MockDeviceInfo>, path: Seq<char>) -> bool {
    exists|i: int| 0 <= i < devices.len() && (#[trigger] devices[i]).info.path@ == path
}

/// The place of the device with a path.
spec fn place(devices: Seq<MockDeviceInfo>, path: Seq<char>) -> int {
    choose|i: int| 0 <= i < devices.len() && (#[trigger] devices[i]).info.path@ == path
}

/// The devices by their paths.
spec fn device_map(devices: Seq<MockDeviceInfo>) -> Map<Seq<char>, MockEntry> {
    Map::new(
        |path: Seq<char>| has_path(devices, path),
        |path: Seq<char>| devices[place(devices, path)].entry(),
    )
}

/// Whether no two devices have the same path.
spec fn distinct_paths(devices: Seq<MockDeviceInfo>) -> bool {
    forall|i: int, j: int|
        0 <= i < j < devices.len() ==> (#[trigger] devices[i]).info.path@ != (
        #[trigger] devices[j]).info.path@
}

/// The device at a place is the one of its path.
proof fn lemma_place(devices: Seq<MockDeviceInfo>, i: int)
    requires
        distinct_paths(devices),
        0 <= i < devices.len(),
    ensures
        has_path(devices, devices[i].info.path@),
        place(devices, devices[i].info.path@) == i,
        device_map(devices)[devices[i].info.path@] == devices[i].entry(),
{
    let p = place(devices, devices[i].info.path@);
    assert(devices[p].info.path@ == devices[i].info.path@);
}

impl View for MockBackend {
    type V = Map<Seq<char>, MockEntry>;

    closed spec fn view(&self) -> Map<Seq<char>, MockEntry> {
        device_map(self.devices@)
    }
}

/// Whether a list holds each device of a backend once and nothing else. Its order is open.
pub open spec fn lists_devices(list: Seq<DeviceInfoView>, devices: Map<Seq<char>, MockEntry>) -> bool {
    &&& forall|i: int|
        0 <= i < list.len() ==> devices.dom().contains((#[trigger] list[i]).path)
            && devices[list[i].path].info == list[i]
    &&& forall|path: Seq<char>| #[trigger]
        devices.dom().contains(path) ==> exists|i: int|
            0 <= i < list.len() && (#[trigger] list[i]).path == path
    &&& forall|i: int, j: int|
        0 <= i < j < list.len() ==> (#[trigger] list[i]).path != (#[trigger] list[j]).path
}

impl MockBackend {
    #[verifier::type_invariant]
    spec fn wf(self) -> bool {
        distinct_paths(self.devices@)
    }

    /// Create a new mock backend with no devices.
    pub fn new() -> (b: MockBackend)
        ensures
            b@ == Map::<Seq<char>, MockEntry>::empty(),
    {
        let b = MockBackend { devices: Vec::new() };
        assert(b@ =~= Map::<Seq<char>, MockEntry>::empty());
        b
    }

    /// The place of the device with a path.
    fn find(&self, path: &str) -> (r: Option<usize>)
        ensures
            match r {
                Some(i) => i < self.devices@.len() && self.devices@[i as int].info.path@ == path@,
                None => !has_path(self.devices@, path@),
            },
    {
        let wanted: String = path.to_owned();
        let mut i: usize = 0;
        while i < self.devices.len()
            invariant
                wanted@ == path@,
                i <= self.devices@.len(),
                forall|j: int|
                    0 <= j < i ==> (#[trigger] self.devices@[j]).info.path@ != path@,
            decreases self.devices@.len() - i,
        {
            if self.devices[i].info.path == wanted {
                return Some(i);
            }
            i += 1;
        }
        None
    }

    /// Add a simulated device to the backend. It takes the place of one with the same path.
    pub fn add_device(
        &mut self,
        info: DeviceInfo,
        descriptor: DeviceDescriptor,
        configs: Vec<ConfigDescriptor>,
        strings: StringTable,
    )
        ensures
            final(self)@ == old(self)@.insert(
                info.path@,
                MockEntry {
                    info: info@,
                    descriptor,
                    configs: config_views(configs@),
                    strings: strings@,
                },
            ),
    {
        proof {
            use_type_invariant(&*self);
        }
        let found: Option<usize> = self.find(info.path.as_str());
        let device = MockDeviceInfo { info, descriptor, configs, strings };
        let mut devices: Vec<MockDeviceInfo> = Vec::new();
        std::mem::swap(&mut devices, &mut self.devices);
        let ghost before = devices@;
        let ghost path = device.info.path@;
        match found {
            Some(i) => {
                devices.set(i, device);
                assert(devices@ == before.update(i as int, device));
            },
            None => {
                devices.push(device);
            },
        }
        proof {
            let n = match found {
                Some(i) => i as int,
                None => before.len() as int,
            };
            assert forall|i: int, j: int| 0 <= i < j < devices@.len() implies (
            #[trigger] devices@[i]).info.path@ != (#[trigger] devices@[j]).info.path@ by {
                if i == n {
                    assert(devices@[j] == before[j]);
                } else if j == n {
                    assert(devices@[i] == before[i]);
                } else {
                    assert(devices@[i] == before[i] && devices@[j] == before[j]);
                }
            }
            assert forall|p: Seq<char>| has_path(devices@, p) <==> has_path(before, p) || p
                == path by {
                if has_path(before, p) && p != path {
                    let k = place(before, p);
                    assert(devices@[k] == before[k]);
                }
                if p == path {
                    assert(devices@[n].info.path@ == p);
                }
                if has_path(devices@, p) && p != path {
                    let k = place(devices@, p);
                    assert(devices@[k] == before[k]);
                }
            }
            lemma_place(devices@, n);
            assert forall|p: Seq<char>| has_path(before, p) && p != path implies device_map(
                devices@,
            )[p] == device_map(before)[p] by {
                let k = place(before, p);
                assert(devices@[k] == before[k]);
                lemma_place(before, k);
                lemma_place(devices@, k);
            }
            assert(device_map(devices@) =~= device_map(before).insert(path, device.entry()));
        }
        self.devices = devices;
    }
}

impl Default for MockBackend {
    fn default() -> (b: MockBackend)
        ensures
            b@ == Map::<Seq<char>, MockEntry>::empty(),
    {
        MockBackend::new()
    }
}

impl UsbBackend for MockBackend {
    type Device = MockDevice;

    fn enumerate(&self) -> (r: Result<Vec<DeviceInfo>, UsbError>)
        ensures
            r is Ok,
            lists_devices(info_views(r->Ok_0@), self@),
    {
        proof {
            use_type_invariant(self);
        }
        let mut list: Vec<DeviceInfo> = Vec::new();
        for i in 0..self.devices.len()
            invariant
                list@.len() == i,
                forall|j: int| 0 <= j < i ==> (#[trigger] list@[j])@ == self.devices@[j].info@,
        {
            list.push(self.devices[i].info.clone());
        }
        proof {
            let views = info_views(list@);
            assert forall|i: int| 0 <= i < views.len() implies self@.dom().contains(
                (#[trigger] views[i]).path,
            ) && self@[views[i].path].info == views[i] by {
                assert(list@[i]@ == self.devices@[i].info@);
                lemma_place(self.devices@, i);
            }
            assert forall|path: Seq<char>| #[trigger] self@.dom().contains(path) implies exists|
                i: int,
            |
                0 <= i < views.len() && (#[trigger] views[i]).path == path by {
                let k = place(self.devices@, path);
                assert(list@[k]@ == self.devices@[k].info@);
                assert(views[k].path == path);
            }
            assert forall|i: int, j: int| 0 <= i < j < views.len() implies (
            #[trigger] views[i]).path != (#[trigger] views[j]).path by {
                assert(list@[i]@ == self.devices@[i].info@);
                assert(list@[j]@ == self.devices@[j].info@);
            }
        }
        Ok(list)
    }

    fn open(&self, path: &str) -> (r: Result<MockDevice, UsbError>)
        ensures
            outcome_view(r) == if self@.dom().contains(path@) {
                Ok(
                    MockDeviceView {
                        descriptor: self@[path@].descriptor,
                        configs: self@[path@].configs,
                        strings: self@[path@].strings,
                        claimed: Set::empty(),
                    },
                )
            } else {
                Err(ErrorView::DeviceNotFound)
            },
    {
        proof {
            use_type_invariant(self);
        }
        match self.find(path) {
            Some(i) => {
                let device: &MockDeviceInfo = &self.devices[i];
                proof {
                    lemma_place(self.devices@, i as int);
                }
                let configs: Vec<ConfigDescriptor> = device.configs.clone();
                assert(config_views(configs@) =~= config_views(device.configs@));
                Ok(
                    MockDevice {
                        descriptor: device.descriptor,
                        configs,
                        strings: device.strings.clone(),
                        claimed_interfaces: HashSet::new(),
                    },
                )
            },
            None => Err(UsbError::DeviceNotFound),
        }
    }
}

// ---------------------------------------------------------------------------
// Device
// ---------------------------------------------------------------------------

/// An open made-up device.
pub struct MockDevice {
    descriptor: DeviceDescriptor,
    configs: Vec<ConfigDescriptor>,
    strings: StringTable,
    claimed_interfaces: HashSet<u8>,
}

/// A [`MockDevice`] with its collections as mathematical ones.
#[verifier::ext_equal]
pub struct MockDeviceView {
    pub descriptor: DeviceDescriptor,
    pub configs: Seq<ConfigView>,
    pub strings: Map<(u8, u16), Seq<char>>,
    pub claimed: Set<u8>,
}

impl View for MockDevice {
    type V = MockDeviceView;

    closed spec fn view(&self) -> MockDeviceView {
        MockDeviceView {
            descriptor: self.descriptor,
            configs: config_views(self.configs@),
            strings: self.strings@,
            claimed: self.claimed_interfaces@,
        }
    }
}

impl UsbDevice for MockDevice {
    fn read_device_descriptor(&self) -> (r: Result<DeviceDescriptor, UsbError>)
        ensures
            r == Ok::<DeviceDescriptor, UsbError>(self@.descriptor),
    {
        Ok(self.descriptor)
    }

    fn read_config_descriptor(&self, index: u8) -> (r: Result<ConfigDescriptor, UsbError>)
        ensures
            outcome_view(r) == if index < self@.configs.len() {
                Ok(self@.configs[index as int])
            } else {
                Err(ErrorView::InvalidDescriptor)
            },
    {
        if (index as usize) < self.configs.len() {
            Ok(self.configs[index as usize].clone())
        } else {
            Err(UsbError::InvalidDescriptor)
        }
    }

    fn read_string_descriptor(&self, index: u8, lang: u16) -> (r: Result<String, UsbError>)
        ensures
            outcome_view(r) == if self@.strings.dom().contains((index, lang)) {
                Ok(self@.strings[(index, lang)])
            } else {
                Err(ErrorView::InvalidDescriptor)
            },
    {
        match self.strings.get(index, lang) {
            Some(s) => Ok(s.clone()),
            None => Err(UsbError::InvalidDescriptor),
        }
    }

    /// Claims an interface, which may be claimed already.
    fn claim_interface(&mut self, interface: u8) -> (r: Result<(), UsbError>)
        ensures
            r is Ok,
            final(self)@ == (MockDeviceView {
                claimed: old(self)@.claimed.insert(interface),
                ..old(self)@
            }),
    {
        self.claimed_interfaces.insert(interface);
        Ok(())
    }

    /// Releases an interface, which must be claimed.
    fn release_interface(&mut self, interface: u8) -> (r: Result<(), UsbError>)
        ensures
            outcome(r) == if old(self)@.claimed.contains(interface) {
                Ok(())
            } else {
                Err(ErrorView::Other("Interface not claimed"@))
            },
            final(self)@ == (MockDeviceView {
                claimed: old(self)@.claimed.remove(interface),
                ..old(self)@
            }),
    {
        if self.claimed_interfaces.remove(&interface) {
            Ok(())
        } else {
            assert(self.claimed_interfaces@ =~= old(self)@.claimed.remove(interface));
            Err(UsbError::other("Interface not claimed"))
        }
    }

    /// Any control transfer succeeds and moves nothing.
    fn control_transfer(
        &self,
        setup: ControlSetup,
        data: Option<&mut [u8]>,
        timeout: Duration,
    ) -> (r: Result<usize, UsbError>)
        ensures
            r == Ok::<usize, UsbError>(0),
            data matches Some(b) ==> final(b)@ == (*b)@,
    {
        Ok(0)
    }

    /// There is nothing to read.
    fn bulk_read(&self, endpoint: u8, buf: &mut [u8], timeout: Duration) -> (r: Result<
        usize,
        UsbError,
    >)
        ensures
            r == Ok::<usize, UsbError>(0),
            final(buf)@ == old(buf)@,
    {
        Ok(0)
    }

    /// All that is written is taken.
    fn bulk_write(&self, endpoint: u8, buf: &[u8], timeout: Duration) -> (r: Result<
        usize,
        UsbError,
    >)
        ensures
            r == Ok::<usize, UsbError>(buf.len()),
    {
        Ok(buf.len())
    }

    /// There is nothing to read.
    fn interrupt_read(&self, endpoint: u8, buf: &mut [u8], timeout: Duration) -> (r: Result<
        usize,
        UsbError,
    >)
        ensures
            r == Ok::<usize, UsbError>(0),
            final(buf)@ == old(buf)@,
    {
        Ok(0)
    }

    /// All that is written is taken.
    fn interrupt_write(&self, endpoint: u8, buf: &[u8], timeout: Duration) -> (r: Result<
        usize,
        UsbError,
    >)
        ensures
            r == Ok::<usize, UsbError>(buf.len()),
    {
        Ok(buf.len())
    }
}

// ---------------------------------------------------------------------------
// Laws
// ---------------------------------------------------------------------------

/// A backend lists as many devices as it has paths.
pub proof fn law_one_device_for_each_path(
    list: Seq<DeviceInfoView>,
    devices: Map<Seq<char>, MockEntry>,
)
    requires
        lists_devices(list, devices),
    ensures
        devices.dom().finite(),
        list.len() == devices.dom().len(),
{
    let paths = list.map_values(|i: DeviceInfoView| i.path);
    assert(paths.no_duplicates()) by {
        assert forall|i: int, j: int| 0 <= i < paths.len() && 0 <= j < paths.len() && i
            != j implies paths[i] != paths[j] by {
            if i < j {
                assert(list[i].path != list[j].path);
            } else {
                assert(list[j].path != list[i].path);
            }
        }
    }
    assert(paths.to_set() =~= devices.dom()) by {
        assert forall|p: Seq<char>| devices.dom().contains(p) implies paths.contains(p) by {
            let i = choose|i: int| 0 <= i < list.len() && (#[trigger] list[i]).path == p;
            assert(paths[i] == p);
        }
        assert forall|p: Seq<char>| paths.contains(p) implies devices.dom().contains(p) by {
            let i = choose|i: int| 0 <= i < paths.len() && paths[i] == p;
            assert(list[i].path == p);
        }
    }
    paths.unique_seq_to_set();
    vstd::seq_lib::seq_to_set_is_finite(paths);
}

/// A device that was added is listed, and so are the devices with other paths as before. Adding
/// it once more changes nothing.
pub proof fn law_added_device_is_listed(
    devices: Map<Seq<char>, MockEntry>,
    device: MockEntry,
    before: Seq<DeviceInfoView>,
    after: Seq<DeviceInfoView>,
)
    requires
        lists_devices(before, devices),
        lists_devices(after, devices.insert(device.info.path, device)),
    ensures
        after.contains(device.info),
        forall|i: int|
            0 <= i < before.len() && (#[trigger] before[i]).path != device.info.path
                ==> after.contains(before[i]),
        devices.insert(device.info.path, device).insert(device.info.path, device)
            == devices.insert(device.info.path, device),
{
    let more = devices.insert(device.info.path, device);
    assert(more.dom().contains(device.info.path));
    let k = choose|k: int| 0 <= k < after.len() && (#[trigger] after[k]).path == device.info.path;
    assert(after[k] == device.info);
    assert forall|i: int|
        0 <= i < before.len() && (#[trigger] before[i]).path
            != device.info.path implies after.contains(before[i]) by {
        assert(more.dom().contains(before[i].path));
        let j = choose|j: int| 0 <= j < after.len() && (#[trigger] after[j]).path == before[i].path;
        assert(after[j] == before[i]);
    }
    assert(more.insert(device.info.path, device) =~= more);
}

/// Claims are idempotent, and a release undoes them.
pub proof fn law_release_undoes_claims(claimed: Set<u8>, interface: u8)
    ensures
        claimed.insert(interface).insert(interface) == claimed.insert(interface),
        claimed.insert(interface).insert(interface).remove(interface) == claimed.remove(interface),
        !claimed.contains(interface) ==> claimed.insert(interface).remove(interface) == claimed,
{
    assert(claimed.insert(interface).insert(interface) =~= claimed.insert(interface));
    assert(claimed.insert(interface).remove(interface) =~= claimed.remove(interface));
    if !claimed.contains(interface) {
        assert(claimed.remove(interface) =~= claimed);
    }
}

/// The device of every path is listed, with all that its entry tells, and every listed device is
/// one of a path.
pub proof fn law_every_device_is_listed(
    list: Seq<DeviceInfoView>,
    devices: Map<Seq<char>, MockEntry>,
    path: Seq<char>,
)
    requires
        lists_devices(list, devices),
    ensures
        devices.dom().contains(path) ==> list.contains(devices[path].info),
        forall|i: int|
            0 <= i < list.len() ==> devices.dom().contains((#[trigger] list[i]).path)
                && devices[list[i].path].info == list[i],
{
    if devices.dom().contains(path) {
        let i = choose|i: int| 0 <= i < list.len() && (#[trigger] list[i]).path == path;
        assert(devices[list[i].path].info == list[i]);
    }
}

/// The views of configurations are one for each, in the same order.
pub proof fn law_config_views_keep_the_list(configs: Seq<ConfigDescriptor>)
    ensures
        config_views(configs).len() == configs.len(),
        forall|k: int| 0 <= k < configs.len() ==> #[trigger] config_views(configs)[k] == configs[k]@,
{
}

} // verus!
