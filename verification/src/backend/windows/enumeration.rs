//! Listing the devices of the WinUSB class.
//!
//! The setup API numbers the interfaces of the class. For each of them it tells the size of its
//! detail data, the detail data, and the registry properties of its device. [`Enumeration`]
//! asks for these one by one, and makes the list of devices of the answers.

use vstd::prelude::*;

use crate::backend::windows::properties::{
    bytes_view, location_of_property, path_in_detail, read_device_path, read_location_info,
    read_vid_pid, vid_pid_of_property,
};
use crate::protocol::device_info::{info_views, text_view, DeviceInfo, DeviceInfoView};

verus! {

/// The texts of a device: its manufacturer, its product name and its serial number.
#[derive(Debug)]
pub struct DeviceTexts {
    pub manufacturer: Option<String>,
    pub product: Option<String>,
    pub serial_number: Option<String>,
}

/// [`DeviceTexts`] as character sequences.
pub struct TextsView {
    pub manufacturer: Option<Seq<char>>,
    pub product: Option<Seq<char>>,
    pub serial_number: Option<Seq<char>>,
}

impl View for DeviceTexts {
    type V = TextsView;

    open spec fn view(&self) -> TextsView {
        TextsView {
            manufacturer: text_view(self.manufacturer),
            product: text_view(self.product),
            serial_number: text_view(self.serial_number),
        }
    }
}

/// What an enumeration asks for next.
#[derive(Debug, Clone, Copy, PartialEq, Eq, Structural)]
pub enum Question {
    /// Is there an interface with this number?
    Interface(u32),
    /// How large is the detail data of the interface?
    DetailSize,
    /// What is the detail data, in a buffer of this size?
    Detail(u32),
    /// What are the hardware IDs of its device?
    HardwareIds,
    /// What is the location of its device?
    Location,
    /// What are the texts of the device, read by opening it?
    Texts,
    /// Nothing: the list is complete.
    Finished,
}

/// An answer of the system. What could not be read is missing.
#[derive(Debug)]
pub enum Answer {
    Interface(bool),
    DetailSize(u32),
    Detail(Option<Vec<u8>>),
    HardwareIds(Option<Vec<u8>>),
    Location(Option<Vec<u8>>),
    Texts(DeviceTexts),
}

/// An [`Answer`] with its bytes and texts as sequences.
pub enum AnswerView {
    Interface(bool),
    DetailSize(u32),
    Detail(Option<Seq<u8>>),
    HardwareIds(Option<Seq<u8>>),
    Location(Option<Seq<u8>>),
    Texts(TextsView),
}

impl View for Answer {
    type V = AnswerView;

    open spec fn view(&self) -> AnswerView {
        match *self {
            Answer::Interface(found) => AnswerView::Interface(found),
            Answer::DetailSize(n) => AnswerView::DetailSize(n),
            Answer::Detail(b) => AnswerView::Detail(bytes_view(b)),
            Answer::HardwareIds(b) => AnswerView::HardwareIds(bytes_view(b)),
            Answer::Location(b) => AnswerView::Location(bytes_view(b)),
            Answer::Texts(t) => AnswerView::Texts(t@),
        }
    }
}

/// An enumeration in progress.
#[derive(Debug)]
pub struct Enumeration {
    /// The number of the next interface.
    pub index: u32,
    pub question: Question,
    /// The device that is being asked about, as far as it is known.
    pub path: String,
    pub ids: (u16, u16),
    pub place: (u8, u8),
    /// The devices so far.
    pub devices: Vec<DeviceInfo>,
}

/// An [`Enumeration`] with its texts and devices as sequences.
#[verifier::ext_equal]
pub struct EnumerationView {
    pub index: u32,
    pub question: Question,
    pub path: Seq<char>,
    pub ids: (u16, u16),
    pub place: (u8, u8),
    pub devices: Seq<DeviceInfoView>,
}

impl View for Enumeration {
    type V = EnumerationView;

    open spec fn view(&self) -> EnumerationView {
        EnumerationView {
            index: self.index,
            question: self.question,
            path: self.path@,
            ids: self.ids,
            place: self.place,
            devices: info_views(self.devices@),
        }
    }
}

impl EnumerationView {
    /// An enumeration that has asked for nothing yet.
    pub open spec fn start() -> EnumerationView {
        EnumerationView {
            index: 0,
            question: Question::Interface(0),
            path: Seq::empty(),
            ids: (0, 0),
            place: (0, 0),
            devices: Seq::empty(),
        }
    }

    /// The enumeration with another question.
    pub open spec fn asking(self, question: Question) -> EnumerationView {
        EnumerationView { question, ..self }
    }

    /// The enumeration on its way to the next interface.
    pub open spec fn next(self) -> EnumerationView {
        self.asking(Question::Interface(self.index))
    }

    /// The enumeration after an answer. An interface whose detail data is empty, cannot be read
    /// or holds no path is passed over. An answer to another question changes nothing.
    pub open spec fn answered(self, answer: AnswerView) -> EnumerationView {
        match (self.question, answer) {
            (Question::Interface(_), AnswerView::Interface(found)) => if found {
                EnumerationView { index: (self.index + 1) as u32, ..self }.asking(
                    Question::DetailSize,
                )
            } else {
                self.asking(Question::Finished)
            },
            (Question::DetailSize, AnswerView::DetailSize(n)) => if n == 0 {
                self.next()
            } else {
                self.asking(Question::Detail(n))
            },
            (Question::Detail(_), AnswerView::Detail(detail)) => match detail {
                Some(bytes) => match path_in_detail(bytes) {
                    Some(path) => EnumerationView { path, ..self }.asking(Question::HardwareIds),
                    None => self.next(),
                },
                None => self.next(),
            },
            (Question::HardwareIds, AnswerView::HardwareIds(property)) => EnumerationView {
                ids: vid_pid_of_property(property),
                ..self
            }.asking(Question::Location),
            (Question::Location, AnswerView::Location(property)) => EnumerationView {
                place: match location_of_property(property) {
                    Some(place) => place,
                    None => (0, 0),
                },
                ..self
            }.asking(Question::Texts),
            (Question::Texts, AnswerView::Texts(texts)) => EnumerationView {
                devices: self.devices.push(
                    DeviceInfoView {
                        vendor_id: self.ids.0,
                        product_id: self.ids.1,
                        bus_number: self.place.0,
                        device_address: self.place.1,
                        path: self.path,
                        manufacturer: texts.manufacturer,
                        product: texts.product,
                        serial_number: texts.serial_number,
                    },
                ),
                ..self
            }.next(),
            _ => self,
        }
    }
}

impl Enumeration {
    /// Begins an enumeration.
    pub fn start() -> (e: Enumeration)
        ensures
            e@ == EnumerationView::start(),
    {
        let e = Enumeration {
            index: 0,
            question: Question::Interface(0),
            path: String::new(),
            ids: (0, 0),
            place: (0, 0),
            devices: Vec::new(),
        };
        assert(e@ =~= EnumerationView::start());
        e
    }

    /// What the enumeration asks for next.
    pub fn question(&self) -> (q: Question)
        ensures
            q == self@.question,
    {
        self.question
    }

    /// Goes on with an answer of the system. The setup API numbers fewer interfaces than a
    /// `u32` can count.
    pub fn answer(self, answer: Answer) -> (e: Enumeration)
        requires
            self.index < u32::MAX,
        ensures
            e@ == self@.answered(answer@),
    {
        let mut e: Enumeration = self;
        let ghost before = e@;
        match (e.question, answer) {
            (Question::Interface(_), Answer::Interface(found)) => {
                if found {
                    e.index = e.index + 1;
                    e.question = Question::DetailSize;
                } else {
                    e.question = Question::Finished;
                }
            },
            (Question::DetailSize, Answer::DetailSize(n)) => {
                if n == 0 {
                    e.question = Question::Interface(e.index);
                } else {
                    e.question = Question::Detail(n);
                }
            },
            (Question::Detail(_), Answer::Detail(detail)) => {
                let path: Option<String> = match &detail {
                    Some(bytes) => read_device_path(bytes.as_slice()),
                    None => None,
                };
                match path {
                    Some(path) => {
                        e.path = path;
                        e.question = Question::HardwareIds;
                    },
                    None => {
                        e.question = Question::Interface(e.index);
                    },
                }
            },
            (Question::HardwareIds, Answer::HardwareIds(property)) => {
                e.ids = read_vid_pid(&property);
                e.question = Question::Location;
            },
            (Question::Location, Answer::Location(property)) => {
                e.place = match read_location_info(&property) {
                    Some(place) => place,
                    None => (0, 0),
                };
                e.question = Question::Texts;
            },
            (Question::Texts, Answer::Texts(texts)) => {
                let ghost devices = e.devices@;
                let info = DeviceInfo {
                    vendor_id: e.ids.0,
                    product_id: e.ids.1,
                    bus_number: e.place.0,
                    device_address: e.place.1,
                    path: e.path.clone(),
                    manufacturer: texts.manufacturer,
                    product: texts.product,
                    serial_number: texts.serial_number,
                };
                e.devices.push(info);
                assert(info_views(e.devices@) =~= info_views(devices).push(info@));
                e.question = Question::Interface(e.index);
            },
            _ => {},
        }
        e
    }

    /// The list of devices.
    pub fn into_devices(self) -> (devices: Vec<DeviceInfo>)
        ensures
            info_views(devices@) == self@.devices,
    {
        self.devices
    }
}

// ---------------------------------------------------------------------------
// Whole enumerations
// ---------------------------------------------------------------------------

/// All that the system can tell about an interface.
pub struct Interface {
    pub detail_size: u32,
    pub detail: Option<Seq<u8>>,
    pub hardware_ids: Option<Seq<u8>>,
    pub location: Option<Seq<u8>>,
    pub texts: TextsView,
}

/// The device of an interface, if it can be listed.
pub open spec fn interface_device(i: Interface) -> Option<DeviceInfoView> {
    match i.detail {
        Some(detail) => match path_in_detail(detail) {
            Some(path) if i.detail_size != 0 => {
                let ids = vid_pid_of_property(i.hardware_ids);
                let place = match location_of_property(i.location) {
                    Some(place) => place,
                    None => (0, 0),
                };
                Some(
                    DeviceInfoView {
                        vendor_id: ids.0,
                        product_id: ids.1,
                        bus_number: place.0,
                        device_address: place.1,
                        path,
                        manufacturer: i.texts.manufacturer,
                        product: i.texts.product,
                        serial_number: i.texts.serial_number,
                    },
                )
            },
            _ => None,
        },
        None => None,
    }
}

/// The devices of a sequence of interfaces, in their order.
pub open spec fn interface_devices(s: Seq<Interface>) -> Seq<DeviceInfoView>
    decreases s.len(),
{
    if s.len() == 0 {
        Seq::empty()
    } else {
        match interface_device(s[0]) {
            Some(info) => seq![info] + interface_devices(s.skip(1)),
            None => interface_devices(s.skip(1)),
        }
    }
}

/// The answer of a system with the given interfaces. The number of the interface that is being
/// asked about is one less than that of the next.
pub open spec fn system_answer(s: Seq<Interface>, e: EnumerationView) -> AnswerView {
    match e.question {
        Question::Interface(n) => AnswerView::Interface(n < s.len()),
        Question::DetailSize => AnswerView::DetailSize(s[e.index - 1].detail_size),
        Question::Detail(_) => AnswerView::Detail(s[e.index - 1].detail),
        Question::HardwareIds => AnswerView::HardwareIds(s[e.index - 1].hardware_ids),
        Question::Location => AnswerView::Location(s[e.index - 1].location),
        Question::Texts => AnswerView::Texts(s[e.index - 1].texts),
        Question::Finished => AnswerView::Interface(false),
    }
}

/// An enumeration after `steps` answers of such a system.
pub open spec fn enumerated(s: Seq<Interface>, e: EnumerationView, steps: nat) -> EnumerationView
    decreases steps,
{
    if steps == 0 {
        e
    } else {
        enumerated(s, e.answered(system_answer(s, e)), (steps - 1) as nat)
    }
}

/// A finished enumeration stays as it is.
proof fn lemma_finished(s: Seq<Interface>, e: EnumerationView, steps: nat)
    requires
        e.question == Question::Finished,
    ensures
        enumerated(s, e, steps) == e,
    decreases steps,
{
    if steps > 0 {
        lemma_finished(s, e, (steps - 1) as nat);
    }
}

/// Answers compose.
proof fn lemma_enumerated_in_parts(s: Seq<Interface>, e: EnumerationView, m: nat, n: nat)
    ensures
        enumerated(s, e, m + n) == enumerated(s, enumerated(s, e, m), n),
    decreases m,
{
    if m > 0 {
        let next = e.answered(system_answer(s, e));
        lemma_enumerated_in_parts(s, next, (m - 1) as nat, n);
        assert((m + n - 1) as nat == (m - 1) as nat + n);
    }
}

/// The number of questions that an interface takes.
spec fn questions_of(i: Interface) -> nat {
    if i.detail_size == 0 {
        2
    } else if i.detail is None || path_in_detail(i.detail->0) is None {
        3
    } else {
        6
    }
}

/// After the questions about one interface its device has been listed.
proof fn lemma_one_interface(s: Seq<Interface>, e: EnumerationView)
    requires
        e.question == Question::Interface(e.index),
        e.index < s.len() <= u32::MAX,
    ensures
        ({
            let i = s[e.index as int];
            let r = enumerated(s, e, questions_of(i));
            &&& r.index == e.index + 1
            &&& r.question == Question::Interface(r.index)
            &&& r.devices == match interface_device(i) {
                Some(info) => e.devices.push(info),
                None => e.devices,
            }
        }),
{
    reveal_with_fuel(enumerated, 7);
}

/// From any interface on, the devices of the remaining ones are added to the list.
proof fn lemma_remaining_interfaces(s: Seq<Interface>, e: EnumerationView) -> (steps: nat)
    requires
        e.question == Question::Interface(e.index),
        e.index <= s.len() <= u32::MAX,
    ensures
        enumerated(s, e, steps).question == Question::Finished,
        enumerated(s, e, steps).devices == e.devices + interface_devices(s.skip(e.index as int)),
    decreases s.len() - e.index,
{
    let rest = s.skip(e.index as int);
    if e.index == s.len() {
        reveal_with_fuel(enumerated, 2);
        assert(e.devices + interface_devices(rest) =~= e.devices);
        1
    } else {
        let m = questions_of(s[e.index as int]);
        let next = enumerated(s, e, m);
        lemma_one_interface(s, e);
        let n = lemma_remaining_interfaces(s, next);
        lemma_enumerated_in_parts(s, e, m, n);
        assert(rest.skip(1) =~= s.skip(e.index + 1));
        assert(rest[0] == s[e.index as int]);
        assert(next.devices + interface_devices(rest.skip(1)) =~= e.devices + interface_devices(
            rest,
        ));
        m + n
    }
}

/// An enumeration that gets its answers from a system ends, and lists the devices of the
/// interfaces that can be listed, each once and in the order of their numbers.
pub proof fn law_enumeration_lists_the_devices(s: Seq<Interface>)
    requires
        s.len() < u32::MAX,
    ensures
        exists|steps: nat|
            {
                let e = #[trigger] enumerated(s, EnumerationView::start(), steps);
                e.question == Question::Finished && e.devices == interface_devices(s)
            },
        forall|steps: nat|
            (#[trigger] enumerated(s, EnumerationView::start(), steps)).question
                == Question::Finished ==> enumerated(s, EnumerationView::start(), steps).devices
                == interface_devices(s),
{
    let start = EnumerationView::start();
    let n = lemma_remaining_interfaces(s, start);
    let end = enumerated(s, start, n);
    assert(s.skip(0) =~= s);
    assert(start.devices + interface_devices(s) =~= interface_devices(s));
    assert(end.devices == interface_devices(s));
    assert forall|steps: nat|
        (#[trigger] enumerated(s, start, steps)).question == Question::Finished implies enumerated(
        s,
        start,
        steps,
    ).devices == interface_devices(s) by {
        if steps <= n {
            lemma_enumerated_in_parts(s, start, steps, (n - steps) as nat);
            lemma_finished(s, enumerated(s, start, steps), (n - steps) as nat);
        } else {
            lemma_enumerated_in_parts(s, start, n, (steps - n) as nat);
            lemma_finished(s, end, (steps - n) as nat);
        }
    }
}

/// An interface is listed exactly where its detail data has a size, can be read and holds a
/// path, whatever else cannot be read. Its entry has that path, its own texts, and the numbers
/// and the place of its own properties.
pub proof fn law_entry_has_what_its_interface_tells(i: Interface)
    ensures
        interface_device(i) is Some <==> i.detail_size != 0 && i.detail is Some && path_in_detail(
            i.detail->0,
        ) is Some,
        interface_device(i) matches Some(info) ==> {
            &&& Some(info.path) == path_in_detail(i.detail->0)
            &&& info.manufacturer == i.texts.manufacturer
            &&& info.product == i.texts.product
            &&& info.serial_number == i.texts.serial_number
            &&& (info.vendor_id, info.product_id) == vid_pid_of_property(i.hardware_ids)
            &&& location_of_property(i.location) is Some ==> Some(
                (info.bus_number, info.device_address),
            ) == location_of_property(i.location)
            &&& location_of_property(i.location) is None ==> info.bus_number == 0
                && info.device_address == 0
        },
{
}

/// One more interface adds its device at the end.
proof fn lemma_one_more_interface(s: Seq<Interface>, i: Interface)
    ensures
        interface_devices(s.push(i)) == match interface_device(i) {
            Some(info) => interface_devices(s).push(info),
            None => interface_devices(s),
        },
    decreases s.len(),
{
    let all = s.push(i);
    if s.len() == 0 {
        assert(all.skip(1) =~= Seq::<Interface>::empty());
        assert(interface_devices(all.skip(1)) =~= Seq::empty());
        assert(all[0] == i);
        if let Some(info) = interface_device(i) {
            assert(seq![info] + interface_devices(all.skip(1)) =~= interface_devices(s).push(info));
        }
    } else {
        assert(all.skip(1) =~= s.skip(1).push(i));
        assert(all[0] == s[0]);
        lemma_one_more_interface(s.skip(1), i);
        if let Some(info) = interface_device(i) {
            if let Some(first) = interface_device(s[0]) {
                assert(seq![first] + interface_devices(s.skip(1)).push(info) =~= (seq![first]
                    + interface_devices(s.skip(1))).push(info));
            }
        }
    }
}

/// A list has one entry for each interface that has a path, in the order of the interfaces, and
/// no other. Each has the path and the texts of its own interface.
pub proof fn law_list_has_every_interface_with_a_path(s: Seq<Interface>)
    ensures
        ({
            let listed = s.filter(
                |i: Interface|
                    i.detail_size != 0 && i.detail is Some && path_in_detail(i.detail->0) is Some,
            );
            let list = interface_devices(s);
            &&& list.len() == listed.len()
            &&& forall|k: int|
                0 <= k < list.len() ==> {
                    &&& Some((#[trigger] list[k]).path) == path_in_detail(listed[k].detail->0)
                    &&& list[k].manufacturer == listed[k].texts.manufacturer
                    &&& list[k].product == listed[k].texts.product
                    &&& list[k].serial_number == listed[k].texts.serial_number
                    &&& Some(list[k]) == interface_device(listed[k])
                }
        }),
    decreases s.len(),
{
    reveal(Seq::filter);
    if s.len() > 0 {
        law_list_has_every_interface_with_a_path(s.drop_last());
        lemma_one_more_interface(s.drop_last(), s.last());
        assert(s.drop_last().push(s.last()) =~= s);
    }
}

/// Detail data is asked for in a buffer of the size that the system told, and each answer is
/// followed by the next question about the same interface.
pub proof fn law_questions_follow_one_another(e: EnumerationView, n: u32, property: Option<Seq<u8>>)
    ensures
        e.question == Question::DetailSize && n > 0 ==> e.answered(AnswerView::DetailSize(n)) == (
        EnumerationView { question: Question::Detail(n), ..e }),
        e.question == Question::DetailSize ==> e.answered(AnswerView::DetailSize(0)) == (
        EnumerationView { question: Question::Interface(e.index), ..e }),
        e.question is Interface ==> e.answered(AnswerView::Interface(false)) == (EnumerationView {
            question: Question::Finished,
            ..e
        }),
        e.question is Interface && e.index < u32::MAX ==> {
            let next = e.answered(AnswerView::Interface(true));
            &&& next.index == e.index + 1 && next.question == Question::DetailSize
            &&& next.devices == e.devices
        },
        e.question == Question::HardwareIds ==> {
            let next = e.answered(AnswerView::HardwareIds(property));
            &&& next.ids == vid_pid_of_property(property) && next.question == Question::Location
            &&& next.path == e.path && next.devices == e.devices && next.index == e.index
        },
        e.question == Question::Location ==> {
            let next = e.answered(AnswerView::Location(property));
            &&& next.question == Question::Texts && next.ids == e.ids
            &&& next.path == e.path && next.devices == e.devices && next.index == e.index
        },
{
}

/// An answer to another question than the one that was asked changes nothing.
pub proof fn law_other_answers_change_nothing(e: EnumerationView, answer: AnswerView)
    requires
        answer is Interface ==> e.question !is Interface,
        answer is DetailSize ==> e.question !is DetailSize,
        answer is Detail ==> e.question !is Detail,
        answer is HardwareIds ==> e.question !is HardwareIds,
        answer is Location ==> e.question !is Location,
        answer is Texts ==> e.question !is Texts,
    ensures
        e.answered(answer) == e,
{
}

/// The views of answers and texts keep all that they have.
pub proof fn law_answer_views_keep_every_field(t: DeviceTexts, b: Option<Vec<u8>>, n: u32, found: bool)
    ensures
        t@.manufacturer == text_view(t.manufacturer),
        t@.product == text_view(t.product),
        t@.serial_number == text_view(t.serial_number),
        bytes_view(b) is Some <==> b is Some,
        b matches Some(v) ==> bytes_view(b) == Some(v@),
        Answer::Interface(found)@ == AnswerView::Interface(found),
        Answer::DetailSize(n)@ == AnswerView::DetailSize(n),
        Answer::Detail(b)@ == AnswerView::Detail(bytes_view(b)),
        Answer::HardwareIds(b)@ == AnswerView::HardwareIds(bytes_view(b)),
        Answer::Location(b)@ == AnswerView::Location(bytes_view(b)),
        Answer::Texts(t)@ == AnswerView::Texts(t@),
{
}

/// The view of an enumeration has all that the enumeration has.
pub proof fn law_enumeration_view_keeps_every_field(e: Enumeration)
    ensures
        e@.index == e.index && e@.question == e.question,
        e@.path == e.path@ && e@.ids == e.ids && e@.place == e.place,
        e@.devices == info_views(e.devices@),
{
}

} // verus!
