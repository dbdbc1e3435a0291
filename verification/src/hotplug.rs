//! Hotplug detection — device arrival and removal notifications.
//!
//! A subscription is made with the Configuration Manager of Windows, whose notifications become
//! [`HotplugEvent`]s. On other platforms a subscription is refused as unsupported.

use vstd::prelude::*;
use vstd::string::StringExecFns;

use crate::error::{outcome_view, ErrorView, UsbError};
use vstd::arithmetic::power::pow;
use crate::numeral::{
    all_digits, digits_value, hex_fixed, law_hex_fixed_reads_back, write_hex_fixed,
};
use crate::text::string_of;
use crate::utf16::{
    decode_utf16_lossy, law_terminated_text_reads_back, law_words_until_zero, length_until_zero,
    until_zero, utf16_text, utf16_units,
};

verus! {

broadcast use vstd::string::group_string_axioms;

/// An event emitted by the hotplug subsystem.
#[derive(Debug)]
pub enum HotplugEvent {
    /// A new device matching the WinUSB device interface class has appeared.
    DeviceArrived {
        /// The device symbolic link / path, which opens the device.
        path: String,
    },
    /// A device is being removed (or has been removed).
    DeviceLeft {
        /// The device symbolic link that was reported at arrival time.
        path: String,
    },
}

/// A [`HotplugEvent`] with its path as a character sequence.
pub enum EventView {
    DeviceArrived { path: Seq<char> },
    DeviceLeft { path: Seq<char> },
}

impl View for HotplugEvent {
    type V = EventView;

    open spec fn view(&self) -> EventView {
        match *self {
            HotplugEvent::DeviceArrived { path } => EventView::DeviceArrived { path: path@ },
            HotplugEvent::DeviceLeft { path } => EventView::DeviceLeft { path: path@ },
        }
    }
}

impl Clone for HotplugEvent {
    fn clone(&self) -> (r: HotplugEvent)
        ensures
            r@ == self@,
    {
        match self {
            HotplugEvent::DeviceArrived { path } => HotplugEvent::DeviceArrived {
                path: path.clone(),
            },
            HotplugEvent::DeviceLeft { path } => HotplugEvent::DeviceLeft { path: path.clone() },
        }
    }
}

/// The action of a notification about an interface that has appeared.
pub const INTERFACE_ARRIVAL: i32 = 0;

/// The action of a notification about an interface that has disappeared.
pub const INTERFACE_REMOVAL: i32 = 1;

/// The event of a notification, if it is one about an arrival or a removal. The symbolic link
/// is zero-terminated UTF-16.
pub open spec fn event_of(action: i32, symbolic_link: Seq<u16>) -> Option<EventView> {
    let path = utf16_text(until_zero(symbolic_link));
    if action == INTERFACE_ARRIVAL {
        Some(EventView::DeviceArrived { path })
    } else if action == INTERFACE_REMOVAL {
        Some(EventView::DeviceLeft { path })
    } else {
        None
    }
}

/// Makes an event of a notification of the Configuration Manager.
pub fn cm_event(action: i32, symbolic_link: &[u16]) -> (r: Option<HotplugEvent>)
    ensures
        match r {
            Some(e) => event_of(action, symbolic_link@) == Some(e@),
            None => event_of(action, symbolic_link@) is None,
        },
{
    let n: usize = length_until_zero(symbolic_link, 0);
    assert(symbolic_link@.skip(0) =~= symbolic_link@);
    let path: String = decode_utf16_lossy(vstd::slice::slice_subrange(symbolic_link, 0, n));
    if action == INTERFACE_ARRIVAL {
        Some(HotplugEvent::DeviceArrived { path })
    } else if action == INTERFACE_REMOVAL {
        Some(HotplugEvent::DeviceLeft { path })
    } else {
        None
    }
}

/// How the platform answered a subscription.
#[derive(Debug, Clone, Copy, PartialEq, Eq, Structural)]
pub enum Registration {
    /// There are no subscriptions on this platform yet.
    Unsupported,
    /// The Configuration Manager returned a code, and where that is 0 a token that ends the
    /// subscription.
    Answered { configret: u32, token: usize },
}

/// An active hotplug subscription.
pub struct HotplugHandle {
    token: usize,
}

impl View for HotplugHandle {
    type V = usize;

    /// The token that ends the subscription.
    closed spec fn view(&self) -> usize {
        self.token
    }
}

/// The complaint about a subscription that failed.
pub open spec fn registration_failed_text(configret: u32) -> Seq<char> {
    "CM_Register_Notification failed with CONFIGRET 0x"@ + hex_fixed(configret as int, 8)
}

impl HotplugHandle {
    /// The subscription that the platform has made.
    pub fn register(registration: Registration) -> (r: Result<HotplugHandle, UsbError>)
        ensures
            outcome_view(r) == match registration {
                Registration::Unsupported => Err(ErrorView::Unsupported),
                Registration::Answered { configret, token } => if configret != 0 {
                    Err(ErrorView::Other(registration_failed_text(configret)))
                } else {
                    Ok(token)
                },
            },
    {
        match registration {
            Registration::Unsupported => Err(UsbError::Unsupported),
            Registration::Answered { configret, token } => {
                if configret != 0 {
                    let number: String = string_of(write_hex_fixed(configret, 8).as_slice());
                    Err(
                        UsbError::Other(
                            "CM_Register_Notification failed with CONFIGRET 0x".to_owned().concat(
                                number.as_str(),
                            ),
                        ),
                    )
                } else {
                    Ok(HotplugHandle { token })
                }
            },
        }
    }

    /// Cancel the hotplug subscription immediately: gives the token that ends it.
    pub fn unregister(self) -> (token: usize)
        ensures
            token == self@,
    {
        self.token
    }
}

/// The event of an arrival or a removal has the whole path that the notification names, however
/// long it is and whatever stands behind its terminator. No other notification is an event.
pub proof fn law_event_has_the_whole_path(action: i32, path: Seq<char>, tail: Seq<u16>)
    requires
        forall|i: int| 0 <= i < path.len() ==> path[i] != '\0',
    ensures
        event_of(0, utf16_units(path).push(0) + tail) == Some(EventView::DeviceArrived { path }),
        event_of(1, utf16_units(path).push(0) + tail) == Some(EventView::DeviceLeft { path }),
        action != 0 && action != 1 ==> event_of(action, utf16_units(path).push(0) + tail) is None,
{
    law_terminated_text_reads_back(path, tail);
}

/// Every unit of the link up to its terminator counts, or up to its end where it has none, and
/// also where the link is not well-formed UTF-16.
pub proof fn law_event_has_every_unit_of_the_link(link: Seq<u16>, tail: Seq<u16>)
    requires
        forall|i: int| 0 <= i < link.len() ==> link[i] != 0,
    ensures
        event_of(0, link.push(0) + tail) == Some(
            EventView::DeviceArrived { path: utf16_text(link) },
        ),
        event_of(1, link.push(0) + tail) == Some(EventView::DeviceLeft { path: utf16_text(link) }),
        event_of(0, link) == Some(EventView::DeviceArrived { path: utf16_text(link) }),
        event_of(1, link) == Some(EventView::DeviceLeft { path: utf16_text(link) }),
{
    law_words_until_zero(link, tail);
}

/// An event is seen as what it is, with its path.
pub proof fn law_view_tells_the_event(e: HotplugEvent)
    ensures
        e matches HotplugEvent::DeviceArrived { path } ==> e@ == (EventView::DeviceArrived {
            path: path@,
        }),
        e matches HotplugEvent::DeviceLeft { path } ==> e@ == (EventView::DeviceLeft {
            path: path@,
        }),
{
}

/// The complaint about a failed subscription ends with the code in eight hexadecimal digits.
pub proof fn law_registration_text_tells_the_code(configret: u32)
    ensures
        ({
            let text = registration_failed_text(configret);
            let n = text.len() - 8;
            &&& text.take(n) == "CM_Register_Notification failed with CONFIGRET 0x"@
            &&& all_digits(text.skip(n), 16)
            &&& digits_value(text.skip(n), 16) == configret
        }),
{
    reveal_with_fuel(pow, 9);
    law_hex_fixed_reads_back(configret as int, 8);
    let label = "CM_Register_Notification failed with CONFIGRET 0x"@;
    let text = registration_failed_text(configret);
    assert(text.take(text.len() - 8) =~= label);
    assert(text.skip(text.len() - 8) =~= hex_fixed(configret as int, 8));
}

/// A notification of an arrival or a removal becomes an event with exactly the path that its
/// link is the UTF-16 of, and any other becomes none.
pub proof fn law_notification_becomes_its_event(
    action: i32,
    path: Seq<char>,
    tail: Seq<u16>,
    link: &[u16],
    r: Option<HotplugEvent>,
)
    requires
        forall|i: int| 0 <= i < path.len() ==> path[i] != '\0',
        link@ == utf16_units(path).push(0) + tail,
        call_ensures(cm_event, (action, link), r),
    ensures
        action == 0 ==> (r matches Some(HotplugEvent::DeviceArrived { path: p }) && p@ == path),
        action == 1 ==> (r matches Some(HotplugEvent::DeviceLeft { path: p }) && p@ == path),
        action != 0 && action != 1 ==> r is None,
{
    law_event_has_the_whole_path(action, path, tail);
}

} // verus!
