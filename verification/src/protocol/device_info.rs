//! What enumeration tells about a device.

use vstd::prelude::*;

verus! {

/// A connected device as enumeration lists it.
#[derive(Debug)]
pub struct DeviceInfo {
    pub vendor_id: u16,
    pub product_id: u16,
    pub bus_number: u8,
    pub device_address: u8,
    /// The platform's path, which opens the device.
    pub path: String,
    pub manufacturer: Option<String>,
    pub product: Option<String>,
    pub serial_number: Option<String>,
}

/// A [`DeviceInfo`] with its texts as character sequences.
#[verifier::ext_equal]
pub struct DeviceInfoView {
    pub vendor_id: u16,
    pub product_id: u16,
    pub bus_number: u8,
    pub device_address: u8,
    pub path: Seq<char>,
    pub manufacturer: Option<Seq<char>>,
    pub product: Option<Seq<char>>,
    pub serial_number: Option<Seq<char>>,
}

/// The characters of an optional text.
pub open spec fn text_view(s: Option<String>) -> Option<Seq<char>> {
    match s {
        Some(s) => Some(s@),
        None => None,
    }
}

impl View for DeviceInfo {
    type V = DeviceInfoView;

    open spec fn view(&self) -> DeviceInfoView {
        DeviceInfoView {
            vendor_id: self.vendor_id,
            product_id: self.product_id,
            bus_number: self.bus_number,
            device_address: self.device_address,
            path: self.path@,
            manufacturer: text_view(self.manufacturer),
            product: text_view(self.product),
            serial_number: text_view(self.serial_number),
        }
    }
}

/// The views of a sequence of devices.
pub open spec fn info_views(s: Seq<DeviceInfo>) -> Seq<DeviceInfoView> {
    s.map_values(|i: DeviceInfo| i@)
}

impl Clone for DeviceInfo {
    fn clone(&self) -> (r: DeviceInfo)
        ensures
            r@ == self@,
    {
        DeviceInfo {
            vendor_id: self.vendor_id,
            product_id: self.product_id,
            bus_number: self.bus_number,
            device_address: self.device_address,
            path: self.path.clone(),
            manufacturer: self.manufacturer.clone(),
            product: self.product.clone(),
            serial_number: self.serial_number.clone(),
        }
    }
}

/// A view has all that the entry of a device has.
pub proof fn law_view_keeps_every_field(i: DeviceInfo)
    ensures
        i@.vendor_id == i.vendor_id && i@.product_id == i.product_id,
        i@.bus_number == i.bus_number && i@.device_address == i.device_address,
        i@.path == i.path@,
        i@.manufacturer is Some <==> i.manufacturer is Some,
        i.manufacturer matches Some(s) ==> i@.manufacturer == Some(s@),
        i@.product is Some <==> i.product is Some,
        i.product matches Some(s) ==> i@.product == Some(s@),
        i@.serial_number is Some <==> i.serial_number is Some,
        i.serial_number matches Some(s) ==> i@.serial_number == Some(s@),
{
}

/// The view of a list has one entry for each device, in the same order, and that of a text has
/// the text.
pub proof fn law_views_keep_the_list(infos: Seq<DeviceInfo>, text: Option<String>)
    ensures
        info_views(infos).len() == infos.len(),
        forall|k: int| 0 <= k < infos.len() ==> #[trigger] info_views(infos)[k] == infos[k]@,
        text_view(text) is Some <==> text is Some,
        text matches Some(s) ==> text_view(text) == Some(s@),
{
}

} // verus!
