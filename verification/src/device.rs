//! Cast devices found on the network and the list the application keeps of them.
use vstd::prelude::*;
use crate::text::same_text;

verus! {

/// What a [`DeviceInfo`] holds.
pub struct DeviceInfoView {
    pub name: Seq<char>,
    pub address: Seq<char>,
    pub port: u16,
}

/// A cast device announced on the network: its display name, the address it
/// was resolved to and the port of its cast service.
pub struct DeviceInfo {
    name: String,
    address: String,
    port: u16,
}

impl View for DeviceInfo {
    type V = DeviceInfoView;

    closed spec fn view(&self) -> DeviceInfoView {
        DeviceInfoView { name: self.name@, address: self.address@, port: self.port }
    }
}

impl Clone for DeviceInfo {
    fn clone(&self) -> (r: Self)
        ensures
            r@ == self@,
    {
        DeviceInfo { name: self.name.clone(), address: self.address.clone(), port: self.port }
    }
}

/// The views of a list of devices, in order.
pub open spec fn device_views(devices: Seq<DeviceInfo>) -> Seq<DeviceInfoView> {
    devices.map_values(|d: DeviceInfo| d@)
}

/// The first device of `devices` whose name is `name`, if any.
pub open spec fn find_named(devices: Seq<DeviceInfoView>, name: Seq<char>) -> Option<DeviceInfoView>
    decreases devices.len(),
{
    if devices.len() == 0 {
        None
    } else if devices[0].name == name {
        Some(devices[0])
    } else {
        find_named(devices.drop_first(), name)
    }
}

impl DeviceInfo {
    /// A device called `name`, reached at `address` and `port`.
    pub fn new(name: String, address: String, port: u16) -> (d: Self)
        ensures
            d@.name == name@,
            d@.address == address@,
            d@.port == port,
    {
        DeviceInfo { name, address, port }
    }

    /// The display name.
    pub fn name(&self) -> (n: &str)
        ensures
            n@ == self@.name,
    {
        self.name.as_str()
    }

    /// The resolved address.
    pub fn address(&self) -> (a: &str)
        ensures
            a@ == self@.address,
    {
        self.address.as_str()
    }

    /// The port of the cast service.
    pub fn port(&self) -> (p: u16)
        ensures
            p == self@.port,
    {
        self.port
    }

    /// The device that a resolved mDNS service describes. Its name is the
    /// service's friendly name (the `fn` text property) where it has one, its
    /// full service name otherwise; its address is the first of the service's
    /// addresses, in the order given. A service with no address gives no device.
    pub fn from_resolved_service(
        friendly_name: Option<String>,
        full_name: String,
        addresses: Vec<String>,
        port: u16,
    ) -> (d: Option<Self>)
        ensures
            d is Some <==> addresses@.len() > 0,
            d is Some ==> d->0@.address == addresses@[0]@ && d->0@.port == port && d->0@.name
                == (match friendly_name {
                Some(f) => f@,
                None => full_name@,
            }),
    {
        if addresses.len() == 0 {
            return None;
        }
        let address = addresses[0].clone();
        let name = match friendly_name {
            Some(f) => f,
            None => full_name,
        };
        Some(DeviceInfo { name, address, port })
    }
}

/// The first device of `devices` called `name`: the device that a
/// connection request by name goes to.
pub fn find_device(devices: &Vec<DeviceInfo>, name: &str) -> (r: Option<DeviceInfo>)
    ensures
        match r {
            Some(d) => find_named(device_views(devices@), name@) == Some(d@),
            None => find_named(device_views(devices@), name@) is None,
        },
{
    let ghost all = device_views(devices@);
    let mut i: usize = 0;
    assert(all.skip(0) =~= all);
    while i < devices.len()
        invariant
            i <= devices@.len(),
            all == device_views(devices@),
            find_named(all, name@) == find_named(all.skip(i as int), name@),
        decreases devices@.len() - i,
    {
        let ghost rest = all.skip(i as int);
        assert(rest[0] == devices@[i as int]@);
        if same_text(devices[i].name(), name) {
            return Some(devices[i].clone());
        }
        assert(rest.drop_first() =~= all.skip(i + 1));
        i = i + 1;
    }
    assert(all.skip(i as int) =~= Seq::<DeviceInfoView>::empty());
    None
}


/// Announcing a device only matters for a name that no listed device has:
/// looking a name up after `d` is appended finds what it found before, and
/// finds `d` exactly when nothing was found before and `d` has that name.
pub proof fn lemma_append_device_lookup(devices: Seq<DeviceInfoView>, d: DeviceInfoView, name: Seq<char>)
    ensures
        find_named(devices.push(d), name) == (match find_named(devices, name) {
            Some(x) => Some(x),
            None => if d.name == name {
                Some(d)
            } else {
                None
            },
        }),
    decreases devices.len(),
{
    if devices.len() == 0 {
        assert(devices.push(d).drop_first() =~= Seq::<DeviceInfoView>::empty());
    } else {
        assert(devices.push(d).drop_first() =~= devices.drop_first().push(d));
        lemma_append_device_lookup(devices.drop_first(), d, name);
    }
}

} // verus!
