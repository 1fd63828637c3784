//! Where devices are reached, and who they are.
use vstd::prelude::*;

use crate::value::Value;

verus! {

/// The path over which a device is reached.
#[derive(Debug)]
pub enum DeviceRoute {
    Bolt { receiver_uid: String, slot: u8 },
    Unifying { receiver_uid: String, slot: u8 },
    Direct { vendor_id: u16, product_id: u16 },
    RawHid { vendor_id: u16, product_id: u16, usage_page: u16, usage_id: u16, identity: String },
}

/// What a [`DeviceRoute`] holds.
pub enum RouteModel {
    Bolt { receiver_uid: Seq<char>, slot: u8 },
    Unifying { receiver_uid: Seq<char>, slot: u8 },
    Direct { vendor_id: u16, product_id: u16 },
    RawHid { vendor_id: u16, product_id: u16, usage_page: u16, usage_id: u16, identity: Seq<char> },
}

impl Value for DeviceRoute {
    type Model = RouteModel;

    open spec fn model(&self) -> RouteModel {
        match self {
            DeviceRoute::Bolt { receiver_uid, slot } => RouteModel::Bolt {
                receiver_uid: receiver_uid@,
                slot: *slot,
            },
            DeviceRoute::Unifying { receiver_uid, slot } => RouteModel::Unifying {
                receiver_uid: receiver_uid@,
                slot: *slot,
            },
            DeviceRoute::Direct { vendor_id, product_id } => RouteModel::Direct {
                vendor_id: *vendor_id,
                product_id: *product_id,
            },
            DeviceRoute::RawHid { vendor_id, product_id, usage_page, usage_id, identity } => {
                RouteModel::RawHid {
                    vendor_id: *vendor_id,
                    product_id: *product_id,
                    usage_page: *usage_page,
                    usage_id: *usage_id,
                    identity: identity@,
                }
            },
        }
    }

    fn same(&self, other: &DeviceRoute) -> (same: bool) {
        match (self, other) {
            (
                DeviceRoute::Bolt { receiver_uid: a, slot: s },
                DeviceRoute::Bolt { receiver_uid: b, slot: t },
            ) => *a == *b && *s == *t,
            (
                DeviceRoute::Unifying { receiver_uid: a, slot: s },
                DeviceRoute::Unifying { receiver_uid: b, slot: t },
            ) => *a == *b && *s == *t,
            (
                DeviceRoute::Direct { vendor_id: a, product_id: s },
                DeviceRoute::Direct { vendor_id: b, product_id: t },
            ) => *a == *b && *s == *t,
            (
                DeviceRoute::RawHid {
                    vendor_id: a,
                    product_id: s,
                    usage_page: p,
                    usage_id: u,
                    identity: i,
                },
                DeviceRoute::RawHid {
                    vendor_id: b,
                    product_id: t,
                    usage_page: q,
                    usage_id: v,
                    identity: j,
                },
            ) => *a == *b && *s == *t && *p == *q && *u == *v && *i == *j,
            _ => false,
        }
    }

    fn copied(&self) -> (copy: DeviceRoute) {
        match self {
            DeviceRoute::Bolt { receiver_uid, slot } => DeviceRoute::Bolt {
                receiver_uid: receiver_uid.clone(),
                slot: *slot,
            },
            DeviceRoute::Unifying { receiver_uid, slot } => DeviceRoute::Unifying {
                receiver_uid: receiver_uid.clone(),
                slot: *slot,
            },
            DeviceRoute::Direct { vendor_id, product_id } => DeviceRoute::Direct {
                vendor_id: *vendor_id,
                product_id: *product_id,
            },
            DeviceRoute::RawHid { vendor_id, product_id, usage_page, usage_id, identity } => {
                DeviceRoute::RawHid {
                    vendor_id: *vendor_id,
                    product_id: *product_id,
                    usage_page: *usage_page,
                    usage_id: *usage_id,
                    identity: identity.clone(),
                }
            },
        }
    }
}

/// The identity of one physical device, whatever its transport.
#[derive(Debug)]
pub struct PhysicalDeviceKey {
    pub text: String,
}

impl PhysicalDeviceKey {
    pub fn new(text: &str) -> (key: PhysicalDeviceKey)
        ensures
            key.text@ == text@,
    {
        PhysicalDeviceKey { text: text.to_owned() }
    }
}

impl Value for PhysicalDeviceKey {
    type Model = Seq<char>;

    open spec fn model(&self) -> Seq<char> {
        self.text@
    }

    fn same(&self, other: &PhysicalDeviceKey) -> (same: bool) {
        self.text == other.text
    }

    fn copied(&self) -> (copy: PhysicalDeviceKey) {
        PhysicalDeviceKey { text: self.text.clone() }
    }
}

/// One incarnation of a capture session: the configuration namespace of its
/// device, and an epoch that no other session has.
#[derive(Debug)]
pub struct HidppSessionId {
    pub device_key: String,
    pub epoch: u64,
}

impl HidppSessionId {
    pub fn with_epoch(device_key: &str, epoch: u64) -> (id: HidppSessionId)
        ensures
            id.device_key@ == device_key@,
            id.epoch == epoch,
    {
        HidppSessionId { device_key: device_key.to_owned(), epoch }
    }

    pub fn device_key(&self) -> (key: &str)
        ensures
            key@ == self.device_key@,
    {
        self.device_key.as_str()
    }

    pub fn epoch(&self) -> (epoch: u64)
        ensures
            epoch == self.epoch,
    {
        self.epoch
    }
}

impl Value for HidppSessionId {
    type Model = (Seq<char>, u64);

    open spec fn model(&self) -> (Seq<char>, u64) {
        (self.device_key@, self.epoch)
    }

    fn same(&self, other: &HidppSessionId) -> (same: bool) {
        self.device_key == other.device_key && self.epoch == other.epoch
    }

    fn copied(&self) -> (copy: HidppSessionId) {
        HidppSessionId { device_key: self.device_key.clone(), epoch: self.epoch }
    }
}

// ── Laws ────────────────────────────────────────────────────────────────────

/// Two routes are one exactly where they are of one kind and agree in all their parts: a
/// slot of another receiver, or of a receiver of another kind, is another route.
pub proof fn routes_agree_in_every_part(
    a: String,
    slot: u8,
    b: String,
    other_slot: u8,
)
    ensures
        (DeviceRoute::Bolt { receiver_uid: a, slot }).model() == (DeviceRoute::Bolt {
            receiver_uid: b,
            slot: other_slot,
        }).model() <==> a@ == b@ && slot == other_slot,
        (DeviceRoute::Unifying { receiver_uid: a, slot }).model() == (DeviceRoute::Unifying {
            receiver_uid: b,
            slot: other_slot,
        }).model() <==> a@ == b@ && slot == other_slot,
        (DeviceRoute::Bolt { receiver_uid: a, slot }).model() != (DeviceRoute::Unifying {
            receiver_uid: b,
            slot: other_slot,
        }).model(),
{
}

/// Two directly attached devices share a route exactly where both their numbers agree, and
/// two raw ones where their usages and their identities do too.
pub proof fn attached_devices_agree_in_every_number(
    vendor_id: (u16, u16),
    product_id: (u16, u16),
    usage_page: (u16, u16),
    usage_id: (u16, u16),
    a: String,
    b: String,
)
    ensures
        (DeviceRoute::Direct { vendor_id: vendor_id.0, product_id: product_id.0 }).model() == (
        DeviceRoute::Direct { vendor_id: vendor_id.1, product_id: product_id.1 }).model()
            <==> vendor_id.0 == vendor_id.1 && product_id.0 == product_id.1,
        (DeviceRoute::RawHid {
            vendor_id: vendor_id.0,
            product_id: product_id.0,
            usage_page: usage_page.0,
            usage_id: usage_id.0,
            identity: a,
        }).model() == (DeviceRoute::RawHid {
            vendor_id: vendor_id.1,
            product_id: product_id.1,
            usage_page: usage_page.1,
            usage_id: usage_id.1,
            identity: b,
        }).model() <==> vendor_id.0 == vendor_id.1 && product_id.0 == product_id.1 && usage_page.0
            == usage_page.1 && usage_id.0 == usage_id.1 && a@ == b@,
        (DeviceRoute::Direct { vendor_id: vendor_id.0, product_id: product_id.0 }).model() != (
        DeviceRoute::RawHid {
            vendor_id: vendor_id.1,
            product_id: product_id.1,
            usage_page: usage_page.1,
            usage_id: usage_id.1,
            identity: b,
        }).model(),
{
}

/// Two session ids are one exactly where their device keys and their epochs agree.
pub proof fn sessions_agree_in_key_and_epoch(a: HidppSessionId, b: HidppSessionId)
    ensures
        a.model() == b.model() <==> a.device_key@ == b.device_key@ && a.epoch == b.epoch,
{
}

} // verus!
