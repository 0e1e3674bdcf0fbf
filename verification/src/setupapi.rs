use vstd::prelude::*;
use vstd::string::StringSliceAdditionalSpecFns;
use std::collections::HashSet;
use crate::wide::{encode_utf16, units_to_le_bytes, utf16_le_bytes, utf16_units};

verus! {

broadcast use vstd::std_specs::hash::group_hash_axioms;

/// The device information set handed out when no real one can carry the
/// emulated HID interface.
pub const FAKE_DEVICE_INFO_SET: usize = 0x4348_4944;
pub const INVALID_HANDLE_VALUE: usize = usize::MAX;
pub const ERROR_INSUFFICIENT_BUFFER: u32 = 122;
pub const ERROR_NO_MORE_ITEMS: u32 = 259;
/// Bytes before the path in a device interface detail record.
pub const DETAIL_PREFIX_SIZE: u32 = 4;

/// The emulated HID interface and the real device information sets it has
/// been added to.
pub struct PhantomHid {
    /// The registered device path, as UTF-8 and as NUL-terminated UTF-16.
    path: Option<(Vec<u8>, Vec<u16>)>,
    sets: HashSet<usize>,
}

/// What the contracts see of the emulated interface.
pub struct PhantomHidView {
    /// The registered device path, if any.
    pub path: Option<Seq<char>>,
    /// The real sets the interface was added to.
    pub sets: Set<usize>,
}

impl View for PhantomHid {
    type V = PhantomHidView;

    closed spec fn view(&self) -> PhantomHidView {
        PhantomHidView {
            path: match self.path {
                Some(p) => Some(vstd::utf8::decode_utf8(p.0@)),
                None => None,
            },
            sets: self.sets@,
        }
    }
}

impl PhantomHid {
    /// The registered path's UTF-8 and UTF-16 forms agree with it.
    pub closed spec fn wf(&self) -> bool {
        match self.path {
            Some(p) => {
                &&& vstd::utf8::valid_utf8(p.0@)
                &&& p.1@ == utf16_units(vstd::utf8::decode_utf8(p.0@)).push(0)
            },
            None => true,
        }
    }

    /// No interface registered and no set holding it.
    pub fn new() -> (h: Self)
        ensures
            h.wf(),
            h@.path is None,
            h@.sets == Set::<usize>::empty(),
    {
        PhantomHid { path: None, sets: HashSet::new() }
    }

    /// Registers the device path of the emulated HID interface. Only one path
    /// can be registered: registering it again succeeds, registering another
    /// fails and changes nothing.
    pub fn add_phantom_hid(&mut self, path: &str) -> (ok: bool)
        requires
            old(self).wf(),
        ensures
            final(self).wf(),
            final(self)@.sets == old(self)@.sets,
            match old(self)@.path {
                None => ok && final(self)@.path == Some(path@),
                Some(p) => ok == (utf16_units(p) == utf16_units(path@)) && final(self)@.path == old(self)@.path,
            },
    {
        let mut wide = encode_utf16(path);
        wide.push(0);
        match &self.path {
            Some(current) => {
                let same = units_equal(current.1.as_slice(), wide.as_slice());
                proof {
                    let p = vstd::utf8::decode_utf8(current.0@);
                    if same {
                        assert(utf16_units(p).push(0).drop_last() =~= utf16_units(p));
                        assert(utf16_units(path@).push(0).drop_last() =~= utf16_units(path@));
                    } else {
                        if utf16_units(p) == utf16_units(path@) {
                            assert(current.1@ == wide@);
                        }
                    }
                }
                same
            },
            None => {
                let bytes = vstd::slice::slice_to_vec(path.as_bytes());
                proof {
                    vstd::utf8::encode_utf8_decode_utf8(path@);
                    vstd::utf8::encode_utf8_valid_utf8(path@);
                }
                self.path = Some((bytes, wide));
                true
            },
        }
    }

    /// Whether an interface is registered.
    pub fn has_phantom_hid(&self) -> (b: bool)
        ensures
            b == (self@.path is Some),
    {
        self.path.is_some()
    }
}

fn units_equal(a: &[u16], b: &[u16]) -> (eq: bool)
    ensures
        eq == (a@ == b@),
{
    if a.len() != b.len() {
        return false;
    }
    let mut i: usize = 0;
    while i < a.len()
        invariant
            a@.len() == b@.len(),
            i <= a@.len(),
            forall|j: int| 0 <= j < i ==> a@[j] == b@[j],
        decreases a@.len() - i,
    {
        if a[i] != b[i] {
            return false;
        }
        i = i + 1;
    }
    assert(a@ =~= b@);
    true
}

/// A device interface class GUID.
#[derive(Clone, Copy)]
pub struct Guid {
    pub data1: u32,
    pub data2: u16,
    pub data3: u16,
    pub data4: [u8; 8],
}

/// Whether `g` is the HID device interface class
/// `{4D1E55B2-F16F-11CF-88CB-001111000030}`.
pub open spec fn is_hid_guid_spec(g: Guid) -> bool {
    &&& g.data1 == 0x4D1E_55B2
    &&& g.data2 == 0xF16F
    &&& g.data3 == 0x11CF
    &&& g.data4@ == seq![0x88u8, 0xCB, 0x00, 0x11, 0x11, 0x00, 0x00, 0x30]
}

/// The HID device interface class.
pub fn hid_guid() -> (g: Guid)
    ensures
        is_hid_guid_spec(g),
{
    let g = Guid { data1: 0x4D1E_55B2, data2: 0xF16F, data3: 0x11CF, data4: [0x88u8, 0xCB, 0x00, 0x11, 0x11, 0x00, 0x00, 0x30] };
    assert(g.data4@ =~= seq![0x88u8, 0xCB, 0x00, 0x11, 0x11, 0x00, 0x00, 0x30]);
    g
}

/// Whether a (possibly missing) class GUID is the HID class.
pub open spec fn is_hid(guid: Option<Guid>) -> bool {
    guid matches Some(g) && is_hid_guid_spec(g)
}

fn is_hid_exec(guid: &Option<Guid>) -> (b: bool)
    ensures
        b == is_hid(*guid),
{
    match guid {
        Some(g) => {
            let hid = hid_guid();
            let mut same = g.data1 == hid.data1 && g.data2 == hid.data2 && g.data3 == hid.data3;
            let mut i: usize = 0;
            while i < 8
                invariant
                    i <= 8,
                    is_hid_guid_spec(hid),
                    same == (g.data1 == hid.data1 && g.data2 == hid.data2 && g.data3 == hid.data3
                        && forall|j: int| 0 <= j < i ==> g.data4@[j] == hid.data4@[j]),
                decreases 8 - i,
            {
                if g.data4[i] != hid.data4[i] {
                    same = false;
                }
                i = i + 1;
            }
            if same {
                assert(g.data4@ =~= hid.data4@);
            }
            same
        },
        None => false,
    }
}

/// What `SetupDiEnumDeviceInterfaces` does.
#[derive(PartialEq, Eq, Structural)]
pub enum InterfaceStep {
    /// Fail with `ERROR_NO_MORE_ITEMS`.
    NoMoreItems,
    /// Fail without touching the last error (no real function to call).
    Fail,
    /// Fill the caller's record with the emulated HID interface and succeed.
    FillPhantom,
    /// Ask the real function for the member at this index.
    Original(u32),
}

/// What a device interface detail request does.
pub enum DetailStep {
    /// Not the emulated interface: the real function answers.
    PassThrough,
    /// Fail with this last error; report the required size when given.
    Fail { error: u32, required: Option<u32> },
    /// Write these bytes at the start of the caller's buffer, report the
    /// required size and fill the caller's device record, then succeed.
    Done { required: u32, bytes: Vec<u8> },
}

/// `x` truncated to 32 bits.
pub open spec fn wrap32(x: int) -> u32 {
    (x % 0x1_0000_0000) as u32
}

/// The `cbSize` written into a UTF-16 detail record.
pub open spec fn detail_w_cb_size() -> u32 {
    if usize::BITS == 64 { 8 } else { 6 }
}

/// The `cbSize` written into a narrow detail record.
pub open spec fn detail_a_cb_size() -> u32 {
    if usize::BITS == 64 { 8 } else { 5 }
}

/// Whether a detail request is about the emulated interface: it names the
/// fake set, or its interface record was filled in by `FillPhantom`.
pub open spec fn is_phantom_detail(set: usize, interface_reserved: Option<usize>) -> bool {
    set == FAKE_DEVICE_INFO_SET || interface_reserved == Some(FAKE_DEVICE_INFO_SET)
}

/// The answer to a detail request for the record `record` (the path, NUL
/// included) with a caller buffer of `buffer_size` bytes (`None`: no buffer).
pub open spec fn detail_reply(cb: u32, record: Seq<u8>, buffer_size: Option<u32>, out: DetailStep) -> bool {
    let needed = wrap32(DETAIL_PREFIX_SIZE + record.len());
    if buffer_size is None || buffer_size.unwrap() < needed {
        out == DetailStep::Fail { error: ERROR_INSUFFICIENT_BUFFER, required: Some(needed) }
    } else {
        out matches DetailStep::Done { required, bytes } && required == needed && bytes@ == crate::reg_hook::le32(cb) + record
    }
}

fn le32_vec(v: u32) -> (out: Vec<u8>)
    ensures
        out@ == crate::reg_hook::le32(v),
{
    let out = vec![(v % 256) as u8, ((v / 256) % 256) as u8, ((v / 65536) % 256) as u8, (v / 16777216) as u8];
    assert(out@ =~= crate::reg_hook::le32(v));
    out
}

fn detail_step(cb: u32, record: &[u8], buffer_size: Option<u32>) -> (out: DetailStep)
    ensures
        detail_reply(cb, record@, buffer_size, out),
{
    let len = record.len();
    let low: u32 = ((len as u64) % 0x1_0000_0000u64) as u32;
    let needed: u32 = low.wrapping_add(DETAIL_PREFIX_SIZE);
    match buffer_size {
        Some(size) => {
            if size < needed {
                return DetailStep::Fail { error: ERROR_INSUFFICIENT_BUFFER, required: Some(needed) };
            }
        },
        None => {
            return DetailStep::Fail { error: ERROR_INSUFFICIENT_BUFFER, required: Some(needed) };
        },
    }
    let mut bytes = le32_vec(cb);
    crate::frame::extend_bytes(&mut bytes, record);
    DetailStep::Done { required: needed, bytes }
}

impl PhantomHid {
    /// Handles `SetupDiGetClassDevs` for class `guid`, given what the real
    /// function returned (`None` when there is none to call). A HID query,
    /// while an interface is registered, adds it to the set returned, or
    /// hands out the fake set when the real call failed.
    pub fn on_get_class_devs(&mut self, guid: Option<Guid>, original: Option<usize>) -> (r: usize)
        requires
            old(self).wf(),
        ensures
            final(self).wf(),
            final(self)@.path == old(self)@.path,
            ({
                let wants = old(self)@.path is Some && is_hid(guid);
                match original {
                    None => r == (if wants { FAKE_DEVICE_INFO_SET } else { 0 }) && final(self)@.sets == old(self)@.sets,
                    Some(h) => if wants && h != 0 && h != INVALID_HANDLE_VALUE {
                        r == h && final(self)@.sets == old(self)@.sets.insert(h)
                    } else if wants {
                        r == FAKE_DEVICE_INFO_SET && final(self)@.sets == old(self)@.sets
                    } else {
                        r == h && final(self)@.sets == old(self)@.sets
                    },
                }
            }),
    {
        let wants = self.path.is_some() && is_hid_exec(&guid);
        match original {
            None => if wants { FAKE_DEVICE_INFO_SET } else { 0 },
            Some(h) => {
                if wants {
                    if h != 0 && h != INVALID_HANDLE_VALUE {
                        self.sets.insert(h);
                        h
                    } else {
                        FAKE_DEVICE_INFO_SET
                    }
                } else {
                    h
                }
            },
        }
    }

    /// Decides `SetupDiEnumDeviceInterfaces` on `set` for member
    /// `member_index` of class `guid`. `has_data` tells whether the caller
    /// passed an interface record, `has_original` whether a real function
    /// exists. On a real set holding the emulated interface, the emulated
    /// interface is member 0 and the real members follow it.
    pub fn enum_device_interfaces(&self, set: usize, guid: Option<Guid>, member_index: u32, has_data: bool, has_original: bool) -> (step: InterfaceStep)
        ensures
            step == (if set == FAKE_DEVICE_INFO_SET {
                if member_index != 0 || !is_hid(guid) || self@.path is None || !has_data {
                    InterfaceStep::NoMoreItems
                } else {
                    InterfaceStep::FillPhantom
                }
            } else if !has_original {
                InterfaceStep::Fail
            } else if !(is_hid(guid) && self@.sets.contains(set)) {
                InterfaceStep::Original(member_index)
            } else if member_index > 0 {
                InterfaceStep::Original((member_index - 1) as u32)
            } else if !has_data {
                InterfaceStep::Original(member_index)
            } else {
                InterfaceStep::FillPhantom
            }),
    {
        let hid = is_hid_exec(&guid);
        if set == FAKE_DEVICE_INFO_SET {
            if member_index != 0 || !hid || self.path.is_none() || !has_data {
                return InterfaceStep::NoMoreItems;
            }
            return InterfaceStep::FillPhantom;
        }
        if !has_original {
            return InterfaceStep::Fail;
        }
        let registered = hid && self.sets.contains(&set);
        if !registered {
            InterfaceStep::Original(member_index)
        } else if member_index > 0 {
            InterfaceStep::Original(member_index - 1)
        } else if !has_data {
            InterfaceStep::Original(member_index)
        } else {
            InterfaceStep::FillPhantom
        }
    }

    /// Decides `SetupDiGetDeviceInterfaceDetailW`: for the emulated interface,
    /// the record is the `cbSize` field and the NUL-terminated UTF-16 path.
    /// `interface_reserved` is the reserved field of the caller's interface
    /// record, when one was passed.
    pub fn interface_detail_w(&self, set: usize, interface_reserved: Option<usize>, buffer_size: Option<u32>) -> (out: DetailStep)
        requires
            self.wf(),
        ensures
            !is_phantom_detail(set, interface_reserved) ==> out is PassThrough,
            is_phantom_detail(set, interface_reserved) ==> match self@.path {
                None => out == DetailStep::Fail { error: ERROR_NO_MORE_ITEMS, required: None },
                Some(p) => detail_reply(detail_w_cb_size(), utf16_le_bytes(utf16_units(p).push(0)), buffer_size, out),
            },
    {
        if !(set == FAKE_DEVICE_INFO_SET || interface_reserved == Some(FAKE_DEVICE_INFO_SET)) {
            return DetailStep::PassThrough;
        }
        match &self.path {
            None => DetailStep::Fail { error: ERROR_NO_MORE_ITEMS, required: None },
            Some(p) => {
                let record = units_to_le_bytes(p.1.as_slice());
                let cb: u32 = if usize::BITS == 64 { 8 } else { 6 };
                detail_step(cb, record.as_slice(), buffer_size)
            },
        }
    }

    /// Decides `SetupDiGetDeviceInterfaceDetailA`: for the emulated interface,
    /// the record is the `cbSize` field and the NUL-terminated UTF-8 path.
    pub fn interface_detail_a(&self, set: usize, interface_reserved: Option<usize>, buffer_size: Option<u32>) -> (out: DetailStep)
        requires
            self.wf(),
        ensures
            !is_phantom_detail(set, interface_reserved) ==> out is PassThrough,
            is_phantom_detail(set, interface_reserved) ==> match self@.path {
                None => out == DetailStep::Fail { error: ERROR_NO_MORE_ITEMS, required: None },
                Some(p) => detail_reply(detail_a_cb_size(), vstd::utf8::encode_utf8(p).push(0), buffer_size, out),
            },
    {
        if !(set == FAKE_DEVICE_INFO_SET || interface_reserved == Some(FAKE_DEVICE_INFO_SET)) {
            return DetailStep::PassThrough;
        }
        match &self.path {
            None => DetailStep::Fail { error: ERROR_NO_MORE_ITEMS, required: None },
            Some(p) => {
                let mut record = vstd::slice::slice_to_vec(p.0.as_slice());
                record.push(0);
                proof {
                    vstd::utf8::decode_utf8_encode_utf8(p.0@);
                }
                let cb: u32 = if usize::BITS == 64 { 8 } else { 5 };
                detail_step(cb, record.as_slice(), buffer_size)
            },
        }
    }

    /// Handles `SetupDiDestroyDeviceInfoList` on `set`: the fake set is never
    /// passed on (`false`); any other set is forgotten and passed on (`true`).
    pub fn destroy_device_info_list(&mut self, set: usize) -> (call_original: bool)
        requires
            old(self).wf(),
        ensures
            final(self).wf(),
            final(self)@.path == old(self)@.path,
            call_original == (set != FAKE_DEVICE_INFO_SET),
            final(self)@.sets == (if set == FAKE_DEVICE_INFO_SET { old(self)@.sets } else { old(self)@.sets.remove(set) }),
    {
        if set == FAKE_DEVICE_INFO_SET {
            return false;
        }
        self.sets.remove(&set);
        true
    }
}

} // verus!
