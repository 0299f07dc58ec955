//! The data of the device-mapper ioctl interface defined by <linux/dm-ioctl.h>,
//! API version "4.48.0-ioctl (2023-03-01)".
//!
//! Fields keep the kernel's names and the widths of the C types on Linux
//! x86_64. These structures hold the values with their contracts; they do
//! not fix the C layout (no `repr(C)`), and a flexible array member here owns
//! the elements that follow it, so the structures are not what goes to the
//! kernel as they stand. The structures that end in a flexible array member
//! have no `Debug` here; their C forms, which do, are outside this library.
#![allow(non_camel_case_types)]

use std::marker::PhantomData;

use vstd::prelude::*;

verus! {

/// C `char` on Linux x86_64 (signed; it is unsigned on Linux aarch64 and arm).
pub type c_char = i8;

/// C `int`.
pub type c_int = i32;

/// C `unsigned int`.
pub type c_uint = u32;

/// C `unsigned long long`.
pub type c_ulonglong = u64;

/// A flexible array member: the elements that follow the structure it ends,
/// owned here (in C they lie in memory after it, and the member has no size).
/// Its debug text is `debug_text`.
#[derive(Default)]
pub struct FlexibleArrayMember<T>(PhantomData<T>, Vec<T>);

impl<T> View for FlexibleArrayMember<T> {
    type V = Seq<T>;

    closed spec fn view(&self) -> Seq<T> {
        self.1@
    }
}

impl<T> FlexibleArrayMember<T> {
    /// The member followed by `elements`.
    pub fn from_elements(elements: Vec<T>) -> (m: FlexibleArrayMember<T>)
        ensures
            m@ == elements@,
    {
        FlexibleArrayMember(PhantomData, elements)
    }

    /// The elements that follow the member, from the first on.
    pub fn as_ptr(&self) -> (elements: &[T])
        ensures
            elements@ == self@,
    {
        self.1.as_slice()
    }

    /// The text by which the member shows itself in debug output.
    pub fn debug_text(&self) -> (s: &'static str)
        ensures
            s@ == "FlexibleArrayMember"@,
    {
        "FlexibleArrayMember"
    }
}

/// `mapper`, NUL-terminated.
pub const DM_DIR: [u8; 7] = [109, 97, 112, 112, 101, 114, 0];

/// `control`, NUL-terminated.
pub const DM_CONTROL_NODE: [u8; 8] = [99, 111, 110, 116, 114, 111, 108, 0];

pub const DM_MAX_TYPE_NAME: u32 = 16;

pub const DM_NAME_LEN: usize = 128;

pub const DM_UUID_LEN: usize = 129;

/// Major version of the dm ioctl interface as defined by this header.
/// Not necessarily equal to the version as implemented by the running kernel.
pub const DM_VERSION_MAJOR: u32 = 4;

/// Minor version of the dm ioctl interface as defined by this header.
/// Not necessarily equal to the version as implemented by the running kernel.
pub const DM_VERSION_MINOR: u32 = 48;

/// Patchlevel version of the dm ioctl interface as defined by this header.
/// Not necessarily equal to the version as implemented by the running kernel.
pub const DM_VERSION_PATCHLEVEL: u32 = 0;

/// Extra version information: `-ioctl (2023-03-01)`, NUL-terminated.
pub const DM_VERSION_EXTRA: [u8; 20] = [
    45, 105, 111, 99, 116, 108, 32, 40, 50, 48, 50, 51, 45, 48, 51, 45, 48, 49, 41, 0,
];

/// All ioctl arguments consist of a single chunk of memory,
/// with this structure at the start.  If a uuid is specified
/// any lookup (eg. for a DM_INFO) will be done on that, *not* the name.
#[derive(Debug, Copy, Clone)]
pub struct dm_ioctl {
    /// The version number is made up of three parts:
    /// major - no backward or forward compatibility,
    /// minor - only backwards compatible,
    /// patch - both backwards and forwards compatible.
    ///
    /// All clients of the ioctl interface should fill in the
    /// version number of the interface that they were
    /// compiled with.
    ///
    /// All recognised ioctl commands (ie. those that don't
    /// return -ENOTTY) fill out this field, even if the
    /// command failed.
    pub version: [c_uint; 3],
    /// Total size of data passed in, including this struct.
    pub data_size: c_uint,
    /// Offset to start of the 'data' field, relative to the start of
    /// this struct.
    pub data_start: c_uint,
    /// "in/out"
    pub target_count: c_uint,
    /// "out"
    pub open_count: c_int,
    /// "in/out"
    pub flags: c_uint,
    /// event_nr holds either the event number (input and output) or the
    /// uevent cookie value (input only).
    /// The DM_DEV_WAIT ioctl takes an event number as input.
    /// The DM_SUSPEND, DM_DEV_REMOVE and DM_DEV_RENAME ioctls
    /// use the field as a cookie to return in the DM_COOKIE
    /// variable with the uevents they issue.
    /// For output, the ioctls return the event number, not the cookie.
    pub event_nr: c_uint,
    /// Padding so that 'dev' is naturally aligned
    pub padding: c_uint,
    /// "in/out"
    pub dev: c_ulonglong,
    /// Device name
    pub name: [c_char; DM_NAME_LEN],
    /// Unique identifier of the block device
    pub uuid: [c_char; DM_UUID_LEN],
    /// Padding or data
    pub data: [c_char; 7],
}

impl Default for dm_ioctl {
    fn default() -> (r: Self)
        ensures
            r.version@ == seq![0u32, 0u32, 0u32],
            r.data_size == 0,
            r.data_start == 0,
            r.target_count == 0,
            r.open_count == 0,
            r.flags == 0,
            r.event_nr == 0,
            r.padding == 0,
            r.dev == 0,
            r.name@ == Seq::new(DM_NAME_LEN as nat, |i: int| 0i8),
            r.uuid@ == Seq::new(DM_UUID_LEN as nat, |i: int| 0i8),
            r.data@ == Seq::new(7, |i: int| 0i8),
    {
        Self {
            version: [0, 0, 0],
            data_size: 0,
            data_start: 0,
            target_count: 0,
            open_count: 0,
            flags: 0,
            event_nr: 0,
            padding: 0,
            dev: 0,
            name: [0; DM_NAME_LEN],
            uuid: [0; DM_UUID_LEN],
            data: [0; 7],
        }
    }
}

/// Used to specify tables.  These structures appear after the dm_ioctl.
#[derive(Default)]
pub struct dm_target_spec {
    pub sector_start: c_ulonglong,
    pub length: c_ulonglong,
    /// "Used when reading from kernel only"
    pub status: c_int,
    /// Location of the next dm_target_spec.
    /// - When specifying targets on a DM_TABLE_LOAD command, this value is
    ///   the number of bytes from the start of the "current" dm_target_spec
    ///   to the start of the "next" dm_target_spec.
    /// - When retrieving targets on a DM_TABLE_STATUS command, this value
    ///   is the number of bytes from the start of the first dm_target_spec
    ///   (that follows the dm_ioctl struct) to the start of the "next"
    ///   dm_target_spec.
    pub next: c_uint,
    pub target_type: [c_char; 16],
    /// Parameter string starts immediately after this object.
    /// Be careful to add padding after string to ensure correct
    /// alignment of subsequent dm_target_spec.
    pub params: FlexibleArrayMember<c_char>,
}

/// Used to retrieve the target dependencies.
#[derive(Default)]
pub struct dm_target_deps {
    /// Array size
    pub count: c_uint,
    /// Padding so that 'dev' is naturally aligned; ignored
    pub padding: c_uint,
    /// "out"
    pub dev: FlexibleArrayMember<c_ulonglong>,
}

/// Used to get a list of all dm devices.
#[derive(Default)]
pub struct dm_name_list {
    pub dev: c_ulonglong,
    /// Offset to the next record from the _start_ of this one
    pub next: c_uint,
    /// The name, NUL-terminated. After it, aligned to the next 8-byte
    /// boundary, come `event_nr: u32`, `flags: u32` and, where the flag
    /// DM_NAME_LIST_FLAG_HAS_UUID is set, the uuid.
    pub name: FlexibleArrayMember<c_char>,
}

/// Used to retrieve the target versions
#[derive(Default)]
pub struct dm_target_versions {
    pub next: c_uint,
    pub version: [c_uint; 3],
    pub name: FlexibleArrayMember<c_char>,
}

/// Used to pass message to a target
#[derive(Default)]
pub struct dm_target_msg {
    /// "Device sector"
    pub sector: c_ulonglong,
    pub message: FlexibleArrayMember<c_char>,
}

} // verus!
