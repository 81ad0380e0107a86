//! Compute-device selection and diagnostic description.

use vstd::prelude::*;
use vstd::string::*;

use crate::decimal::dec_of;
use crate::decimal::u64_to_string;
use crate::fmtsize::mem_size_seq;
use crate::fmtsize::format_mem_size;

verus! {

/// Why selecting a compute device failed.
#[derive(Clone, Copy, Debug, PartialEq, Eq)]
pub enum DeviceSelectError {
    /// The requested device index is beyond the enumerated devices.
    DeviceNotFound,
    /// No devices were enumerated and none was requested by index.
    NoDevices,
}

/// Picks which of `device_count` enumerated compute devices to use: the
/// requested index when it is in range, the first device when no index
/// was requested. Fails with `DeviceNotFound` for an out-of-range index
/// and with `NoDevices` when nothing was enumerated.
pub fn select_device_index(device_count: usize, requested: Option<u16>) -> (r: Result<
    usize,
    DeviceSelectError,
>)
    ensures
        match requested {
            Some(idx) => r == (if (idx as int) < device_count as int {
                Ok::<usize, DeviceSelectError>(idx as usize)
            } else {
                Err::<usize, DeviceSelectError>(DeviceSelectError::DeviceNotFound)
            }),
            None => r == (if device_count > 0 {
                Ok::<usize, DeviceSelectError>(0)
            } else {
                Err::<usize, DeviceSelectError>(DeviceSelectError::NoDevices)
            }),
        },
{
    match requested {
        Some(idx) => {
            if (idx as usize) < device_count {
                Ok(idx as usize)
            } else {
                Err(DeviceSelectError::DeviceNotFound)
            }
        },
        None => {
            if device_count > 0 {
                Ok(0)
            } else {
                Err(DeviceSelectError::NoDevices)
            }
        },
    }
}

/// The diagnostic listing line for one device: its index, its name, and
/// its formatted memory size.
pub open spec fn describe_seq(index: nat, name: Seq<char>, mem: nat) -> Seq<char> {
    seq![' ', ' '] + dec_of(index) + seq![':', ' '] + name + seq![
        ',',
        ' ',
        'm',
        'e',
        'm',
        'o',
        'r',
        'y',
        ' ',
    ] + mem_size_seq(mem)
}

/// Builds the diagnostic listing line for the device at `index` with the
/// given name and global memory size.
pub fn describe_device(index: u64, name: &str, mem: u64) -> (r: String)
    ensures
        r@ == describe_seq(index as nat, name@, mem as nat),
{
    let mut r = String::from_str("  ");
    let i = u64_to_string(index);
    r.append(i.as_str());
    r.append(": ");
    r.append(name);
    r.append(", memory ");
    let m = format_mem_size(mem);
    r.append(m.as_str());
    proof {
        reveal_strlit("  ");
        reveal_strlit(": ");
        reveal_strlit(", memory ");
        assert(r@ =~= describe_seq(index as nat, name@, mem as nat));
    }
    r
}

} // verus!
