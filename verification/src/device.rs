//! The choice of a graphics device.

use vstd::prelude::*;

verus! {

/// What the renderer asks of a graphics device.
#[derive(Clone, Copy, Debug, PartialEq, Eq)]
pub struct DeviceInfo {
    pub is_removable: bool,
    pub is_low_power: bool,
    /// Whether the device shares its memory with the CPU.
    pub has_unified_memory: bool,
    /// Whether the device belongs to the first family of Apple GPUs or a later one.
    pub supports_apple1: bool,
}

/// The device to render with.
#[derive(Clone, Copy, Debug, PartialEq, Eq)]
pub enum DeviceChoice {
    /// One of those listed, by its place in the list.
    Listed(usize),
    /// The default of the system.
    SystemDefault,
}

impl DeviceInfo {
    /// The less, the better: built-in devices come before removable ones, and among these low
    /// power before high.
    pub open spec fn rank(self) -> int {
        (if self.is_removable {
            2int
        } else {
            0
        }) + (if self.is_low_power {
            0int
        } else {
            1
        })
    }

    fn is_better_than(&self, other: &DeviceInfo) -> (r: bool)
        ensures
            r == (self.rank() < other.rank()),
    {
        if self.is_removable != other.is_removable {
            other.is_removable
        } else {
            self.is_low_power && !other.is_low_power
        }
    }
}

/// Chooses a device: the first of the best ranked, or the default of the system if none are
/// listed.
pub fn create_device(devices: &Vec<DeviceInfo>) -> (choice: DeviceChoice)
    ensures
        match choice {
            DeviceChoice::Listed(i) => {
                &&& i < devices@.len()
                &&& forall|j: int|
                    0 <= j < devices@.len() ==> devices@[i as int].rank() <= (
                    #[trigger] devices@[j]).rank()
                &&& forall|j: int|
                    0 <= j < i ==> devices@[i as int].rank() < (#[trigger] devices@[j]).rank()
                &&& forall|j: int|
                    0 <= j < devices@.len() && !(#[trigger] devices@[j]).is_removable
                        ==> !devices@[i as int].is_removable
                &&& forall|j: int|
                    0 <= j < devices@.len() && (#[trigger] devices@[j]).is_removable
                        == devices@[i as int].is_removable && devices@[j].is_low_power
                        ==> devices@[i as int].is_low_power
                &&& forall|j: int|
                    0 <= j < i ==> (#[trigger] devices@[j]).is_removable
                        != devices@[i as int].is_removable || devices@[j].is_low_power
                        != devices@[i as int].is_low_power
            },
            DeviceChoice::SystemDefault => devices@.len() == 0,
        },
{
    if devices.len() == 0 {
        return DeviceChoice::SystemDefault;
    }
    let mut best: usize = 0;
    let mut i: usize = 1;
    while i < devices.len()
        invariant
            best < i <= devices@.len(),
            forall|j: int|
                0 <= j < i ==> devices@[best as int].rank() <= (#[trigger] devices@[j]).rank(),
            forall|j: int|
                0 <= j < best ==> devices@[best as int].rank() < (#[trigger] devices@[j]).rank(),
        decreases devices.len() - i,
    {
        if devices[i].is_better_than(&devices[best]) {
            best = i;
        }
        i += 1;
    }
    DeviceChoice::Listed(best)
}

} // verus!
