//! The description of one storage device.

use vstd::prelude::*;
use vstd::string::*;
use crate::format::{size_display_of, spec_size_display};
use crate::text::push_str;

verus! {

/// A storage device as the platform layer describes it.
#[derive(Clone, Debug)]
pub struct Device {
    /// Raw device path (e.g. /dev/rdisk2, \\.\PhysicalDrive1).
    pub path: String,
    /// Paths of its volumes.
    pub volume_paths: Vec<String>,
    pub model: String,
    /// Hardware serial number.
    pub serial: String,
    /// Capacity in bytes.
    pub size_bytes: u64,
    pub removable: bool,
    /// Bus type (USB, SD, ...).
    pub bus_type: String,
    /// Whether the operating system runs from it.
    pub is_system: bool,
}

/// A device description as mathematics.
pub struct DeviceView {
    pub path: Seq<char>,
    pub volume_paths: Seq<Seq<char>>,
    pub model: Seq<char>,
    pub serial: Seq<char>,
    pub size_bytes: u64,
    pub removable: bool,
    pub bus_type: Seq<char>,
    pub is_system: bool,
}

impl View for Device {
    type V = DeviceView;

    open spec fn view(&self) -> DeviceView {
        DeviceView {
            path: self.path@,
            volume_paths: self.volume_paths@.map_values(|s: String| s@),
            model: self.model@,
            serial: self.serial@,
            size_bytes: self.size_bytes,
            removable: self.removable,
            bus_type: self.bus_type@,
            is_system: self.is_system,
        }
    }
}

/// The views of a list of devices.
pub open spec fn devices_view(v: Seq<Device>) -> Seq<DeviceView> {
    v.map_values(|d: Device| d@)
}

/// Copies a list of strings.
pub fn copy_strings(v: &Vec<String>) -> (r: Vec<String>)
    ensures
        r@ == v@,
{
    let mut r: Vec<String> = Vec::new();
    let mut i: usize = 0;
    while i < v.len()
        invariant
            i <= v.len(),
            r@ == v@.subrange(0, i as int),
        decreases v.len() - i,
    {
        r.push(v[i].clone());
        assert(r@ =~= v@.subrange(0, i + 1));
        i = i + 1;
    }
    assert(v@.subrange(0, v.len() as int) =~= v@);
    r
}

impl Device {
    /// A copy of the description.
    pub fn copy(&self) -> (d: Device)
        ensures
            d@ == self@,
    {
        Device {
            path: self.path.clone(),
            volume_paths: {
                let v = copy_strings(&self.volume_paths);
                assert(v@.map_values(|s: String| s@) =~= self.volume_paths@.map_values(|s: String| s@));
                v
            },
            model: self.model.clone(),
            serial: self.serial.clone(),
            size_bytes: self.size_bytes,
            removable: self.removable,
            bus_type: self.bus_type.clone(),
            is_system: self.is_system,
        }
    }

    /// The capacity as listed: "14.32 GB", "512.00 MB", "1000 B".
    pub fn size_display(&self) -> (s: String)
        ensures
            s@ == spec_size_display(self.size_bytes),
    {
        size_display_of(self.size_bytes)
    }

    /// The model, or "未知设备" (unknown device) when it is empty.
    pub open spec fn spec_model_or_unknown(&self) -> Seq<char> {
        if self.model@.len() == 0 {
            "未知设备"@
        } else {
            self.model@
        }
    }

    /// "model [serial] (size)".
    pub open spec fn spec_short_name(&self) -> Seq<char> {
        self.spec_model_or_unknown() + " ["@ + self.serial@ + "] ("@ + spec_size_display(self.size_bytes)
            + ")"@
    }

    /// Short name used in lists.
    pub fn short_name(&self) -> (s: String)
        ensures
            s@ == self.spec_short_name(),
    {
        let mut s = if self.model.as_str().is_empty() {
            String::from_str("未知设备")
        } else {
            self.model.clone()
        };
        push_str(&mut s, " [");
        push_str(&mut s, self.serial.as_str());
        push_str(&mut s, "] (");
        let size = self.size_display();
        push_str(&mut s, size.as_str());
        push_str(&mut s, ")");
        assert(s@ =~= self.spec_short_name());
        s
    }

    /// The multi-line description printed for a device.
    pub open spec fn spec_display_text(&self) -> Seq<char> {
        "设备: "@ + self.model@ + "\n  路径: "@ + self.path@ + "\n  序列号: "@ + self.serial@
            + "\n  容量: "@ + spec_size_display(self.size_bytes) + "\n  总线: "@ + self.bus_type@
            + "\n  可移动: "@ + (if self.removable {
            "是"@
        } else {
            "否"@
        })
    }

    /// The multi-line description of the device (what `Display` prints).
    pub fn display_text(&self) -> (s: String)
        ensures
            s@ == self.spec_display_text(),
    {
        let mut s = String::from_str("设备: ");
        push_str(&mut s, self.model.as_str());
        push_str(&mut s, "\n  路径: ");
        push_str(&mut s, self.path.as_str());
        push_str(&mut s, "\n  序列号: ");
        push_str(&mut s, self.serial.as_str());
        push_str(&mut s, "\n  容量: ");
        let size = self.size_display();
        push_str(&mut s, size.as_str());
        push_str(&mut s, "\n  总线: ");
        push_str(&mut s, self.bus_type.as_str());
        push_str(&mut s, "\n  可移动: ");
        if self.removable {
            push_str(&mut s, "是");
        } else {
            push_str(&mut s, "否");
        }
        assert(s@ =~= self.spec_display_text());
        s
    }
}

} // verus!
