//! The cross-platform description of a discovered block device.
//!
//! Sizes are carried as the kernel reports them — a count of 512-byte
//! sectors — and only rendered as gigabytes, to one decimal, when a line is
//! built for display.

use crate::text::spec_dec_digits;
use crate::text::spec_digit_char;
use crate::text::u64_to_dec;
use vstd::prelude::*;
use vstd::string::StrSliceExecFns;
use vstd::string::StringExecFns;

verus! {

/// A block device discovered on the system.
#[derive(Clone, Debug)]
pub struct Device {
    /// The system path to the device (e.g. `/dev/sda`).
    pub path: String,
    /// The kernel-provided name of the device (e.g. `sda`).
    pub name: String,
    /// The device's size in 512-byte sectors, as the kernel reports it.
    pub size_sectors: u64,
    /// The device's primary mount point; empty when unmounted.
    pub mount_point: String,
}

/// The mathematical view of a [`Device`].
pub ghost struct DeviceModel {
    pub path: Seq<char>,
    pub name: Seq<char>,
    pub size_sectors: u64,
    pub mount_point: Seq<char>,
}

impl View for Device {
    type V = DeviceModel;

    open spec fn view(&self) -> DeviceModel {
        DeviceModel {
            path: self.path@,
            name: self.name@,
            size_sectors: self.size_sectors,
            mount_point: self.mount_point@,
        }
    }
}

/// The device's size in tenths of a gigabyte (2^30 bytes), rounded to the
/// nearest tenth: what a one-decimal rendering shows.
pub open spec fn spec_size_tenths_gb(sectors: u64) -> u64 {
    ((sectors * 512 * 10 + 536870912) / 1073741824) as u64
}

/// `s` padded on the right with spaces to at least `w` characters.
pub open spec fn spec_pad_right(s: Seq<char>, w: int) -> Seq<char> {
    if s.len() >= w {
        s
    } else {
        s + Seq::new((w - s.len()) as nat, |i: int| ' ')
    }
}

/// A tenths count rendered with one decimal: the whole part, a dot, one
/// digit.
pub open spec fn spec_one_decimal(tenths: u64) -> Seq<char> {
    spec_dec_digits((tenths / 10) as nat) + seq!['.'] + seq![spec_digit_char((tenths % 10) as nat)]
}

/// The mount part of a device's display line.
pub open spec fn spec_mount_info(mount_point: Seq<char>) -> Seq<char> {
    if mount_point.len() > 0 {
        "[Mounted at "@ + mount_point + "]"@
    } else {
        "[Not mounted]"@
    }
}

/// The fixed-width display line of a device: the path padded to 15
/// characters, the one-decimal size in GB, and the mount status.
pub open spec fn spec_display_line(d: DeviceModel) -> Seq<char> {
    spec_pad_right(d.path, 15) + " "@ + spec_one_decimal(spec_size_tenths_gb(d.size_sectors))
        + " GB "@ + spec_mount_info(d.mount_point)
}

impl Device {
    /// The device's size in tenths of a gigabyte, rounded to nearest.
    pub fn size_tenths_gb(&self) -> (t: u64)
        ensures
            t == spec_size_tenths_gb(self.size_sectors),
    {
        let bytes10: u128 = (self.size_sectors as u128) * 5120;
        let t: u128 = (bytes10 + 536870912) / 1073741824;
        proof {
            assert(t == spec_size_tenths_gb(self.size_sectors));
            assert(t <= u64::MAX) by (nonlinear_arith)
                requires
                    t == ((self.size_sectors as u128) * 5120 + 536870912) / 1073741824,
                    self.size_sectors <= u64::MAX,
            ;
        }
        t as u64
    }

    /// The fixed-width line describing this device: path, one-decimal size
    /// in GB, and mount status.
    pub fn display_line(&self) -> (s: String)
        ensures
            s@ == spec_display_line(self@),
    {
        proof {
            reveal_strlit(" ");
            reveal_strlit(".");
            reveal_strlit(" GB ");
            reveal_strlit("[Mounted at ");
            reveal_strlit("]");
            reveal_strlit("[Not mounted]");
        }
        let mut line = self.path.clone();
        let mut width = line.unicode_len();
        while width < 15
            invariant
                width == line@.len(),
                line@ == spec_pad_right(self.path@, width as int),
                width >= self.path@.len(),
                width <= 15 || width == self.path@.len(),
            decreases 15 - width,
        {
            proof {
                reveal_strlit(" ");
            }
            line.append(" ");
            width += 1;
            proof {
                assert(line@ =~= spec_pad_right(self.path@, width as int));
            }
        }
        proof {
            if width > 15 {
                assert(width == self.path@.len());
            }
            assert(line@ =~= spec_pad_right(self.path@, 15));
        }
        line.append(" ");
        let tenths = self.size_tenths_gb();
        let whole = u64_to_dec(tenths / 10);
        line.append(whole.as_str());
        line.append(".");
        let frac = u64_to_dec(tenths % 10);
        proof {
            assert(frac@ == seq![spec_digit_char((tenths % 10) as nat)]);
        }
        line.append(frac.as_str());
        line.append(" GB ");
        if self.mount_point.unicode_len() > 0 {
            line.append("[Mounted at ");
            line.append(self.mount_point.as_str());
            line.append("]");
        } else {
            line.append("[Not mounted]");
        }
        proof {
            assert(line@ =~= spec_display_line(self@));
        }
        line
    }
}

} // verus!
