//! Device discovery logic for Linux.
//!
//! The kernel exposes one directory entry per block device, with its
//! `removable` flag and its size in 512-byte sectors as small text files,
//! and the live mount table maps device names to mount points. A front end
//! reads those files and hands the raw strings here as
//! [`BlockDeviceRecord`]s and [`MountRecord`]s; everything that decides —
//! system-disk exclusion, name filtering, size parsing, mount resolution —
//! is verified below.

use crate::device::Device;
use crate::device::DeviceModel;
use crate::errors::DiscoveryError;
use crate::text::spec_parse_u64;
use crate::text::parse_u64;
use crate::text::str_starts_with;
use vstd::prelude::*;
use vstd::string::StrSliceExecFns;
use vstd::string::StringExecFns;

verus! {

/// One `/sys/block` entry as read from disk: the kernel name, and the raw
/// (trimmed) contents of its `removable` and `size` attribute files, where
/// readable.
pub struct BlockDeviceRecord {
    /// Kernel device name, e.g. `sda`.
    pub name: String,
    /// Contents of the `removable` attribute; `None` if unreadable.
    pub removable: Option<String>,
    /// Contents of the `size` attribute (sectors, decimal); `None` if
    /// unreadable.
    pub size: Option<String>,
}

/// One live mount-table entry.
pub struct MountRecord {
    /// Kernel name of the backing device, e.g. `sda1`.
    pub device_name: String,
    /// Where it is mounted; empty when unmounted.
    pub mount_point: String,
}

/// An ASCII letter.
pub open spec fn spec_is_alpha(c: char) -> bool {
    ('a' <= c && c <= 'z') || ('A' <= c && c <= 'Z')
}

/// Index of the last ASCII letter in `s`, or `-1` if there is none.
pub open spec fn spec_last_alpha_index(s: Seq<char>) -> int
    decreases s.len(),
{
    if s.len() == 0 {
        -1
    } else if spec_is_alpha(s.last()) {
        s.len() - 1
    } else {
        spec_last_alpha_index(s.drop_last())
    }
}

/// Index of the first occurrence of `c` in `s`, or `-1` if it never occurs.
pub open spec fn spec_first_index_of(s: Seq<char>, c: char) -> int
    decreases s.len(),
{
    if s.len() == 0 {
        -1
    } else if s[0] == c {
        0
    } else {
        let r = spec_first_index_of(s.skip(1), c);
        if r == -1 {
            -1
        } else {
            r + 1
        }
    }
}

/// The whole-disk path behind a partition path: `/dev/sdXN` is cut after
/// its last letter, `/dev/mmcblk*` and `/dev/nvme*` are cut before the
/// first `p`; any other path is returned unchanged. Letters are ASCII, as
/// kernel device names are.
pub open spec fn spec_parent_device(path: Seq<char>) -> Seq<char> {
    if path.len() >= 7 && path.take(7) == "/dev/sd"@ {
        let i = spec_last_alpha_index(path);
        if i >= 0 {
            path.take(i + 1)
        } else {
            path
        }
    } else if (path.len() >= 11 && path.take(11) == "/dev/mmcblk"@) || (path.len() >= 9
        && path.take(9) == "/dev/nvme"@) {
        let i = spec_first_index_of(path, 'p');
        if i >= 0 {
            path.take(i)
        } else {
            path
        }
    } else {
        path
    }
}

/// If no ASCII letter stands at or after position `i`, the last letter of
/// the whole of `s` is the last letter of the prefix before `i`.
proof fn lemma_last_alpha_prefix(s: Seq<char>, i: int)
    requires
        0 <= i <= s.len(),
        forall|k: int| i <= k < s.len() ==> !spec_is_alpha(#[trigger] s[k]),
    ensures
        spec_last_alpha_index(s) == spec_last_alpha_index(s.take(i)),
    decreases s.len() - i,
{
    if i == s.len() {
        assert(s.take(i) =~= s);
    } else {
        assert(!spec_is_alpha(s.last()));
        assert(s.drop_last() =~= s.take(s.len() - 1));
        lemma_last_alpha_prefix(s.take(s.len() - 1), i);
        assert(s.take(s.len() - 1).take(i) =~= s.take(i));
    }
}

/// If `c` stands at position `i` and nowhere earlier, `i` is its first
/// occurrence.
proof fn lemma_first_index_found(s: Seq<char>, c: char, i: int)
    requires
        0 <= i < s.len(),
        s[i] == c,
        forall|k: int| 0 <= k < i ==> s[k] != c,
    ensures
        spec_first_index_of(s, c) == i,
    decreases i,
{
    if i > 0 {
        lemma_first_index_found(s.skip(1), c, i - 1);
    }
}

/// If `c` never occurs, no index is its first occurrence.
proof fn lemma_first_index_none(s: Seq<char>, c: char)
    requires
        forall|k: int| 0 <= k < s.len() ==> s[k] != c,
    ensures
        spec_first_index_of(s, c) == -1,
    decreases s.len(),
{
    if s.len() > 0 {
        lemma_first_index_none(s.skip(1), c);
    }
}

/// The whole-disk path behind a partition path (e.g. `/dev/sda1` becomes
/// `/dev/sda`, `/dev/nvme0n1p1` becomes `/dev/nvme0n1`). Used to exclude
/// the system drive's disk from discovery whatever partition backs `/`.
pub fn get_parent_device_path(path: &str) -> (r: String)
    ensures
        r@ == spec_parent_device(path@),
{
    proof {
        reveal_strlit("/dev/sd");
        reveal_strlit("/dev/mmcblk");
        reveal_strlit("/dev/nvme");
    }
    let n = path.unicode_len();
    if str_starts_with(path, "/dev/sd") {
        let mut i = n;
        while i > 0
            invariant
                i <= n == path@.len(),
                path@.len() >= 7 && path@.take(7) == "/dev/sd"@,
                forall|k: int| i <= k < path@.len() ==> !spec_is_alpha(#[trigger] path@[k]),
            decreases i,
        {
            i = i - 1;
            let c = path.get_char(i);
            if ('a' <= c && c <= 'z') || ('A' <= c && c <= 'Z') {
                proof {
                    lemma_last_alpha_prefix(path@, i + 1);
                    assert(path@.take(i + 1).last() == path@[i as int]);
                }
                return String::from_str(path.substring_char(0, i + 1));
            }
        }
        proof {
            lemma_last_alpha_prefix(path@, 0);
            assert(path@.take(0) =~= Seq::<char>::empty());
        }
        String::from_str(path)
    } else if str_starts_with(path, "/dev/mmcblk") || str_starts_with(path, "/dev/nvme") {
        let mut i: usize = 0;
        while i < n
            invariant
                i <= n == path@.len(),
                !(path@.len() >= 7 && path@.take(7) == "/dev/sd"@),
                (path@.len() >= 11 && path@.take(11) == "/dev/mmcblk"@) || (path@.len() >= 9
                    && path@.take(9) == "/dev/nvme"@),
                forall|k: int| 0 <= k < i ==> path@[k] != 'p',
            decreases n - i,
        {
            if path.get_char(i) == 'p' {
                proof {
                    lemma_first_index_found(path@, 'p', i as int);
                }
                return String::from_str(path.substring_char(0, i));
            }
            i += 1;
        }
        proof {
            lemma_first_index_none(path@, 'p');
        }
        String::from_str(path)
    } else {
        String::from_str(path)
    }
}

/// The device path of a kernel name: `/dev/` followed by the name.
pub open spec fn spec_dev_path(name: Seq<char>) -> Seq<char> {
    "/dev/"@ + name
}

/// The sector count of a record: its `size` attribute parsed as decimal,
/// zero when unreadable or unparsable.
pub open spec fn spec_size_sectors(rec: BlockDeviceRecord) -> u64 {
    match rec.size {
        Some(s) => match spec_parse_u64(s@) {
            Some(v) => v,
            None => 0,
        },
        None => 0,
    }
}

/// A record survives discovery: not a loop device, not the system disk's
/// parent, affirmatively removable, and of non-zero reported size.
pub open spec fn spec_keep(rec: BlockDeviceRecord, parent: Seq<char>) -> bool {
    &&& !(rec.name@.len() >= 4 && rec.name@.take(4) == "loop"@)
    &&& spec_dev_path(rec.name@) != parent
    &&& (rec.removable matches Some(s) && s@ == "1"@)
    &&& spec_size_sectors(rec) > 0
}

/// `p` is a prefix of `s`.
pub open spec fn spec_is_prefix(p: Seq<char>, s: Seq<char>) -> bool {
    p.len() <= s.len() && s.take(p.len() as int) == p
}

/// The mount point of a device: the first mount whose device name begins
/// with the kernel name and whose mount point is non-empty; empty if none.
pub open spec fn spec_mount_point(name: Seq<char>, mounts: Seq<MountRecord>) -> Seq<char>
    decreases mounts.len(),
{
    if mounts.len() == 0 {
        Seq::empty()
    } else if spec_is_prefix(name, mounts[0].device_name@) && mounts[0].mount_point@.len() > 0 {
        mounts[0].mount_point@
    } else {
        spec_mount_point(name, mounts.skip(1))
    }
}

/// The kernel name of the device backing the root mount: the first mount
/// whose mount point is `/`.
pub open spec fn spec_root_device(mounts: Seq<MountRecord>) -> Option<Seq<char>>
    decreases mounts.len(),
{
    if mounts.len() == 0 {
        None
    } else if mounts[0].mount_point@ == "/"@ {
        Some(mounts[0].device_name@)
    } else {
        spec_root_device(mounts.skip(1))
    }
}

/// The discovered devices, in enumeration order: each surviving record,
/// with its path, sector count and resolved mount point.
pub open spec fn spec_device_of(rec: BlockDeviceRecord, mounts: Seq<MountRecord>) -> DeviceModel {
    DeviceModel {
        path: spec_dev_path(rec.name@),
        name: rec.name@,
        size_sectors: spec_size_sectors(rec),
        mount_point: spec_mount_point(rec.name@, mounts),
    }
}

/// The whole discovery result over the raw records.
pub open spec fn spec_discover(
    entries: Seq<BlockDeviceRecord>,
    parent: Seq<char>,
    mounts: Seq<MountRecord>,
) -> Seq<DeviceModel>
    decreases entries.len(),
{
    if entries.len() == 0 {
        Seq::empty()
    } else {
        let rest = spec_discover(entries.skip(1), parent, mounts);
        if spec_keep(entries[0], parent) {
            seq![spec_device_of(entries[0], mounts)] + rest
        } else {
            rest
        }
    }
}

/// The kernel name of the device backing the root mount, if any.
fn root_device_name<'a>(mounts: &'a Vec<MountRecord>) -> (r: Option<&'a String>)
    ensures
        match r {
            Some(s) => spec_root_device(mounts@) == Some(s@),
            None => spec_root_device(mounts@) is None,
        },
{
    proof {
        reveal_strlit("/");
    }
    let slash = String::from_str("/");
    let nm = mounts.len();
    let mut m: usize = 0;
    proof {
        assert(mounts@.skip(0) =~= mounts@);
    }
    while m < nm
        invariant
            nm == mounts@.len(),
            m <= nm,
            slash@ == "/"@,
            spec_root_device(mounts@) == spec_root_device(mounts@.skip(m as int)),
        decreases nm - m,
    {
        proof {
            assert(mounts@.skip(m as int)[0] == mounts@[m as int]);
            assert(mounts@.skip(m as int).skip(1) =~= mounts@.skip(m + 1));
        }
        if mounts[m].mount_point == slash {
            return Some(&mounts[m].device_name);
        }
        m += 1;
    }
    None
}

/// Resolves the mount point of a device name against the mount table.
fn mount_point_for(name: &str, mounts: &Vec<MountRecord>) -> (r: String)
    ensures
        r@ == spec_mount_point(name@, mounts@),
{
    let n = mounts.len();
    let mut j: usize = 0;
    proof {
        assert(mounts@.skip(0) =~= mounts@);
    }
    while j < n
        invariant
            n == mounts@.len(),
            j <= n,
            spec_mount_point(name@, mounts@) == spec_mount_point(name@, mounts@.skip(j as int)),
        decreases n - j,
    {
        proof {
            assert(mounts@.skip(j as int)[0] == mounts@[j as int]);
            assert(mounts@.skip(j as int).skip(1) =~= mounts@.skip(j + 1));
        }
        let mp = &mounts[j].mount_point;
        if str_starts_with(mounts[j].device_name.as_str(), name) && mp.unicode_len() > 0 {
            return mp.clone();
        }
        j += 1;
    }
    String::new()
}

/// Scans the raw block-device records for removable devices.
///
/// The system disk backing `/` is resolved first and its whole-disk parent
/// excluded from the results; loop devices, devices not affirmatively
/// removable, and devices of reported size zero are skipped; each survivor
/// carries its sector count and its first non-empty mount point. When no
/// mount backs `/`, discovery fails with
/// [`DiscoveryError::SystemDriveUnknown`] — a front end that cannot read
/// the records at all reports [`DiscoveryError::IoFailure`] itself.
///
/// Every returned device has a non-zero size and a path different from the
/// excluded system-disk parent.
pub fn get_removable_devices(entries: &Vec<BlockDeviceRecord>, mounts: &Vec<MountRecord>) -> (r:
    Result<Vec<Device>, DiscoveryError>)
    ensures
        match r {
            Ok(devs) => spec_root_device(mounts@) matches Some(root) && ({
                let parent = spec_parent_device(spec_dev_path(root));
                &&& devs@.map_values(|d: Device| d@) == spec_discover(entries@, parent, mounts@)
                &&& forall|j: int|
                    0 <= j < devs@.len() ==> (#[trigger] devs@[j])@.size_sectors > 0
                        && devs@[j]@.path != parent
            }),
            Err(e) => e == DiscoveryError::SystemDriveUnknown && spec_root_device(mounts@)
                is None,
        },
{
    proof {
        reveal_strlit("/");
        reveal_strlit("/dev/");
        reveal_strlit("loop");
        reveal_strlit("1");
    }
    let root = match root_device_name(mounts) {
        Some(s) => s,
        None => {
            return Err(DiscoveryError::SystemDriveUnknown);
        },
    };
    let root_path = String::from_str("/dev/").concat(root.as_str());
    let parent = get_parent_device_path(root_path.as_str());
    let ghost parent_view = spec_parent_device(spec_dev_path(root@));
    proof {
        assert(root_path@ == spec_dev_path(root@));
    }
    let ne = entries.len();
    let mut devs: Vec<Device> = Vec::new();
    let ghost target = spec_discover(entries@, parent_view, mounts@);
    let mut i: usize = 0;
    proof {
        assert(entries@.skip(0) =~= entries@);
        assert(devs@.map_values(|d: Device| d@) =~= Seq::<DeviceModel>::empty());
    }
    while i < ne
        invariant
            ne == entries@.len(),
            i <= ne,
            parent@ == parent_view,
            target == spec_discover(entries@, parent_view, mounts@),
            devs@.map_values(|d: Device| d@) + spec_discover(
                entries@.skip(i as int),
                parent_view,
                mounts@,
            ) == target,
            forall|j: int|
                0 <= j < devs@.len() ==> (#[trigger] devs@[j])@.size_sectors > 0 && devs@[j]@.path
                    != parent_view,
        decreases ne - i,
    {
        proof {
            reveal_strlit("/dev/");
            reveal_strlit("loop");
            reveal_strlit("1");
            assert(entries@.skip(i as int)[0] == entries@[i as int]);
            assert(entries@.skip(i as int).skip(1) =~= entries@.skip(i + 1));
        }
        let rec = &entries[i];
        let keep: bool;
        let mut size_sectors: u64 = 0;
        let path = String::from_str("/dev/").concat(rec.name.as_str());
        proof {
            assert(path@ == spec_dev_path(rec.name@));
        }
        if str_starts_with(rec.name.as_str(), "loop") {
            keep = false;
        } else if path == parent {
            keep = false;
        } else {
            let removable = match &rec.removable {
                Some(s) => {
                    let one = String::from_str("1");
                    *s == one
                },
                None => false,
            };
            if !removable {
                keep = false;
            } else {
                size_sectors = match &rec.size {
                    Some(s) => match parse_u64(s.as_str()) {
                        Some(v) => v,
                        None => 0,
                    },
                    None => 0,
                };
                keep = size_sectors > 0;
            }
        }
        proof {
            assert(keep == spec_keep(entries@[i as int], parent_view));
        }
        if keep {
            let mount_point = mount_point_for(rec.name.as_str(), mounts);
            let d = Device {
                path,
                name: rec.name.clone(),
                size_sectors,
                mount_point,
            };
            let ghost prev = devs@.map_values(|d: Device| d@);
            proof {
                assert(d@ == spec_device_of(entries@[i as int], mounts@));
            }
            devs.push(d);
            proof {
                assert(devs@.map_values(|d: Device| d@) =~= prev.push(d@));
                assert(devs@.map_values(|d: Device| d@) + spec_discover(
                    entries@.skip(i + 1),
                    parent_view,
                    mounts@,
                ) =~= target);
            }
        }
        i += 1;
    }
    proof {
        assert(entries@.skip(ne as int) =~= Seq::<BlockDeviceRecord>::empty());
        assert(devs@.map_values(|d: Device| d@) =~= target);
    }
    Ok(devs)
}

} // verus!
