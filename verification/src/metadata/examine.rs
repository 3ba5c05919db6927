//! The report that `examine` shows of a superblock, line by line.

use vstd::prelude::*;
use crate::metadata::report::{time_text, show_time, uuid_text, format_uuid, name_text, show_name};
use crate::metadata::v0::{
    SuperblockV0, DiskInfoV0, MD_SB_CLEAN, MD_DISK_FAULTY_V0, MD_DISK_ACTIVE_V0, MD_DISK_SYNC_V0,
    MD_DISK_REMOVED_V0,
};
use crate::metadata::v1::{
    SuperblockV1, MD_DISK_ROLE_SPARE, MD_DISK_ROLE_FAULTY, MD_DISK_ROLE_JOURNAL, MD_DISK_ROLE_MAX,
    MD_FEATURE_BITMAP_OFFSET, MD_FEATURE_RESHAPE_ACTIVE, MD_FEATURE_BAD_BLOCKS, MD_FEATURE_JOURNAL,
};
use crate::text::{dec, dec_int, hex, zero_pad, dec_u64, dec_i64, hex_padded, strings_view};

verus! {

/// The state of a 0.90 disk entry, by its first flag that is set: faulty,
/// active, in sync, removed; a disk with none is a spare.
pub open spec fn v0_disk_state(state: u32) -> Seq<char> {
    if state & MD_DISK_FAULTY_V0 != 0 {
        "faulty"@
    } else if state & MD_DISK_ACTIVE_V0 != 0 {
        "active"@
    } else if state & MD_DISK_SYNC_V0 != 0 {
        "sync"@
    } else if state & MD_DISK_REMOVED_V0 != 0 {
        "removed"@
    } else {
        "spare"@
    }
}

/// The line of disk `i` of a 0.90 superblock.
pub open spec fn v0_disk_line(i: int, d: DiskInfoV0) -> Seq<char> {
    "      Disk "@ + dec(i as nat) + " : "@ + dec(d.major as nat) + ":"@ + dec(d.minor as nat)
        + " (raid_disk: "@ + dec(d.raid_disk as nat) + ", state: "@ + v0_disk_state(d.state) + ")"@
}

/// The lines of the disks of a 0.90 superblock, in table order.
pub open spec fn v0_disk_lines(ds: Seq<DiskInfoV0>) -> Seq<Seq<char>> {
    Seq::new(ds.len(), |i: int| v0_disk_line(i, ds[i]))
}

/// The first part of the report of a 0.90 superblock, before its disks.
pub open spec fn v0_head(sb: SuperblockV0) -> Seq<Seq<char>> {
    seq![
        "          Magic : "@ + zero_pad(hex(sb.md_magic as nat), 8),
        "        Version : "@ + dec(sb.major_version as nat) + "."@ + dec(sb.minor_version as nat) + "."@
            + dec(sb.patch_version as nat),
        "           UUID : "@ + uuid_text(sb.spec_uuid_bytes()),
        "     Raid Level : raid"@ + dec(sb.level as nat),
        "     Raid Disks : "@ + dec(sb.raid_disks as nat),
        "    Total Disks : "@ + dec(sb.nr_disks as nat),
        "   Active Disks : "@ + dec(sb.active_disks as nat),
        "  Working Disks : "@ + dec(sb.working_disks as nat),
        "   Failed Disks : "@ + dec(sb.failed_disks as nat),
        "    Spare Disks : "@ + dec(sb.spare_disks as nat),
        "           Size : "@ + dec(sb.size as nat) + " KB"@,
        "     Chunk Size : "@ + dec(sb.chunk_size as nat) + " KB"@,
        "         Layout : "@ + dec(sb.layout as nat),
        "          State : "@ + (if sb.state == MD_SB_CLEAN { "clean"@ } else { "dirty"@ }),
        "         Events : "@ + dec((sb.events_hi as int * 0x1_0000_0000 + sb.events_lo as int) as nat),
        "   Created Time : "@ + time_text(sb.ctime as i64),
        "   Updated Time : "@ + time_text(sb.utime as i64),
    ]
}

/// The whole report of a 0.90 superblock.
pub open spec fn v0_report(sb: SuperblockV0) -> Seq<Seq<char>> {
    if sb.disks@.len() == 0 {
        v0_head(sb)
    } else {
        v0_head(sb) + seq!["          Disks :"@] + v0_disk_lines(sb.disks@)
    }
}

/// Decimal digits of a `u32`.
fn dec32(n: u32) -> (r: String)
    ensures
        r@ == dec(n as nat),
{
    dec_u64(n as u64)
}

/// The line of disk `i` of a 0.90 superblock.
fn v0_disk_line_of(i: usize, d: &DiskInfoV0) -> (r: String)
    ensures
        r@ == v0_disk_line(i as int, *d),
{
    let state = if d.state & MD_DISK_FAULTY_V0 != 0 {
        "faulty"
    } else if d.state & MD_DISK_ACTIVE_V0 != 0 {
        "active"
    } else if d.state & MD_DISK_SYNC_V0 != 0 {
        "sync"
    } else if d.state & MD_DISK_REMOVED_V0 != 0 {
        "removed"
    } else {
        "spare"
    };
    let a = dec_u64(i as u64);
    let b = dec32(d.major);
    let c = dec32(d.minor);
    let e = dec32(d.raid_disk);
    String::from_str("      Disk ").concat(a.as_str()).concat(" : ").concat(b.as_str()).concat(":")
        .concat(c.as_str()).concat(" (raid_disk: ").concat(e.as_str()).concat(", state: ").concat(state)
        .concat(")")
}

/// The first part of the report of a 0.90 superblock.
fn v0_head_of(sb: &SuperblockV0) -> (r: Vec<String>)
    ensures
        strings_view(r@) == v0_head(*sb),
{
    let mut r: Vec<String> = Vec::new();
    r.push(String::from_str("          Magic : ").concat(hex_padded(sb.md_magic as u64, 8).as_str()));
    r.push(String::from_str("        Version : ").concat(dec32(sb.major_version).as_str()).concat(".")
        .concat(dec32(sb.minor_version).as_str()).concat(".").concat(dec32(sb.patch_version).as_str()));
    let uuid = sb.uuid_bytes();
    r.push(String::from_str("           UUID : ").concat(format_uuid(&uuid).as_str()));
    r.push(String::from_str("     Raid Level : raid").concat(dec32(sb.level).as_str()));
    r.push(String::from_str("     Raid Disks : ").concat(dec32(sb.raid_disks).as_str()));
    r.push(String::from_str("    Total Disks : ").concat(dec32(sb.nr_disks).as_str()));
    r.push(String::from_str("   Active Disks : ").concat(dec32(sb.active_disks).as_str()));
    r.push(String::from_str("  Working Disks : ").concat(dec32(sb.working_disks).as_str()));
    r.push(String::from_str("   Failed Disks : ").concat(dec32(sb.failed_disks).as_str()));
    r.push(String::from_str("    Spare Disks : ").concat(dec32(sb.spare_disks).as_str()));
    r.push(String::from_str("           Size : ").concat(dec32(sb.size).as_str()).concat(" KB"));
    r.push(String::from_str("     Chunk Size : ").concat(dec32(sb.chunk_size).as_str()).concat(" KB"));
    r.push(String::from_str("         Layout : ").concat(dec32(sb.layout).as_str()));
    let state = if sb.state == MD_SB_CLEAN { "clean" } else { "dirty" };
    r.push(String::from_str("          State : ").concat(state));
    r.push(String::from_str("         Events : ").concat(dec_u64(sb.events()).as_str()));
    r.push(String::from_str("   Created Time : ").concat(show_time(sb.ctime as i64).as_str()));
    r.push(String::from_str("   Updated Time : ").concat(show_time(sb.utime as i64).as_str()));
    assert(strings_view(r@) =~= v0_head(*sb));
    r
}

impl SuperblockV0 {
    /// The report of the superblock, line by line.
    pub fn examine(&self) -> (r: Vec<String>)
        ensures
            strings_view(r@) == v0_report(*self),
    {
        let mut r = v0_head_of(self);
        if self.disks.len() == 0 {
            return r;
        }
        let ghost head = strings_view(r@);
        r.push(String::from_str("          Disks :"));
        let mut i: usize = 0;
        while i < self.disks.len()
            invariant
                i <= self.disks@.len(),
                head == v0_head(*self),
                strings_view(r@) == head + seq!["          Disks :"@] + v0_disk_lines(self.disks@.subrange(0, i as int)),
            decreases self.disks@.len() - i,
        {
            let line = v0_disk_line_of(i, &self.disks[i]);
            let ghost before = strings_view(r@);
            r.push(line);
            assert(strings_view(r@) =~= before.push(line@));
            assert(v0_disk_lines(self.disks@.subrange(0, i + 1))
                =~= v0_disk_lines(self.disks@.subrange(0, i as int)).push(v0_disk_line(i as int, self.disks@[i as int])));
            i = i + 1;
        }
        assert(self.disks@.subrange(0, self.disks@.len() as int) =~= self.disks@);
        r
    }
}

/// How a role of a 1.x superblock is shown: the markers by name, an active
/// role with its slot.
pub open spec fn v1_role_text(role: u16) -> Seq<char> {
    if role == MD_DISK_ROLE_SPARE {
        "spare"@
    } else if role == MD_DISK_ROLE_FAULTY {
        "faulty"@
    } else if role == MD_DISK_ROLE_JOURNAL {
        "journal"@
    } else if role < MD_DISK_ROLE_MAX {
        "active (slot "@ + dec(role as nat) + ")"@
    } else {
        "unknown"@
    }
}

/// The line of device `i` of a 1.x superblock.
pub open spec fn v1_role_line(i: int, role: u16) -> Seq<char> {
    "      Device "@ + dec(i as nat) + " : "@ + v1_role_text(role)
}

/// The lines of the device roles of a 1.x superblock.
pub open spec fn v1_role_lines(roles: Seq<u16>) -> Seq<Seq<char>> {
    Seq::new(roles.len(), |i: int| v1_role_line(i, roles[i]))
}

/// An `i32` divided by 1024, rounded toward zero.
pub open spec fn div_1024(n: i32) -> int {
    if n >= 0 { n as int / 1024 } else { -((-(n as int)) / 1024) }
}

/// The lines of the features that the feature map announces.
pub open spec fn v1_feature_lines(sb: SuperblockV1) -> Seq<Seq<char>> {
    let a: Seq<Seq<char>> = if sb.feature_map & MD_FEATURE_BITMAP_OFFSET != 0 {
        seq!["         Bitmap : present (offset: "@ + dec_int(sb.bitmap_offset as int) + " sectors)"@]
    } else {
        Seq::empty()
    };
    let b: Seq<Seq<char>> = if sb.feature_map & MD_FEATURE_RESHAPE_ACTIVE != 0 {
        seq!["       Reshape : active (position: "@ + dec(sb.reshape_position as nat) + ")"@]
    } else {
        Seq::empty()
    };
    let c: Seq<Seq<char>> = if sb.feature_map & MD_FEATURE_BAD_BLOCKS != 0 {
        seq!["     Bad Blocks : tracking enabled"@]
    } else {
        Seq::empty()
    };
    let d: Seq<Seq<char>> = if sb.feature_map & MD_FEATURE_JOURNAL != 0 {
        seq!["        Journal : present"@]
    } else {
        Seq::empty()
    };
    a + b + c + d
}

/// The report of a 1.x superblock from its UUID to its update time.
pub open spec fn v1_body(sb: SuperblockV1) -> Seq<Seq<char>> {
    let name = name_text(sb.set_name@);
    let name_line: Seq<Seq<char>> = if name.len() > 0 { seq!["           Name : "@ + name] } else { Seq::empty() };
    seq!["           UUID : "@ + uuid_text(sb.set_uuid@)] + name_line + seq![
        "     Raid Level : raid"@ + dec_int(sb.level as int),
        "     Raid Disks : "@ + dec_int(sb.raid_disks as int),
        "           Size : "@ + dec(sb.size as nat) + " sectors ("@ + dec(((sb.size * 512) / 1024 / 1024) as nat)
            + " MB)"@,
        "     Chunk Size : "@ + dec_int(div_1024(sb.chunksize)) + " KB"@,
        "         Layout : "@ + dec_int(sb.layout as int),
        "    Data Offset : "@ + dec(sb.data_offset as nat) + " sectors"@,
        "      Data Size : "@ + dec(sb.data_size as nat) + " sectors"@,
        "   Super Offset : "@ + dec(sb.super_offset as nat) + " sectors"@,
        "         Events : "@ + dec(sb.events as nat),
        "   Created Time : "@ + time_text(sb.ctime as i64),
        "   Updated Time : "@ + time_text(sb.utime as i64),
    ]
}

/// The whole report of a 1.x superblock.
pub open spec fn v1_report(sb: SuperblockV1) -> Seq<Seq<char>> {
    let head = seq![
        "          Magic : "@ + zero_pad(hex(sb.magic as nat), 8),
        "        Version : "@ + dec(sb.major_version as nat) + "."@ + dec(sb.minor_version as nat),
        "    Feature Map : "@ + zero_pad(hex(sb.feature_map as nat), 8),
    ];
    let roles: Seq<Seq<char>> = if sb.dev_roles@.len() == 0 {
        Seq::empty()
    } else {
        seq!["   Device Roles :"@] + v1_role_lines(sb.dev_roles@)
    };
    head + v1_feature_lines(sb) + v1_body(sb) + roles
}

/// Decimal digits of an `i32`, with its sign.
fn deci32(n: i32) -> (r: String)
    ensures
        r@ == dec_int(n as int),
{
    dec_i64(n as i64)
}

/// The lines of the features of a 1.x superblock.
fn v1_features_of(sb: &SuperblockV1) -> (r: Vec<String>)
    ensures
        strings_view(r@) == v1_feature_lines(*sb),
{
    let mut r: Vec<String> = Vec::new();
    if sb.has_bitmap() {
        r.push(String::from_str("         Bitmap : present (offset: ").concat(deci32(sb.bitmap_offset).as_str())
            .concat(" sectors)"));
    }
    let ghost n1 = r@.len();
    if sb.is_reshaping() {
        r.push(String::from_str("       Reshape : active (position: ").concat(dec_u64(sb.reshape_position).as_str())
            .concat(")"));
    }
    let ghost n2 = r@.len();
    if sb.has_bad_blocks() {
        r.push(String::from_str("     Bad Blocks : tracking enabled"));
    }
    let ghost n3 = r@.len();
    if sb.has_journal() {
        r.push(String::from_str("        Journal : present"));
    }
    proof {
        let v = strings_view(r@);
        let s = *sb;
        let a: Seq<Seq<char>> = if s.feature_map & MD_FEATURE_BITMAP_OFFSET != 0 {
            seq!["         Bitmap : present (offset: "@ + dec_int(s.bitmap_offset as int) + " sectors)"@]
        } else {
            Seq::empty()
        };
        let b: Seq<Seq<char>> = if s.feature_map & MD_FEATURE_RESHAPE_ACTIVE != 0 {
            seq!["       Reshape : active (position: "@ + dec(s.reshape_position as nat) + ")"@]
        } else {
            Seq::empty()
        };
        let c: Seq<Seq<char>> = if s.feature_map & MD_FEATURE_BAD_BLOCKS != 0 {
            seq!["     Bad Blocks : tracking enabled"@]
        } else {
            Seq::empty()
        };
        let d: Seq<Seq<char>> = if s.feature_map & MD_FEATURE_JOURNAL != 0 {
            seq!["        Journal : present"@]
        } else {
            Seq::empty()
        };
        assert(v.subrange(0, n1 as int) =~= a);
        assert(v.subrange(n1 as int, n2 as int) =~= b);
        assert(v.subrange(n2 as int, n3 as int) =~= c);
        assert(v.subrange(n3 as int, v.len() as int) =~= d);
        assert(v =~= a + b + c + d);
    }
    r
}

/// An `i32` divided by 1024, rounded toward zero.
fn div_1024_of(n: i32) -> (r: i64)
    ensures
        r == div_1024(n),
{
    if n >= 0 {
        (n / 1024) as i64
    } else {
        let m: i64 = -(n as i64);
        -(m / 1024)
    }
}

/// The report of a 1.x superblock from its UUID to its update time.
fn v1_body_of(sb: &SuperblockV1) -> (r: Vec<String>)
    requires
        sb.size * 512 <= u64::MAX,
    ensures
        strings_view(r@) == v1_body(*sb),
{
    let mut r: Vec<String> = Vec::new();
    r.push(String::from_str("           UUID : ").concat(format_uuid(&sb.set_uuid).as_str()));
    let name = show_name(&sb.set_name);
    if name.as_str().unicode_len() > 0 {
        r.push(String::from_str("           Name : ").concat(name.as_str()));
    }
    let ghost n1 = r@.len();
    r.push(String::from_str("     Raid Level : raid").concat(deci32(sb.level).as_str()));
    r.push(String::from_str("     Raid Disks : ").concat(deci32(sb.raid_disks).as_str()));
    let mb = sb.size * 512 / 1024 / 1024;
    r.push(String::from_str("           Size : ").concat(dec_u64(sb.size).as_str()).concat(" sectors (")
        .concat(dec_u64(mb).as_str()).concat(" MB)"));
    r.push(String::from_str("     Chunk Size : ").concat(dec_i64(div_1024_of(sb.chunksize)).as_str()).concat(" KB"));
    r.push(String::from_str("         Layout : ").concat(deci32(sb.layout).as_str()));
    r.push(String::from_str("    Data Offset : ").concat(dec_u64(sb.data_offset).as_str()).concat(" sectors"));
    r.push(String::from_str("      Data Size : ").concat(dec_u64(sb.data_size).as_str()).concat(" sectors"));
    r.push(String::from_str("   Super Offset : ").concat(dec_u64(sb.super_offset).as_str()).concat(" sectors"));
    r.push(String::from_str("         Events : ").concat(dec_u64(sb.events).as_str()));
    r.push(String::from_str("   Created Time : ").concat(show_time(sb.ctime as i64).as_str()));
    r.push(String::from_str("   Updated Time : ").concat(show_time(sb.utime as i64).as_str()));
    proof {
        let v = strings_view(r@);
        let s = *sb;
        let nm = name_text(s.set_name@);
        let name_line: Seq<Seq<char>> = if nm.len() > 0 { seq!["           Name : "@ + nm] } else { Seq::empty() };
        assert(v.subrange(0, n1 as int) =~= seq!["           UUID : "@ + uuid_text(s.set_uuid@)] + name_line);
    }
    assert(strings_view(r@) =~= v1_body(*sb));
    r
}

/// The line of device `i` of a 1.x superblock.
fn v1_role_line_of(i: usize, role: u16) -> (r: String)
    ensures
        r@ == v1_role_line(i as int, role),
{
    let text = if role == MD_DISK_ROLE_SPARE {
        String::from_str("spare")
    } else if role == MD_DISK_ROLE_FAULTY {
        String::from_str("faulty")
    } else if role == MD_DISK_ROLE_JOURNAL {
        String::from_str("journal")
    } else if role < MD_DISK_ROLE_MAX {
        String::from_str("active (slot ").concat(dec_u64(role as u64).as_str()).concat(")")
    } else {
        String::from_str("unknown")
    };
    String::from_str("      Device ").concat(dec_u64(i as u64).as_str()).concat(" : ").concat(text.as_str())
}

impl SuperblockV1 {
    /// The report of the superblock, line by line.
    pub fn examine(&self) -> (r: Vec<String>)
        requires
            self.size * 512 <= u64::MAX,
        ensures
            strings_view(r@) == v1_report(*self),
    {
        let mut r: Vec<String> = Vec::new();
        r.push(String::from_str("          Magic : ").concat(hex_padded(self.magic as u64, 8).as_str()));
        r.push(String::from_str("        Version : ").concat(dec32(self.major_version).as_str()).concat(".")
            .concat(dec32(self.minor_version).as_str()));
        r.push(String::from_str("    Feature Map : ").concat(hex_padded(self.feature_map as u64, 8).as_str()));
        let ghost head = strings_view(r@);
        let mut features = v1_features_of(self);
        r.append(&mut features);
        let ghost with_features = strings_view(r@);
        assert(with_features =~= head + v1_feature_lines(*self));
        let mut body = v1_body_of(self);
        r.append(&mut body);
        let ghost with_body = strings_view(r@);
        assert(with_body =~= with_features + v1_body(*self));
        if self.dev_roles.len() > 0 {
            r.push(String::from_str("   Device Roles :"));
            let mut i: usize = 0;
            while i < self.dev_roles.len()
                invariant
                    i <= self.dev_roles@.len(),
                    strings_view(r@) == with_body + seq!["   Device Roles :"@]
                        + v1_role_lines(self.dev_roles@.subrange(0, i as int)),
                decreases self.dev_roles@.len() - i,
            {
                let line = v1_role_line_of(i, self.dev_roles[i]);
                let ghost before = strings_view(r@);
                r.push(line);
                assert(strings_view(r@) =~= before.push(line@));
                assert(v1_role_lines(self.dev_roles@.subrange(0, i + 1))
                    =~= v1_role_lines(self.dev_roles@.subrange(0, i as int)).push(v1_role_line(i as int, self.dev_roles@[i as int])));
                i = i + 1;
            }
            assert(self.dev_roles@.subrange(0, self.dev_roles@.len() as int) =~= self.dev_roles@);
        }
        assert(strings_view(r@) =~= v1_report(*self));
        r
    }
}

} // verus!
