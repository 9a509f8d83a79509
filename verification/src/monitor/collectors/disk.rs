//! Disk I/O counters from `/proc/diskstats` and mount selection from `/proc/mounts`.

use crate::monitor::text::{
    contains_chars, has_char_prefix, is_digit_char, last_char, parse_u64, parsed_u64, split_lines,
    split_words, str_contains, str_starts_with, text_lines, words,
};
use crate::monitor::collectors::cpu::sat_sub;
use crate::monitor::collectors::network::{numbers_in, numbers_of};
use crate::monitor::collectors::process::after_first;
use vstd::prelude::*;

verus! {

/// Statistics for a single disk device.
#[derive(Debug, Clone, Default)]
pub struct DiskStats {
    /// Device name (e.g., "sda", "nvme0n1").
    pub name: String,
    /// Reads completed.
    pub reads_completed: u64,
    /// Reads merged.
    pub reads_merged: u64,
    /// Sectors read.
    pub sectors_read: u64,
    /// Time spent reading (ms).
    pub read_time_ms: u64,
    /// Writes completed.
    pub writes_completed: u64,
    /// Writes merged.
    pub writes_merged: u64,
    /// Sectors written.
    pub sectors_written: u64,
    /// Time spent writing (ms).
    pub write_time_ms: u64,
    /// IO currently in progress.
    pub io_in_progress: u64,
    /// Time spent doing IO (ms).
    pub io_time_ms: u64,
    /// Weighted time spent doing IO (ms).
    pub weighted_io_time_ms: u64,
}

/// Information about a mounted filesystem.
#[derive(Debug, Clone)]
pub struct MountInfo {
    /// Device path (e.g., "/dev/sda1").
    pub device: String,
    /// Mount point (e.g., "/home").
    pub mount_point: String,
    /// Filesystem type (e.g., "ext4").
    pub fs_type: String,
    /// Total size in bytes.
    pub total_bytes: u64,
    /// Used bytes.
    pub used_bytes: u64,
    /// Available bytes.
    pub available_bytes: u64,
}

/// The number in word `k`, 0 when it is not a number.
pub open spec fn count_field(w: Seq<Seq<char>>, k: int) -> u64 {
    match parsed_u64(w[k]) {
        Some(v) => v,
        None => 0,
    }
}

/// A device name that denotes a partition rather than a whole disk: ends in a digit
/// and is not an NVMe name, or is an NVMe name with a `p`.
pub open spec fn is_partition_name(name: Seq<char>) -> bool {
    (name.len() > 0 && is_digit_char(name.last()) && !contains_chars(name, "nvme"@)) || (
    contains_chars(name, "nvme"@) && contains_chars(name, "p"@))
}

/// The statistics of a `/proc/diskstats` line with at least 14 words, when kept:
/// whole disks always, partitions only when they have read or written.
pub open spec fn diskstats_entry(line: Seq<char>) -> Option<DiskStats> {
    let w = words(line);
    if w.len() < 14 {
        None
    } else {
        let reads = count_field(w, 3);
        let writes = count_field(w, 7);
        if !is_partition_name(w[2]) || reads > 0 || writes > 0 {
            Some(
                DiskStats {
                    name: arbitrary(),
                    reads_completed: reads,
                    reads_merged: count_field(w, 4),
                    sectors_read: count_field(w, 5),
                    read_time_ms: count_field(w, 6),
                    writes_completed: writes,
                    writes_merged: count_field(w, 8),
                    sectors_written: count_field(w, 9),
                    write_time_ms: count_field(w, 10),
                    io_in_progress: count_field(w, 11),
                    io_time_ms: count_field(w, 12),
                    weighted_io_time_ms: count_field(w, 13),
                },
            )
        } else {
            None
        }
    }
}

/// `d` holds the statistics of the kept line `line` (name included).
pub open spec fn matches_entry(d: DiskStats, line: Seq<char>) -> bool {
    &&& diskstats_entry(line) is Some
    &&& d.name@ == words(line)[2]
    &&& d == DiskStats { name: d.name, ..diskstats_entry(line)->0 }
}

/// The kept lines of `lines`, in order.
pub open spec fn kept_disk_lines(lines: Seq<Seq<char>>) -> Seq<Seq<char>>
    decreases lines.len(),
{
    if lines.len() == 0 {
        Seq::empty()
    } else if diskstats_entry(lines.last()) is Some {
        kept_disk_lines(lines.drop_last()).push(lines.last())
    } else {
        kept_disk_lines(lines.drop_last())
    }
}

fn field_count(w: &Vec<&str>, k: usize) -> (r: u64)
    requires
        k < w@.len(),
    ensures
        r == count_field(w@.map_values(|s: &str| s@), k as int),
{
    match parse_u64(w[k]) {
        Some(v) => v,
        None => 0,
    }
}

fn is_partition(name: &str) -> (b: bool)
    ensures
        b == is_partition_name(name@),
{
    let ends_in_digit = match last_char(name) {
        Some(c) => '0' <= c && c <= '9',
        None => false,
    };
    let nvme = str_contains(name, "nvme");
    (ends_in_digit && !nvme) || (nvme && str_contains(name, "p"))
}

/// The counters of `/proc/diskstats` by column: word 2 is the device name, words 3 to 13
/// are reads completed, reads merged, sectors read, read time, writes completed, writes
/// merged, sectors written, write time, I/O in progress, I/O time and weighted I/O time
/// (a word that is not a number counts 0).
pub open spec fn diskstats_columns(d: DiskStats, w: Seq<Seq<char>>) -> bool {
    &&& d.name@ == w[2]
    &&& d.reads_completed == (match parsed_u64(w[3]) { Some(v) => v, None => 0 })
    &&& d.reads_merged == (match parsed_u64(w[4]) { Some(v) => v, None => 0 })
    &&& d.sectors_read == (match parsed_u64(w[5]) { Some(v) => v, None => 0 })
    &&& d.read_time_ms == (match parsed_u64(w[6]) { Some(v) => v, None => 0 })
    &&& d.writes_completed == (match parsed_u64(w[7]) { Some(v) => v, None => 0 })
    &&& d.writes_merged == (match parsed_u64(w[8]) { Some(v) => v, None => 0 })
    &&& d.sectors_written == (match parsed_u64(w[9]) { Some(v) => v, None => 0 })
    &&& d.write_time_ms == (match parsed_u64(w[10]) { Some(v) => v, None => 0 })
    &&& d.io_in_progress == (match parsed_u64(w[11]) { Some(v) => v, None => 0 })
    &&& d.io_time_ms == (match parsed_u64(w[12]) { Some(v) => v, None => 0 })
    &&& d.weighted_io_time_ms == (match parsed_u64(w[13]) { Some(v) => v, None => 0 })
}

/// A device a `/proc/diskstats` line reports is kept exactly when the line has at least
/// 14 words and the device is a whole disk or a partition that has read or written; a
/// kept device carries each counter from its own column (sectors read from word 5,
/// sectors written from word 9, and so on).
pub proof fn lemma_diskstats_columns(line: Seq<char>)
    ensures
        diskstats_entry(line) is Some <==> (words(line).len() >= 14 && (!is_partition_name(
            words(line)[2],
        ) || (match parsed_u64(words(line)[3]) { Some(v) => v, None => 0 }) > 0 || (match parsed_u64(
            words(line)[7],
        ) {
            Some(v) => v,
            None => 0,
        }) > 0)),
        forall|d: DiskStats| #[trigger] matches_entry(d, line) ==> diskstats_columns(d, words(line)),
{
}

/// Parses one `/proc/diskstats` line; `None` for short lines and idle partitions.
pub fn parse_diskstats_line(line: &str) -> (r: Option<DiskStats>)
    ensures
        r is Some <==> diskstats_entry(line@) is Some,
        r matches Some(d) ==> matches_entry(d, line@),
        r is Some ==> words(line@).len() >= 14,
        words(line@).len() >= 14 && !is_partition_name(words(line@)[2]) ==> r is Some,
        r matches Some(d) ==> diskstats_columns(d, words(line@)),
{
    let fields = split_words(line);
    let ghost w = words(line@);
    proof {
        assert(fields@.map_values(|s: &str| s@) =~= w);
    }
    if fields.len() < 14 {
        return None;
    }
    let name = fields[2].to_string();
    let d = DiskStats {
        name,
        reads_completed: field_count(&fields, 3),
        reads_merged: field_count(&fields, 4),
        sectors_read: field_count(&fields, 5),
        read_time_ms: field_count(&fields, 6),
        writes_completed: field_count(&fields, 7),
        writes_merged: field_count(&fields, 8),
        sectors_written: field_count(&fields, 9),
        write_time_ms: field_count(&fields, 10),
        io_in_progress: field_count(&fields, 11),
        io_time_ms: field_count(&fields, 12),
        weighted_io_time_ms: field_count(&fields, 13),
    };
    if !is_partition(fields[2]) || d.reads_completed > 0 || d.writes_completed > 0 {
        Some(d)
    } else {
        None
    }
}

/// Parses the content of `/proc/diskstats`: the kept devices, in line order.
pub fn parse_diskstats(content: &str) -> (r: Vec<DiskStats>)
    ensures
        r@.len() == kept_disk_lines(text_lines(content@)).len(),
        forall|i: int| 0 <= i < r@.len() ==> matches_entry(#[trigger] r@[i], kept_disk_lines(text_lines(content@))[i]),
        forall|i: int| 0 <= i < r@.len() ==> diskstats_columns(#[trigger] r@[i], words(kept_disk_lines(text_lines(content@))[i])),
{
    let lines = split_lines(content);
    let ghost ls = text_lines(content@);
    let mut out: Vec<DiskStats> = Vec::new();
    let mut i: usize = 0;
    while i < lines.len()
        invariant
            0 <= i <= lines@.len(),
            ls == text_lines(content@),
            lines@.len() == ls.len(),
            forall|j: int| 0 <= j < lines@.len() ==> #[trigger] lines@[j]@ == ls[j],
            out@.len() == kept_disk_lines(ls.subrange(0, i as int)).len(),
            forall|k: int| 0 <= k < out@.len() ==> matches_entry(#[trigger] out@[k], kept_disk_lines(ls.subrange(0, i as int))[k]),
        decreases lines@.len() - i,
    {
        proof {
            assert(ls.subrange(0, i + 1).drop_last() =~= ls.subrange(0, i as int));
            assert(ls.subrange(0, i + 1).last() == lines@[i as int]@);
        }
        match parse_diskstats_line(lines[i]) {
            Some(d) => out.push(d),
            None => {},
        }
        i = i + 1;
    }
    proof {
        assert(ls.subrange(0, i as int) =~= ls);
        assert forall|k: int| 0 <= k < out@.len() implies diskstats_columns(#[trigger] out@[k], words(kept_disk_lines(ls)[k])) by {
            lemma_diskstats_columns(kept_disk_lines(ls)[k]);
        }
    }
    out
}

/// Filesystem types whose statistics can hang (network and remote filesystems).
pub open spec fn is_remote_fs(fs: Seq<char>) -> bool {
    ||| fs == "nfs"@
    ||| fs == "nfs4"@
    ||| fs == "cifs"@
    ||| fs == "smbfs"@
    ||| fs == "autofs"@
    ||| fs == "fuse.sshfs"@
    ||| fs == "fuse.rclone"@
    ||| fs == "fuse.gvfsd-fuse"@
    ||| fs == "9p"@
}

/// Mount points of kernel and runtime pseudo-filesystems.
pub open spec fn is_special_mount_point(mp: Seq<char>) -> bool {
    ||| has_char_prefix(mp, "/sys"@)
    ||| has_char_prefix(mp, "/proc"@)
    ||| has_char_prefix(mp, "/dev"@)
    ||| has_char_prefix(mp, "/run"@)
    ||| has_char_prefix(mp, "/snap"@)
}

/// A `/proc/mounts` line names a local block-device filesystem worth measuring:
/// at least three words, a device path starting with `/`, an ordinary mount point
/// and a local filesystem type.
pub open spec fn is_measured_mount(line: Seq<char>) -> bool {
    let w = words(line);
    &&& w.len() >= 3
    &&& has_char_prefix(w[0], "/"@)
    &&& !is_special_mount_point(w[1])
    &&& !is_remote_fs(w[2])
}

/// The measured lines of `lines`, in order.
pub open spec fn measured_mount_lines(lines: Seq<Seq<char>>) -> Seq<Seq<char>>
    decreases lines.len(),
{
    if lines.len() == 0 {
        Seq::empty()
    } else if is_measured_mount(lines.last()) {
        measured_mount_lines(lines.drop_last()).push(lines.last())
    } else {
        measured_mount_lines(lines.drop_last())
    }
}

fn is_remote(fs: &str) -> (b: bool)
    ensures
        b == is_remote_fs(fs@),
{
    let f = fs.to_string();
    f == "nfs".to_string() || f == "nfs4".to_string() || f == "cifs".to_string() || f
        == "smbfs".to_string() || f == "autofs".to_string() || f == "fuse.sshfs".to_string() || f
        == "fuse.rclone".to_string() || f == "fuse.gvfsd-fuse".to_string() || f == "9p".to_string()
}

/// A selected mount: its device is a path (starts with `/`), its mount point is not under
/// `/sys`, `/proc`, `/dev`, `/run` or `/snap`, and its filesystem type is not one of the
/// network or remote types that can hang (`nfs`, `nfs4`, `cifs`, `smbfs`, `autofs`,
/// `fuse.sshfs`, `fuse.rclone`, `fuse.gvfsd-fuse`, `9p`).
pub open spec fn selected_mount(device: Seq<char>, mount_point: Seq<char>, fs: Seq<char>) -> bool {
    &&& has_char_prefix(device, "/"@)
    &&& !has_char_prefix(mount_point, "/sys"@)
    &&& !has_char_prefix(mount_point, "/proc"@)
    &&& !has_char_prefix(mount_point, "/dev"@)
    &&& !has_char_prefix(mount_point, "/run"@)
    &&& !has_char_prefix(mount_point, "/snap"@)
    &&& fs != "nfs"@ && fs != "nfs4"@ && fs != "cifs"@ && fs != "smbfs"@ && fs != "autofs"@
    &&& fs != "fuse.sshfs"@ && fs != "fuse.rclone"@ && fs != "fuse.gvfsd-fuse"@ && fs != "9p"@
}

/// A `/proc/mounts` line is measured exactly when it has at least three words and its
/// device, mount point and type (words 0 to 2) are those of a selected mount.
pub proof fn lemma_measured_is_selected(line: Seq<char>)
    ensures
        is_measured_mount(line) <==> (words(line).len() >= 3 && selected_mount(
            words(line)[0],
            words(line)[1],
            words(line)[2],
        )),
{
}

/// Every line that `measured_mount_lines` keeps is measured.
proof fn lemma_measured_lines_ok(lines: Seq<Seq<char>>)
    ensures
        forall|k: int| 0 <= k < measured_mount_lines(lines).len() ==> is_measured_mount(
            #[trigger] measured_mount_lines(lines)[k],
        ),
    decreases lines.len(),
{
    if lines.len() > 0 {
        lemma_measured_lines_ok(lines.drop_last());
        let prev = measured_mount_lines(lines.drop_last());
        assert forall|k: int| 0 <= k < measured_mount_lines(lines).len() implies is_measured_mount(#[trigger] measured_mount_lines(lines)[k]) by {
            if k < prev.len() {
                assert(measured_mount_lines(lines)[k] == prev[k]);
            }
        }
    }
}

/// The device, mount point and filesystem type of every measured line of `/proc/mounts`,
/// in order; their sizes are then read from the filesystem.
pub fn mount_candidates(content: &str) -> (r: Vec<(String, String, String)>)
    ensures
        forall|i: int| 0 <= i < r@.len() ==> selected_mount((#[trigger] r@[i]).0@, r@[i].1@, r@[i].2@),
        r@.len() == measured_mount_lines(text_lines(content@)).len(),
        forall|i: int| 0 <= i < r@.len() ==> {
            let w = words(measured_mount_lines(text_lines(content@))[i]);
            &&& (#[trigger] r@[i]).0@ == w[0]
            &&& r@[i].1@ == w[1]
            &&& r@[i].2@ == w[2]
        },
{
    let lines = split_lines(content);
    let ghost ls = text_lines(content@);
    let mut out: Vec<(String, String, String)> = Vec::new();
    let mut i: usize = 0;
    while i < lines.len()
        invariant
            0 <= i <= lines@.len(),
            ls == text_lines(content@),
            lines@.len() == ls.len(),
            forall|j: int| 0 <= j < lines@.len() ==> #[trigger] lines@[j]@ == ls[j],
            out@.len() == measured_mount_lines(ls.subrange(0, i as int)).len(),
            forall|k: int| 0 <= k < out@.len() ==> {
                let w = words(measured_mount_lines(ls.subrange(0, i as int))[k]);
                &&& (#[trigger] out@[k]).0@ == w[0]
                &&& out@[k].1@ == w[1]
                &&& out@[k].2@ == w[2]
            },
        decreases lines@.len() - i,
    {
        let line = lines[i];
        proof {
            assert(ls.subrange(0, i + 1).drop_last() =~= ls.subrange(0, i as int));
            assert(ls.subrange(0, i + 1).last() == line@);
        }
        let fields = split_words(line);
        if fields.len() >= 3 {
            let device = fields[0];
            let mount_point = fields[1];
            let fs_type = fields[2];
            let special = str_starts_with(mount_point, "/sys") || str_starts_with(mount_point, "/proc")
                || str_starts_with(mount_point, "/dev") || str_starts_with(mount_point, "/run")
                || str_starts_with(mount_point, "/snap");
            if str_starts_with(device, "/") && !special && !is_remote(fs_type) {
                out.push((device.to_string(), mount_point.to_string(), fs_type.to_string()));
            }
        }
        i = i + 1;
    }
    proof {
        assert(ls.subrange(0, i as int) =~= ls);
        lemma_measured_lines_ok(ls);
        assert forall|k: int| 0 <= k < out@.len() implies selected_mount((#[trigger] out@[k]).0@, out@[k].1@, out@[k].2@) by {
            lemma_measured_is_selected(measured_mount_lines(ls)[k]);
        }
    }
    out
}

/// The size, used and available byte counts that `df --output=size,used,avail -B1 <path>`
/// prints: the first three numbers of its second line, when there are three.
pub open spec fn df_figures(out: Seq<char>) -> Option<(u64, u64, u64)> {
    let lines = text_lines(out);
    if lines.len() < 2 {
        None
    } else {
        let v = numbers_of(words(lines[1]));
        if v.len() < 3 {
            None
        } else {
            Some((v[0], v[1], v[2]))
        }
    }
}

/// Reads the size, used and available byte counts from the output of
/// `df --output=size,used,avail -B1 <path>` (a header line, then the figures).
pub fn parse_df_output(out: &str) -> (r: Option<(u64, u64, u64)>)
    ensures
        r == df_figures(out@),
        r is Some <==> (text_lines(out@).len() >= 2 && numbers_of(words(text_lines(out@)[1])).len() >= 3),
        r matches Some(t) ==> t.0 == numbers_of(words(text_lines(out@)[1]))[0] && t.1 == numbers_of(
            words(text_lines(out@)[1]),
        )[1] && t.2 == numbers_of(words(text_lines(out@)[1]))[2],
{
    let lines = split_lines(out);
    if lines.len() < 2 {
        return None;
    }
    let ws = split_words(lines[1]);
    proof {
        assert(ws@.map_values(|s: &str| s@) =~= words(lines@[1]@));
    }
    let v = numbers_in(&ws);
    if v.len() < 3 {
        return None;
    }
    Some((v[0], v[1], v[2]))
}

/// What a disk did between two samples.
#[derive(Debug, Clone, Copy, PartialEq, Eq, Structural)]
pub struct DiskDeltas {
    /// Bytes read.
    pub read_bytes: u64,
    /// Bytes written.
    pub write_bytes: u64,
    /// Reads completed.
    pub read_ops: u64,
    /// Writes completed.
    pub write_ops: u64,
    /// Milliseconds spent doing I/O.
    pub io_time_ms: u64,
}

/// The activity of a disk between samples `prev` and `curr`, with sectors of
/// `sector_size` bytes; a counter that went backwards counts nothing.
pub fn disk_deltas(prev: &DiskStats, curr: &DiskStats, sector_size: u64) -> (d: DiskDeltas)
    requires
        sat_sub(curr.sectors_read as int, prev.sectors_read as int) * sector_size <= u64::MAX,
        sat_sub(curr.sectors_written as int, prev.sectors_written as int) * sector_size <= u64::MAX,
    ensures
        d.read_bytes == sat_sub(curr.sectors_read as int, prev.sectors_read as int) * sector_size,
        d.write_bytes == sat_sub(curr.sectors_written as int, prev.sectors_written as int) * sector_size,
        d.read_ops == sat_sub(curr.reads_completed as int, prev.reads_completed as int),
        d.write_ops == sat_sub(curr.writes_completed as int, prev.writes_completed as int),
        d.io_time_ms == sat_sub(curr.io_time_ms as int, prev.io_time_ms as int),
{
    let read_sectors = curr.sectors_read.saturating_sub(prev.sectors_read);
    let write_sectors = curr.sectors_written.saturating_sub(prev.sectors_written);
    DiskDeltas {
        read_bytes: read_sectors * sector_size,
        write_bytes: write_sectors * sector_size,
        read_ops: curr.reads_completed.saturating_sub(prev.reads_completed),
        write_ops: curr.writes_completed.saturating_sub(prev.writes_completed),
        io_time_ms: curr.io_time_ms.saturating_sub(prev.io_time_ms),
    }
}

/// A `df -k` line describes a measured volume: at least six words, a device under `/dev`,
/// and a mount point (the last word) that is not a system volume.
pub open spec fn df_k_line_ok(line: Seq<char>) -> bool {
    let ws = words(line);
    &&& ws.len() >= 6
    &&& has_char_prefix(ws[0], "/dev"@)
    &&& !has_char_prefix(ws.last(), "/System"@)
    &&& !has_char_prefix(ws.last(), "/private/var/vm"@)
    &&& !contains_chars(ws.last(), "/Preboot"@)
    &&& !contains_chars(ws.last(), "/Recovery"@)
    &&& !contains_chars(ws.last(), "/Update"@)
}

/// The sizes (words 1 to 3, in KiB) of a `df -k` line fit in a `u64` once in bytes.
pub open spec fn df_k_sizes_fit(line: Seq<char>) -> bool {
    let ws = words(line);
    &&& count_field(ws, 1) * 1024 <= u64::MAX
    &&& count_field(ws, 2) * 1024 <= u64::MAX
    &&& count_field(ws, 3) * 1024 <= u64::MAX
}

/// `m` is what the `df -k` line `line` says: device, mount point (the last word), a
/// filesystem type of `apfs` for a device whose name contains `disk` (else `unknown`),
/// and the total, used and available sizes in bytes (0 where a size is unreadable).
pub open spec fn holds_df_k_mount(m: MountInfo, line: Seq<char>) -> bool {
    let ws = words(line);
    &&& m.device@ == ws[0]
    &&& m.mount_point@ == ws.last()
    &&& m.fs_type@ == (if contains_chars(ws[0], "disk"@) { "apfs"@ } else { "unknown"@ })
    &&& m.total_bytes == count_field(ws, 1) * 1024
    &&& m.used_bytes == count_field(ws, 2) * 1024
    &&& m.available_bytes == count_field(ws, 3) * 1024
}

/// A word read as a number of KiB, in bytes (0 when it is not a number).
fn kib_bytes(w: &str) -> (r: u64)
    requires
        match parsed_u64(w@) {
            Some(v) => v * 1024 <= u64::MAX,
            None => true,
        },
    ensures
        r == match parsed_u64(w@) {
            Some(v) => v * 1024,
            None => 0,
        },
{
    match parse_u64(w) {
        Some(v) => v * 1024,
        None => 0,
    }
}

/// Parses one line of `df -k`: `None` unless it describes a measured volume (see
/// `df_k_line_ok`).
pub fn parse_df_k_line(line: &str) -> (r: Option<MountInfo>)
    requires
        df_k_line_ok(line@) ==> df_k_sizes_fit(line@),
    ensures
        r is Some <==> df_k_line_ok(line@),
        r matches Some(m) ==> holds_df_k_mount(m, line@),
        r matches Some(m) ==> {
            let w = words(line@);
            &&& w.len() >= 6
            &&& m.device@ == w[0] && has_char_prefix(w[0], "/dev"@)
            &&& m.mount_point@ == w[w.len() - 1]
            &&& m.total_bytes == (match parsed_u64(w[1]) { Some(v) => v, None => 0 }) * 1024
            &&& m.used_bytes == (match parsed_u64(w[2]) { Some(v) => v, None => 0 }) * 1024
            &&& m.available_bytes == (match parsed_u64(w[3]) { Some(v) => v, None => 0 }) * 1024
            &&& !has_char_prefix(m.mount_point@, "/System"@)
            &&& !has_char_prefix(m.mount_point@, "/private/var/vm"@)
            &&& !contains_chars(m.mount_point@, "/Preboot"@)
            &&& !contains_chars(m.mount_point@, "/Recovery"@)
            &&& !contains_chars(m.mount_point@, "/Update"@)
        },
{
    let ws = split_words(line);
    let ghost wv = ws@.map_values(|s: &str| s@);
    proof {
        assert(wv =~= words(line@));
    }
    if ws.len() < 6 {
        return None;
    }
    let device = ws[0];
    if !str_starts_with(device, "/dev") {
        return None;
    }
    let mount_point = ws[ws.len() - 1];
    proof {
        assert(mount_point@ == wv.last());
    }
    if str_starts_with(mount_point, "/System") || str_starts_with(mount_point, "/private/var/vm")
        || str_contains(mount_point, "/Preboot") || str_contains(mount_point, "/Recovery")
        || str_contains(mount_point, "/Update") {
        return None;
    }
    let total_bytes = kib_bytes(ws[1]);
    let used_bytes = kib_bytes(ws[2]);
    let available_bytes = kib_bytes(ws[3]);
    let fs_type = if str_contains(device, "disk") {
        "apfs".to_string()
    } else {
        "unknown".to_string()
    };
    Some(MountInfo {
        device: device.to_string(),
        mount_point: mount_point.to_string(),
        fs_type,
        total_bytes,
        used_bytes,
        available_bytes,
    })
}

/// The `df -k` lines that describe measured volumes, in order.
pub open spec fn df_k_rows(lines: Seq<Seq<char>>) -> Seq<Seq<char>>
    decreases lines.len(),
{
    if lines.len() == 0 {
        Seq::empty()
    } else if df_k_line_ok(lines.last()) {
        df_k_rows(lines.drop_last()).push(lines.last())
    } else {
        df_k_rows(lines.drop_last())
    }
}

/// Every volume line of `content` has sizes that fit in bytes.
pub open spec fn df_k_output_fits(content: Seq<char>) -> bool {
    forall|i: int| 0 <= i < after_first(text_lines(content)).len() ==> (df_k_line_ok(
        #[trigger] after_first(text_lines(content))[i],
    ) ==> df_k_sizes_fit(after_first(text_lines(content))[i]))
}

/// Parses the output of `df -k`: the header line is skipped, and every later line that
/// describes a measured volume gives one mount, in line order.
pub fn parse_df_k_output(content: &str) -> (r: Vec<MountInfo>)
    requires
        df_k_output_fits(content@),
    ensures
        r@.len() == df_k_rows(after_first(text_lines(content@))).len(),
        forall|i: int| 0 <= i < r@.len() ==> holds_df_k_mount(#[trigger] r@[i], df_k_rows(after_first(text_lines(content@)))[i]),
{
    let lines = split_lines(content);
    let ghost ls = text_lines(content@);
    let mut out: Vec<MountInfo> = Vec::new();
    if lines.len() < 1 {
        proof {
            assert(after_first(ls) =~= Seq::<Seq<char>>::empty());
        }
        return out;
    }
    let mut i: usize = 1;
    proof {
        assert(ls.subrange(1, 1) =~= Seq::<Seq<char>>::empty());
    }
    while i < lines.len()
        invariant
            1 <= i <= lines@.len(),
            ls == text_lines(content@),
            df_k_output_fits(content@),
            lines@.len() == ls.len(),
            forall|j: int| 0 <= j < lines@.len() ==> #[trigger] lines@[j]@ == ls[j],
            out@.len() == df_k_rows(ls.subrange(1, i as int)).len(),
            forall|k: int| 0 <= k < out@.len() ==> holds_df_k_mount(#[trigger] out@[k], df_k_rows(ls.subrange(1, i as int))[k]),
        decreases lines@.len() - i,
    {
        proof {
            assert(ls.subrange(1, i + 1).drop_last() =~= ls.subrange(1, i as int));
            assert(ls.subrange(1, i + 1).last() == lines@[i as int]@);
            assert(after_first(ls)[i - 1] == ls[i as int]);
        }
        match parse_df_k_line(lines[i]) {
            Some(m) => out.push(m),
            None => {},
        }
        i = i + 1;
    }
    proof {
        assert(ls.subrange(1, i as int) =~= ls.skip(1));
    }
    out
}

} // verus!
