//! LincStation N2 drive status model.
//!
//! The storage slots of the machine, how the health of the drive in each slot
//! is read from its sysfs status file, and the parsing of the block device
//! statistics that the kernel publishes in `/proc/diskstats`.
//!
//! Reference for Linux block devices:
//! <https://docs.kernel.org/admin-guide/blockdev/index.html>

use vstd::prelude::*;
use crate::text::{
    chars_of, parse_u8_hex, parse_unsigned, parse_unsigned_in, same_text, split_words, trim,
    trim_str, trim_start_matches, trim_start_matches_str, word_ranges,
};

verus! {

/// How the status file of a slot is read.
#[allow(non_camel_case_types, clippy::upper_case_acronyms)]
#[derive(Debug, Clone, Copy, PartialEq, Eq, Structural)]
pub enum DriveParsingMethod {
    NETWORK,
    EMMC,
    SATA,
    NVME,
}

/// A storage location of the machine and where its health is published.
#[derive(Debug, Clone, Copy)]
pub struct DriveSlot {
    pub slot_name: &'static str,
    pub sys_name: &'static str,
    pub sys_block_path: &'static str,
    pub driver_parsing_method: DriveParsingMethod,
}

/// The health of the drive in a slot.
#[derive(Debug, Clone, Copy, PartialEq, Eq, Structural)]
pub enum DriveStatus {
    Healthy,
    Missing,
    Degraded,
}

/// The number of slots of the machine.
pub const SLOT_COUNT: usize = 8;

/// The slots of the LincStation N2, in panel order: the management port, the
/// internal eMMC, two SATA bays and four NVMe bays.
pub open spec fn slot_spec(i: int) -> DriveSlot {
    if i == 0 {
        DriveSlot {
            slot_name: "MGMT",
            sys_name: "TBD",
            sys_block_path: "TBD",
            driver_parsing_method: DriveParsingMethod::NETWORK,
        }
    } else if i == 1 {
        DriveSlot {
            slot_name: "OS",
            sys_name: "mmcblk0",
            sys_block_path: "/device/life_time",
            driver_parsing_method: DriveParsingMethod::EMMC,
        }
    } else if i == 2 {
        DriveSlot {
            slot_name: "SATA1",
            sys_name: "sda",
            sys_block_path: "/device/state",
            driver_parsing_method: DriveParsingMethod::SATA,
        }
    } else if i == 3 {
        DriveSlot {
            slot_name: "SATA2",
            sys_name: "sdb",
            sys_block_path: "/device/state",
            driver_parsing_method: DriveParsingMethod::SATA,
        }
    } else if i == 4 {
        DriveSlot {
            slot_name: "NVME1",
            sys_name: "nvme0n1",
            sys_block_path: "/device/state",
            driver_parsing_method: DriveParsingMethod::NVME,
        }
    } else if i == 5 {
        DriveSlot {
            slot_name: "NVME2",
            sys_name: "nvme1n1",
            sys_block_path: "/device/state",
            driver_parsing_method: DriveParsingMethod::NVME,
        }
    } else if i == 6 {
        DriveSlot {
            slot_name: "NVME3",
            sys_name: "nvme2n1",
            sys_block_path: "/device/state",
            driver_parsing_method: DriveParsingMethod::NVME,
        }
    } else {
        DriveSlot {
            slot_name: "NVME4",
            sys_name: "nvme3n1",
            sys_block_path: "/device/state",
            driver_parsing_method: DriveParsingMethod::NVME,
        }
    }
}

/// Slot `i` of the machine.
pub fn slot(i: usize) -> (r: DriveSlot)
    requires
        i < SLOT_COUNT,
    ensures
        r == slot_spec(i as int),
{
    if i == 0 {
        DriveSlot {
            slot_name: "MGMT",
            sys_name: "TBD",
            sys_block_path: "TBD",
            driver_parsing_method: DriveParsingMethod::NETWORK,
        }
    } else if i == 1 {
        DriveSlot {
            slot_name: "OS",
            sys_name: "mmcblk0",
            sys_block_path: "/device/life_time",
            driver_parsing_method: DriveParsingMethod::EMMC,
        }
    } else if i == 2 {
        DriveSlot {
            slot_name: "SATA1",
            sys_name: "sda",
            sys_block_path: "/device/state",
            driver_parsing_method: DriveParsingMethod::SATA,
        }
    } else if i == 3 {
        DriveSlot {
            slot_name: "SATA2",
            sys_name: "sdb",
            sys_block_path: "/device/state",
            driver_parsing_method: DriveParsingMethod::SATA,
        }
    } else if i == 4 {
        DriveSlot {
            slot_name: "NVME1",
            sys_name: "nvme0n1",
            sys_block_path: "/device/state",
            driver_parsing_method: DriveParsingMethod::NVME,
        }
    } else if i == 5 {
        DriveSlot {
            slot_name: "NVME2",
            sys_name: "nvme1n1",
            sys_block_path: "/device/state",
            driver_parsing_method: DriveParsingMethod::NVME,
        }
    } else if i == 6 {
        DriveSlot {
            slot_name: "NVME3",
            sys_name: "nvme2n1",
            sys_block_path: "/device/state",
            driver_parsing_method: DriveParsingMethod::NVME,
        }
    } else {
        DriveSlot {
            slot_name: "NVME4",
            sys_name: "nvme3n1",
            sys_block_path: "/device/state",
            driver_parsing_method: DriveParsingMethod::NVME,
        }
    }
}


/// The level of wear below which an eMMC is healthy. Level `n` stands for
/// `(n - 1) * 10%` to `n * 10%` of the flash life used (0x01 is 0-10%, 0x0A is
/// 90-100%, 0x0B more than that), so levels up to 0x06 are under 60%.
pub const EMMC_WEAR_LIMIT: u8 = 0x07;

/// The wear level that one `life_time` value gives: the value, after any
/// leading `0x`, read as a hexadecimal byte.
pub open spec fn emmc_level(value: Seq<char>) -> Option<nat> {
    parse_unsigned(trim_start_matches(value, "0x"@), 16, 0xff)
}

/// Whether one `life_time` value is a wear level under 60% of life used.
pub open spec fn emmc_value_healthy(value: Seq<char>) -> bool {
    match emmc_level(value) {
        Some(v) => v < EMMC_WEAR_LIMIT,
        None => false,
    }
}

/// The health that an eMMC `life_time` reading gives. The file holds the
/// wear of the two kinds of flash blocks (type A, type B), separated by
/// whitespace; a single value is read the same way. The drive is healthy
/// when there are one or two values and every one is a wear level under 60%;
/// otherwise, unreadable values included, it is degraded.
pub open spec fn emmc_status(life_time: Seq<char>) -> DriveStatus {
    let values = split_words(life_time);
    if 1 <= values.len() <= 2 && forall|k: int|
        0 <= k < values.len() ==> emmc_value_healthy(#[trigger] values[k]) {
        DriveStatus::Healthy
    } else {
        DriveStatus::Degraded
    }
}

/// The health that a SATA device `state` gives: healthy when it reads
/// `running`, degraded otherwise.
pub open spec fn sata_status(state: Seq<char>) -> DriveStatus {
    if trim(state) == "running"@ {
        DriveStatus::Healthy
    } else {
        DriveStatus::Degraded
    }
}

/// The health that an NVMe device `state` gives: healthy when it reads
/// `live`, degraded otherwise.
pub open spec fn nvme_status(state: Seq<char>) -> DriveStatus {
    if trim(state) == "live"@ {
        DriveStatus::Healthy
    } else {
        DriveStatus::Degraded
    }
}

/// The health of a slot read by `method`, given its status file's content,
/// `None` where the file could not be read.
pub open spec fn slot_status(method: DriveParsingMethod, content: Option<Seq<char>>) -> DriveStatus {
    match content {
        None => DriveStatus::Missing,
        Some(c) => match method {
            DriveParsingMethod::EMMC => emmc_status(c),
            DriveParsingMethod::SATA => sata_status(c),
            DriveParsingMethod::NVME => nvme_status(c),
            DriveParsingMethod::NETWORK => DriveStatus::Healthy,
        },
    }
}

/// Whether one `life_time` value is a wear level under 60% of life used.
pub fn emmc_value_is_healthy(value: &str) -> (r: bool)
    ensures
        r == emmc_value_healthy(value@),
{
    match parse_u8_hex(trim_start_matches_str(value, "0x")) {
        Some(level) => level < EMMC_WEAR_LIMIT,
        None => false,
    }
}

/// Parses an eMMC `life_time` reading: the wear of the type A (SLC or
/// enhanced) and type B (MLC or TLC) flash blocks, as hexadecimal levels
/// where 0x01 stands for 0-10% of life used, 0x0A for 90-100% and 0x0B for
/// more than that. Under 60% of life used (every level below 0x07) the drive
/// is healthy, otherwise degraded.
pub fn parse_emmc(life_time: &str) -> (r: DriveStatus)
    ensures
        r == emmc_status(life_time@),
{
    let v = chars_of(life_time);
    let words = word_ranges(&v);
    if words.len() < 1 || words.len() > 2 {
        return DriveStatus::Degraded;
    }
    let mut k: usize = 0;
    while k < words.len()
        invariant
            k <= words@.len() <= 2,
            v@ == life_time@,
            words@.len() == split_words(v@).len(),
            forall|j: int|
                #![trigger words@[j]]
                0 <= j < words@.len() ==> words@[j].0 <= words@[j].1 <= v@.len() && v@.subrange(
                    words@[j].0 as int,
                    words@[j].1 as int,
                ) == split_words(v@)[j],
            forall|j: int| 0 <= j < k ==> emmc_value_healthy(#[trigger] split_words(v@)[j]),
        decreases words@.len() - k,
    {
        let (start, end) = words[k];
        let value = life_time.substring_char(start, end);
        if !emmc_value_is_healthy(value) {
            return DriveStatus::Degraded;
        }
        k = k + 1;
    }
    DriveStatus::Healthy
}

/// Parses a SATA device state: `running` is healthy; `offline`, `blocked`,
/// `created` and anything else is degraded.
pub fn parse_sata(state: &str) -> (r: DriveStatus)
    ensures
        r == sata_status(state@),
{
    if same_text(trim_str(state), "running") {
        DriveStatus::Healthy
    } else {
        DriveStatus::Degraded
    }
}

/// Parses an NVMe device state: `live` is healthy; `new`, `resetting`, `dead`
/// and anything else is degraded.
pub fn parse_nvme(state: &str) -> (r: DriveStatus)
    ensures
        r == nvme_status(state@),
{
    if same_text(trim_str(state), "live") {
        DriveStatus::Healthy
    } else {
        DriveStatus::Degraded
    }
}

/// The content of an optional string, as characters.
pub open spec fn content_view(content: Option<&str>) -> Option<Seq<char>> {
    match content {
        Some(c) => Some(c@),
        None => None,
    }
}

/// The name and health of `slot`, given the content of its status file
/// (`None` where it could not be read, which makes the drive missing).
pub fn check_single_drive(slot: &DriveSlot, content: Option<&str>) -> (r: (String, DriveStatus))
    ensures
        r.0@ == slot.slot_name@,
        r.1 == slot_status(slot.driver_parsing_method, content_view(content)),
{
    let slot_name = slot.slot_name.to_owned();
    match content {
        Some(content) => {
            let status = match slot.driver_parsing_method {
                DriveParsingMethod::EMMC => parse_emmc(content),
                DriveParsingMethod::SATA => parse_sata(content),
                DriveParsingMethod::NVME => parse_nvme(content),
                DriveParsingMethod::NETWORK => DriveStatus::Healthy,
            };
            (slot_name, status)
        },
        None => (slot_name, DriveStatus::Missing),
    }
}


/// The sysfs file that holds the status of `slot`:
/// `/sys/block/<sys_name><sys_block_path>`.
pub fn sysfs_path(slot: &DriveSlot) -> (r: String)
    ensures
        r@ == "/sys/block/"@ + slot.sys_name@ + slot.sys_block_path@,
{
    let mut path = "/sys/block/".to_owned();
    path.append(slot.sys_name);
    path.append(slot.sys_block_path);
    path
}

/// The `i`th of `contents`, `None` past its end.
pub open spec fn content_at(contents: Seq<Option<String>>, i: int) -> Option<Seq<char>> {
    if 0 <= i < contents.len() {
        match contents[i] {
            Some(c) => Some(c@),
            None => None,
        }
    } else {
        None
    }
}

/// The name and health of every slot, in slot order. `contents[i]` is what
/// was read from the status file of slot `i` (`sysfs_path`), `None` where it
/// could not be read; a slot without an entry counts as unreadable.
pub fn check_all_drives(contents: &Vec<Option<String>>) -> (r: Vec<(String, DriveStatus)>)
    ensures
        r@.len() == SLOT_COUNT,
        forall|i: int|
            #![trigger r@[i]]
            0 <= i < SLOT_COUNT ==> r@[i].0@ == slot_spec(i).slot_name@ && r@[i].1 == slot_status(
                slot_spec(i).driver_parsing_method,
                content_at(contents@, i),
            ),
{
    let mut r: Vec<(String, DriveStatus)> = Vec::new();
    let mut i: usize = 0;
    while i < SLOT_COUNT
        invariant
            i <= SLOT_COUNT,
            r@.len() == i,
            forall|k: int|
                #![trigger r@[k]]
                0 <= k < i ==> r@[k].0@ == slot_spec(k).slot_name@ && r@[k].1 == slot_status(
                    slot_spec(k).driver_parsing_method,
                    content_at(contents@, k),
                ),
        decreases SLOT_COUNT - i,
    {
        let s = slot(i);
        let entry = if i < contents.len() {
            match &contents[i] {
                Some(c) => check_single_drive(&s, Some(c.as_str())),
                None => check_single_drive(&s, None),
            }
        } else {
            check_single_drive(&s, None)
        };
        r.push(entry);
        i = i + 1;
    }
    r
}


/// One line of `/proc/diskstats`: the device numbers and name, then the 17
/// statistics fields that the kernel documents.
/// See <https://www.kernel.org/doc/html/latest/admin-guide/iostats.html>.
#[derive(Debug, Clone)]
pub struct DiskStats {
    pub major: u32,
    pub minor: u32,
    pub device_name: String,
    /// Field 1: reads completed.
    pub reads_completed: u64,
    /// Field 2: reads merged.
    pub reads_merged: u64,
    /// Field 3: sectors read.
    pub sectors_read: u64,
    /// Field 4: milliseconds spent reading.
    pub ms_reading: u64,
    /// Field 5: writes completed.
    pub writes_completed: u64,
    /// Field 6: writes merged.
    pub writes_merged: u64,
    /// Field 7: sectors written.
    pub sectors_written: u64,
    /// Field 8: milliseconds spent writing.
    pub ms_writing: u64,
    /// Field 9: I/Os currently in progress.
    pub io_in_progress: u64,
    /// Field 10: milliseconds spent doing I/Os.
    pub ms_doing_io: u64,
    /// Field 11: weighted milliseconds spent doing I/Os.
    pub weighted_ms_doing_io: u64,
    /// Field 12: discards completed.
    pub discards_completed: u64,
    /// Field 13: discards merged.
    pub discards_merged: u64,
    /// Field 14: sectors discarded.
    pub sectors_discarded: u64,
    /// Field 15: milliseconds spent discarding.
    pub ms_discarding: u64,
    /// Field 16: flush requests completed.
    pub flush_requests_completed: u64,
    /// Field 17: milliseconds spent flushing.
    pub ms_flushing: u64,
}

/// The content of a `DiskStats`: device numbers, device name, and the 17
/// statistics fields in kernel order (`counters[k]` is field `k + 1`).
pub struct DiskStatsView {
    pub major: u32,
    pub minor: u32,
    pub device_name: Seq<char>,
    pub counters: Seq<u64>,
}

/// The number of statistics fields in a line of `/proc/diskstats`.
pub const DISK_STATS_FIELDS: usize = 17;

impl View for DiskStats {
    type V = DiskStatsView;

    open spec fn view(&self) -> DiskStatsView {
        DiskStatsView {
            major: self.major,
            minor: self.minor,
            device_name: self.device_name@,
            counters: seq![
                self.reads_completed,
                self.reads_merged,
                self.sectors_read,
                self.ms_reading,
                self.writes_completed,
                self.writes_merged,
                self.sectors_written,
                self.ms_writing,
                self.io_in_progress,
                self.ms_doing_io,
                self.weighted_ms_doing_io,
                self.discards_completed,
                self.discards_merged,
                self.sectors_discarded,
                self.ms_discarding,
                self.flush_requests_completed,
                self.ms_flushing,
            ],
        }
    }
}

/// Word `k` of `words` read as a decimal number of at most `max`; zero where
/// there is no such word or it is no such number.
pub open spec fn word_number(words: Seq<Seq<char>>, k: int, max: nat) -> nat {
    if 0 <= k < words.len() {
        match parse_unsigned(words[k], 10, max) {
            Some(v) => v,
            None => 0,
        }
    } else {
        0
    }
}

/// What a line of `/proc/diskstats` holds: its whitespace-separated words are
/// major, minor, device name and fields 1 to 17; a number that is missing or
/// unreadable counts as zero, a missing name as empty.
pub open spec fn disk_stats_of(line: Seq<char>) -> DiskStatsView {
    let words = split_words(line);
    DiskStatsView {
        major: word_number(words, 0, u32::MAX as nat) as u32,
        minor: word_number(words, 1, u32::MAX as nat) as u32,
        device_name: if 2 < words.len() {
            words[2]
        } else {
            Seq::empty()
        },
        counters: Seq::new(
            DISK_STATS_FIELDS as nat,
            |k: int| word_number(words, k + 3, u64::MAX as nat) as u64,
        ),
    }
}

/// Word `k` of the words of `v` at `ranges`, read as a decimal number of at
/// most `max`, or zero.
fn number_at(v: &Vec<char>, ranges: &Vec<(usize, usize)>, k: usize, max: u64) -> (r: u64)
    requires
        ranges@.len() == split_words(v@).len(),
        forall|j: int|
            #![trigger ranges@[j]]
            0 <= j < ranges@.len() ==> ranges@[j].0 <= ranges@[j].1 <= v@.len() && v@.subrange(
                ranges@[j].0 as int,
                ranges@[j].1 as int,
            ) == split_words(v@)[j],
    ensures
        r == word_number(split_words(v@), k as int, max as nat),
{
    if k < ranges.len() {
        let (start, end) = ranges[k];
        match parse_unsigned_in(v, start, end, 10, max) {
            Some(x) => x,
            None => 0,
        }
    } else {
        0
    }
}

impl DiskStats {
    /// Parses one line of `/proc/diskstats`; numbers that are missing or
    /// unreadable become zero.
    pub fn from_line(line: &str) -> (r: DiskStats)
        ensures
            r@ == disk_stats_of(line@),
    {
        let v = chars_of(line);
        let w = word_ranges(&v);
        let device_name = if w.len() > 2 {
            line.substring_char(w[2].0, w[2].1).to_owned()
        } else {
            String::new()
        };
        let r = DiskStats {
            major: number_at(&v, &w, 0, u32::MAX as u64) as u32,
            minor: number_at(&v, &w, 1, u32::MAX as u64) as u32,
            device_name,
            reads_completed: number_at(&v, &w, 3, u64::MAX),
            reads_merged: number_at(&v, &w, 4, u64::MAX),
            sectors_read: number_at(&v, &w, 5, u64::MAX),
            ms_reading: number_at(&v, &w, 6, u64::MAX),
            writes_completed: number_at(&v, &w, 7, u64::MAX),
            writes_merged: number_at(&v, &w, 8, u64::MAX),
            sectors_written: number_at(&v, &w, 9, u64::MAX),
            ms_writing: number_at(&v, &w, 10, u64::MAX),
            io_in_progress: number_at(&v, &w, 11, u64::MAX),
            ms_doing_io: number_at(&v, &w, 12, u64::MAX),
            weighted_ms_doing_io: number_at(&v, &w, 13, u64::MAX),
            discards_completed: number_at(&v, &w, 14, u64::MAX),
            discards_merged: number_at(&v, &w, 15, u64::MAX),
            sectors_discarded: number_at(&v, &w, 16, u64::MAX),
            ms_discarding: number_at(&v, &w, 17, u64::MAX),
            flush_requests_completed: number_at(&v, &w, 18, u64::MAX),
            ms_flushing: number_at(&v, &w, 19, u64::MAX),
        };
        assert(r@.counters =~= disk_stats_of(line@).counters);
        r
    }
}

impl From<String> for DiskStats {
    fn from(line: String) -> (r: DiskStats)
        ensures
            r@ == disk_stats_of(line@),
    {
        DiskStats::from_line(line.as_str())
    }
}

impl vstd::std_specs::convert::FromSpecImpl<String> for DiskStats {
    open spec fn obeys_from_spec() -> bool {
        false
    }

    open spec fn from_spec(v: String) -> DiskStats {
        choose|d: DiskStats| d@ == disk_stats_of(v@)
    }
}


/// A record of zeros with an empty device name.
pub open spec fn zero_disk_stats() -> DiskStatsView {
    DiskStatsView {
        major: 0,
        minor: 0,
        device_name: Seq::empty(),
        counters: Seq::new(DISK_STATS_FIELDS as nat, |k: int| 0u64),
    }
}

impl Default for DiskStats {
    fn default() -> (r: DiskStats)
        ensures
            r@ == zero_disk_stats(),
    {
        let r = DiskStats {
            major: 0,
            minor: 0,
            device_name: String::new(),
            reads_completed: 0,
            reads_merged: 0,
            sectors_read: 0,
            ms_reading: 0,
            writes_completed: 0,
            writes_merged: 0,
            sectors_written: 0,
            ms_writing: 0,
            io_in_progress: 0,
            ms_doing_io: 0,
            weighted_ms_doing_io: 0,
            discards_completed: 0,
            discards_merged: 0,
            sectors_discarded: 0,
            ms_discarding: 0,
            flush_requests_completed: 0,
            ms_flushing: 0,
        };
        assert(r@.counters =~= zero_disk_stats().counters);
        r
    }
}

/// Whether a record describes a whole device rather than a partition.
pub open spec fn is_whole_device(d: DiskStatsView) -> bool {
    d.minor == 0
}

/// The records of the whole devices among the lines of `/proc/diskstats`, in
/// order; partitions (minor number above zero) are left out.
pub open spec fn whole_devices(lines: Seq<Seq<char>>) -> Seq<DiskStatsView> {
    lines.map_values(|l: Seq<char>| disk_stats_of(l)).filter(|d: DiskStatsView| is_whole_device(d))
}

/// The views of a sequence of strings.
pub open spec fn views_of(lines: Seq<String>) -> Seq<Seq<char>> {
    lines.map_values(|l: String| l@)
}

/// The views of a sequence of records.
pub open spec fn stats_views(stats: Seq<DiskStats>) -> Seq<DiskStatsView> {
    stats.map_values(|d: DiskStats| d@)
}

/// Parses the lines of `/proc/diskstats` and keeps the whole devices.
pub fn disk_stats_from_lines(lines: &Vec<String>) -> (r: Vec<DiskStats>)
    ensures
        stats_views(r@) == whole_devices(views_of(lines@)),
{
    let mut r: Vec<DiskStats> = Vec::new();
    let mut i: usize = 0;
    while i < lines.len()
        invariant
            i <= lines@.len(),
            stats_views(r@) == whole_devices(views_of(lines@).take(i as int)),
        decreases lines@.len() - i,
    {
        let stats = DiskStats::from_line(lines[i].as_str());
        proof {
            let pre = views_of(lines@).take(i as int);
            let cur = views_of(lines@).take(i + 1);
            assert(cur == pre.push(lines@[i as int]@));
            let f = |l: Seq<char>| disk_stats_of(l);
            assert(cur.map_values(f) == pre.map_values(f).push(disk_stats_of(lines@[i as int]@)));
            pre.map_values(f).lemma_filter_push(
                disk_stats_of(lines@[i as int]@),
                |d: DiskStatsView| is_whole_device(d),
            );
        }
        if stats.minor == 0 {
            proof {
                assert(stats_views(r@.push(stats)) == stats_views(r@).push(stats@));
            }
            r.push(stats);
        }
        i = i + 1;
    }
    assert(views_of(lines@).take(lines@.len() as int) == views_of(lines@));
    r
}


/// The first slot whose block device is named `sys_name`, if any.
pub open spec fn slot_of_device(sys_name: Seq<char>) -> Option<int> {
    if exists|i: int| 0 <= i < SLOT_COUNT && #[trigger] slot_spec(i).sys_name@ == sys_name {
        Some(
            choose|i: int|
                0 <= i < SLOT_COUNT && #[trigger] slot_spec(i).sys_name@ == sys_name && forall|j: int|
                    0 <= j < i ==> #[trigger] slot_spec(j).sys_name@ != sys_name,
        )
    } else {
        None
    }
}

/// The first slot that holds `sys_name` is the one that `slot_of_device` names.
pub proof fn lemma_first_slot(sys_name: Seq<char>, i: int)
    requires
        0 <= i < SLOT_COUNT,
        slot_spec(i).sys_name@ == sys_name,
        forall|j: int| 0 <= j < i ==> #[trigger] slot_spec(j).sys_name@ != sys_name,
    ensures
        slot_of_device(sys_name) == Some(i),
{
    let c = slot_of_device(sys_name)->0;
    if c < i {
        assert(slot_spec(c).sys_name@ != sys_name);
    }
    if i < c {
        assert(slot_spec(i).sys_name@ != sys_name);
    }
}

/// The position of the first slot whose block device is named `sys_name`.
pub fn slot_index(sys_name: &str) -> (r: Option<usize>)
    ensures
        match r {
            Some(i) => i < SLOT_COUNT && slot_spec(i as int).sys_name@ == sys_name@ && forall|j: int|
                0 <= j < i ==> #[trigger] slot_spec(j).sys_name@ != sys_name@,
            None => forall|j: int|
                0 <= j < SLOT_COUNT ==> #[trigger] slot_spec(j).sys_name@ != sys_name@,
        },
{
    let mut i: usize = 0;
    while i < SLOT_COUNT
        invariant
            i <= SLOT_COUNT,
            forall|j: int| 0 <= j < i ==> #[trigger] slot_spec(j).sys_name@ != sys_name@,
        decreases SLOT_COUNT - i,
    {
        if same_text(slot(i).sys_name, sys_name) {
            return Some(i);
        }
        i = i + 1;
    }
    None
}

/// The health of the block device `sys_name`, given the content of the status
/// file of its slot (`None` where it could not be read). A device that no slot
/// holds has no status file in this model and counts as missing.
pub fn check_drive_status(sys_name: &str, content: Option<&str>) -> (r: DriveStatus)
    ensures
        r == match slot_of_device(sys_name@) {
            Some(i) => slot_status(slot_spec(i).driver_parsing_method, content_view(content)),
            None => DriveStatus::Missing,
        },
{
    match slot_index(sys_name) {
        Some(i) => {
            let s = slot(i);
            proof {
                lemma_first_slot(sys_name@, i as int);
            }
            check_single_drive(&s, content).1
        },
        None => DriveStatus::Missing,
    }
}


/// The block device names of all slots, in slot order.
pub open spec fn slot_devices() -> Seq<Seq<char>> {
    Seq::new(SLOT_COUNT as nat, |i: int| slot_spec(i).sys_name@)
}

/// The devices to report on: the detected ones, in the order found, then the
/// devices that a slot expects and that were not detected, in slot order.
pub open spec fn report_devices(detected: Seq<Seq<char>>) -> Seq<Seq<char>> {
    detected + slot_devices().filter(|n: Seq<char>| !detected.contains(n))
}

/// Whether `name` is one of `names`.
fn contains_name(names: &Vec<String>, name: &str) -> (r: bool)
    ensures
        r == views_of(names@).contains(name@),
{
    let mut i: usize = 0;
    while i < names.len()
        invariant
            i <= names@.len(),
            forall|j: int| 0 <= j < i ==> #[trigger] names@[j]@ != name@,
        decreases names@.len() - i,
    {
        if same_text(names[i].as_str(), name) {
            assert(views_of(names@)[i as int] == name@);
            return true;
        }
        i = i + 1;
    }
    proof {
        if views_of(names@).contains(name@) {
            let j = choose|j: int| 0 <= j < views_of(names@).len() && views_of(names@)[j] == name@;
            assert(names@[j]@ == name@);
        }
    }
    false
}

/// The devices to report on: those detected, then those that a slot expects
/// and that were not detected.
pub fn build_device_report_list(detected: &Vec<String>) -> (r: Vec<String>)
    ensures
        views_of(r@) == report_devices(views_of(detected@)),
{
    let mut r: Vec<String> = Vec::new();
    let mut i: usize = 0;
    while i < detected.len()
        invariant
            i <= detected@.len(),
            views_of(r@) == views_of(detected@).take(i as int),
        decreases detected@.len() - i,
    {
        let name = detected[i].clone();
        proof {
            assert(views_of(detected@).take(i + 1) == views_of(detected@).take(i as int).push(
                detected@[i as int]@,
            ));
            assert(views_of(r@.push(name)) == views_of(r@).push(name@));
        }
        r.push(name);
        i = i + 1;
    }
    assert(views_of(detected@).take(detected@.len() as int) == views_of(detected@));
    let ghost keep = |n: Seq<char>| !views_of(detected@).contains(n);
    let mut k: usize = 0;
    while k < SLOT_COUNT
        invariant
            k <= SLOT_COUNT,
            keep == (|n: Seq<char>| !views_of(detected@).contains(n)),
            views_of(r@) == views_of(detected@) + slot_devices().take(k as int).filter(keep),
        decreases SLOT_COUNT - k,
    {
        let s = slot(k);
        proof {
            assert(slot_devices().take(k + 1) == slot_devices().take(k as int).push(s.sys_name@));
            slot_devices().take(k as int).lemma_filter_push(s.sys_name@, keep);
        }
        if !contains_name(detected, s.sys_name) {
            let name = s.sys_name.to_owned();
            proof {
                assert(views_of(r@.push(name)) == views_of(r@).push(name@));
            }
            r.push(name);
        }
        k = k + 1;
    }
    assert(slot_devices().take(SLOT_COUNT as int) == slot_devices());
    r
}


/// A slot counts as missing exactly when its status file could not be read.
pub proof fn lemma_missing_iff_unreadable(method: DriveParsingMethod, content: Option<Seq<char>>)
    ensures
        slot_status(method, content) == DriveStatus::Missing <==> content is None,
{
}

/// Every record kept from `/proc/diskstats` describes a whole device, and
/// every whole-device line is kept.
pub proof fn lemma_whole_devices_only(lines: Seq<Seq<char>>)
    ensures
        forall|k: int|
            0 <= k < whole_devices(lines).len() ==> (#[trigger] whole_devices(lines)[k]).minor == 0,
        forall|k: int|
            0 <= k < lines.len() && disk_stats_of(#[trigger] lines[k]).minor == 0
                ==> whole_devices(lines).contains(disk_stats_of(lines[k])),
{
    let all = lines.map_values(|l: Seq<char>| disk_stats_of(l));
    let keep = |d: DiskStatsView| is_whole_device(d);
    assert forall|k: int| 0 <= k < whole_devices(lines).len() implies (#[trigger] whole_devices(
        lines,
    )[k]).minor == 0 by {
        all.lemma_filter_pred(keep, k);
    }
    assert forall|k: int|
        0 <= k < lines.len() && disk_stats_of(#[trigger] lines[k]).minor == 0 implies whole_devices(
        lines,
    ).contains(disk_stats_of(lines[k])) by {
        assert(all[k] == disk_stats_of(lines[k]));
        all.lemma_filter_contains_rev(keep, all[k]);
    }
}

/// The kind of a block device, by the kernel's naming: `sd*` devices are
/// SATA disks, `nvme*` NVMe namespaces and `mmcblk*` eMMC chips; any other
/// name (the management port's) is no local drive.
pub open spec fn device_kind(sys_name: Seq<char>) -> DriveParsingMethod {
    if "sd"@.is_prefix_of(sys_name) {
        DriveParsingMethod::SATA
    } else if "nvme"@.is_prefix_of(sys_name) {
        DriveParsingMethod::NVME
    } else if "mmcblk"@.is_prefix_of(sys_name) {
        DriveParsingMethod::EMMC
    } else {
        DriveParsingMethod::NETWORK
    }
}

/// Every slot is read by the rule of its device's kind: both SATA bays (the
/// `sd*` devices) by the SATA state rule, the four NVMe bays by the NVMe
/// state rule, the internal eMMC by its wear rule. The slot's own name says
/// the same: a `SATA*` slot is read as SATA, an `NVME*` slot as NVMe.
pub proof fn lemma_slot_kinds(i: int)
    requires
        0 <= i < SLOT_COUNT,
    ensures
        slot_spec(i).driver_parsing_method == device_kind(slot_spec(i).sys_name@),
        "SATA"@.is_prefix_of(slot_spec(i).slot_name@) ==> slot_spec(i).driver_parsing_method
            == DriveParsingMethod::SATA,
        "NVME"@.is_prefix_of(slot_spec(i).slot_name@) ==> slot_spec(i).driver_parsing_method
            == DriveParsingMethod::NVME,
{
    reveal_strlit("sd");
    reveal_strlit("nvme");
    reveal_strlit("mmcblk");
    reveal_strlit("SATA");
    reveal_strlit("NVME");
    reveal_strlit("MGMT");
    reveal_strlit("OS");
    reveal_strlit("SATA1");
    reveal_strlit("SATA2");
    reveal_strlit("NVME1");
    reveal_strlit("NVME2");
    reveal_strlit("NVME3");
    reveal_strlit("NVME4");
    reveal_strlit("TBD");
    reveal_strlit("mmcblk0");
    reveal_strlit("sda");
    reveal_strlit("sdb");
    reveal_strlit("nvme0n1");
    reveal_strlit("nvme1n1");
    reveal_strlit("nvme2n1");
    reveal_strlit("nvme3n1");
    let d = slot_spec(i).sys_name@;
    let n = slot_spec(i).slot_name@;
    if i == 2 || i == 3 {
        assert(d.subrange(0, 2) =~= "sd"@);
        assert(n.subrange(0, 4) =~= "SATA"@);
    } else if i >= 4 {
        assert(d.subrange(0, 2)[0] != "sd"@[0]);
        assert(d.subrange(0, 4) =~= "nvme"@);
        assert(n.subrange(0, 4) =~= "NVME"@);
    } else if i == 1 {
        assert(d.subrange(0, 2)[0] != "sd"@[0]);
        assert(d.subrange(0, 4)[0] != "nvme"@[0]);
        assert(d.subrange(0, 6) =~= "mmcblk"@);
    } else {
        assert(d.subrange(0, 2)[0] != "sd"@[0]);
        assert(n.subrange(0, 4)[0] != "SATA"@[0]);
        assert(n.subrange(0, 4)[0] != "NVME"@[0]);
    }
    if i == 1 {
        assert(n.subrange(0, 2)[0] != "SATA"@[0]);
        assert(n.subrange(0, 2)[0] != "NVME"@[0]);
    }
    if i == 2 || i == 3 {
        assert(n.subrange(0, 4)[0] != "NVME"@[0]);
    }
    if i >= 4 {
        assert(n.subrange(0, 4)[0] != "SATA"@[0]);
    }
}

/// The health of a device that a slot holds is read by the rule of the
/// device's kind.
pub proof fn lemma_status_by_device_kind(sys_name: Seq<char>, content: Option<Seq<char>>)
    requires
        slot_of_device(sys_name) is Some,
    ensures
        slot_status(slot_spec(slot_of_device(sys_name)->0).driver_parsing_method, content)
            == slot_status(device_kind(sys_name), content),
{
    let i = slot_of_device(sys_name)->0;
    lemma_slot_kinds(i);
}

/// A SATA disk (`sd*`) of a slot whose state file reads `running`, whatever
/// whitespace surrounds it, is healthy; an NVMe namespace of a slot whose
/// state reads `live` is healthy.
pub proof fn lemma_running_and_live(sys_name: Seq<char>, state: Seq<char>)
    requires
        slot_of_device(sys_name) is Some,
    ensures
        "sd"@.is_prefix_of(sys_name) && trim(state) == "running"@ ==> slot_status(
            slot_spec(slot_of_device(sys_name)->0).driver_parsing_method,
            Some(state),
        ) == DriveStatus::Healthy,
        "nvme"@.is_prefix_of(sys_name) && trim(state) == "live"@ ==> slot_status(
            slot_spec(slot_of_device(sys_name)->0).driver_parsing_method,
            Some(state),
        ) == DriveStatus::Healthy,
{
    reveal_strlit("sd");
    reveal_strlit("nvme");
    lemma_status_by_device_kind(sys_name, Some(state));
    if "nvme"@.is_prefix_of(sys_name) {
        assert(sys_name.subrange(0, 2)[0] != "sd"@[0]);
    }
}

} // verus!
