//! What the app has put on disk, and how it says so.

use crate::text;
use crate::tiles::bbox::{nearest, round53, round_up_to};
use crate::tiles::disk::{
    cap_or, tile_cache_bytes, volume_cache_bytes, CacheCaps, DISK_CACHE_BYTES, SMALL_CACHE_BYTES,
    VOLUME_CACHE_BYTES,
};
use vstd::prelude::*;

verus! {

/// One row of the storage report.
#[derive(Debug)]
pub struct Entry {
    pub label: &'static str,
    /// The directory under the cache root; empty for the root itself.
    pub path: &'static str,
    pub bytes: u64,
    /// The cap this is trimmed to at startup, if it has one.
    pub cap: Option<u64>,
}

/// The directories that are measured, in the order of the report.
pub const DIRECTORIES: [&'static str; 6] = [
    "tiles",
    "vector",
    "volumes",
    "zones",
    "raob",
    "snapshots",
];

/// What the report says of the cache at place `i`, with these caps: its heading and its cap.
pub open spec fn row(i: int, caps: CacheCaps) -> (Seq<char>, Seq<char>, Option<u64>) {
    let tiles = cap_or(caps.tile, DISK_CACHE_BYTES);
    let volumes = cap_or(caps.volume, VOLUME_CACHE_BYTES);
    if i == 0 {
        ("Map tiles"@, "tiles"@, Some(tiles))
    } else if i == 1 {
        ("Vector tiles"@, "vector"@, Some(tiles))
    } else if i == 2 {
        ("Radar volumes"@, "volumes"@, Some(volumes))
    } else if i == 3 {
        ("Zone geometry"@, "zones"@, Some(SMALL_CACHE_BYTES))
    } else if i == 4 {
        ("Soundings (RAOB)"@, "raob"@, Some(SMALL_CACHE_BYTES))
    } else if i == 5 {
        ("Server snapshots"@, "snapshots"@, Some(SMALL_CACHE_BYTES))
    } else {
        ("Other cached files"@, ""@, None)
    }
}

/// The report: every cache with what it takes, and one row for the loose files in the root.
/// `sizes` holds what each of [`DIRECTORIES`] takes, and at its end what the loose files take.
pub fn report(caps: &CacheCaps, sizes: [u64; 7]) -> (r: Vec<Entry>)
    ensures
        r@.len() == 7,
        forall|i: int|
            0 <= i < 7 ==> (#[trigger] r@[i]).bytes == sizes@[i] && (
                r@[i].label@,
                r@[i].path@,
                r@[i].cap,
            ) == row(i, *caps),
{
    let tiles = tile_cache_bytes(caps);
    let volumes = volume_cache_bytes(caps);
    let mut out: Vec<Entry> = Vec::new();
    out.push(Entry { label: "Map tiles", path: "tiles", bytes: sizes[0], cap: Some(tiles) });
    out.push(Entry { label: "Vector tiles", path: "vector", bytes: sizes[1], cap: Some(tiles) });
    out.push(Entry { label: "Radar volumes", path: "volumes", bytes: sizes[2], cap: Some(volumes) });
    out.push(
        Entry { label: "Zone geometry", path: "zones", bytes: sizes[3], cap: Some(SMALL_CACHE_BYTES) },
    );
    out.push(
        Entry {
            label: "Soundings (RAOB)",
            path: "raob",
            bytes: sizes[4],
            cap: Some(SMALL_CACHE_BYTES),
        },
    );
    out.push(
        Entry {
            label: "Server snapshots",
            path: "snapshots",
            bytes: sizes[5],
            cap: Some(SMALL_CACHE_BYTES),
        },
    );
    out.push(Entry { label: "Other cached files", path: "", bytes: sizes[6], cap: None });
    out
}

/// The unit that a size is said in: how many bytes it has, and its name.
pub open spec fn unit_of(bytes: u64) -> (nat, Seq<char>) {
    if bytes < 1_048_576 {
        (1024nat, " KB"@)
    } else if bytes < 1_073_741_824 {
        (1_048_576nat, " MB"@)
    } else {
        (1_073_741_824nat, " GB"@)
    }
}

/// Bytes as something a person reads: in the largest unit of which there is at least one, with one
/// decimal. Sizes are binary64 numbers here, so past 53 bits they are rounded before they are
/// divided.
pub open spec fn human_text(bytes: u64) -> Seq<char> {
    if bytes < 1024 {
        text::decimal_text(bytes as nat) + " B"@
    } else {
        let tenths = nearest(round53(bytes as nat) * 10, unit_of(bytes).0);
        text::decimal_text(tenths / 10) + "."@ + seq![text::digit_char((tenths % 10) as int)]
            + unit_of(bytes).1
    }
}

/// Bytes as something a person reads.
pub fn human(bytes: u64) -> (r: String)
    ensures
        r@ == human_text(bytes),
{
    if bytes < 1024 {
        let mut s = text::decimal(bytes);
        s.append(" B");
        return s;
    }
    let (unit, name): (u128, &'static str) = if bytes < 1_048_576 {
        (1024, " KB")
    } else if bytes < 1_073_741_824 {
        (1_048_576, " MB")
    } else {
        (1_073_741_824, " GB")
    };
    let v: u128 = round_up_to(bytes as u128);
    proof {
        crate::tiles::bbox::lemma_round_bound(bytes as nat);
    }
    let q: u128 = v * 10 / unit;
    let rem: u128 = v * 10 % unit;
    let tenths: u128 = if rem > unit - rem || (rem == unit - rem && q % 2 == 1) {
        q + 1
    } else {
        q
    };
    assert(tenths == nearest(round53(bytes as nat) * 10, unit as nat));
    let mut s = text::decimal((tenths / 10) as u64);
    s.append(".");
    s.push(text::digit((tenths % 10) as u8));
    s.append(name);
    assert(s@ =~= human_text(bytes));
    s
}

proof fn lemma_small_is_exact(n: nat)
    requires
        n < 0x20_0000_0000_0000,
    ensures
        round53(n) == n,
{
    assert(crate::tiles::bbox::excess(n) == 0);
    assert(crate::tiles::bbox::two(0) == 1);
    assert(nearest(n, 1) == n);
}

/// A size is said in the largest unit of which there is one: kilobytes from 1024 bytes, megabytes
/// from 1024 of those, gigabytes from 1024 of those. A size of so many tenths of its unit is said
/// exactly.
pub proof fn sizes_are_said_in_their_unit(bytes: u64, tenths: nat)
    requires
        bytes < 0x20_0000_0000_0000,
    ensures
        bytes < 1_024 ==> human_text(bytes) == text::decimal_text(bytes as nat) + " B"@,
        1_024 <= bytes < 1_048_576 && bytes * 10 == tenths * 1_024 ==> human_text(bytes)
            == text::decimal_text(tenths / 10) + "."@ + text::decimal_text(tenths % 10) + " KB"@,
        1_048_576 <= bytes < 1_073_741_824 && bytes * 10 == tenths * 1_048_576 ==> human_text(bytes)
            == text::decimal_text(tenths / 10) + "."@ + text::decimal_text(tenths % 10) + " MB"@,
        1_073_741_824 <= bytes && bytes * 10 == tenths * 1_073_741_824 ==> human_text(bytes)
            == text::decimal_text(tenths / 10) + "."@ + text::decimal_text(tenths % 10) + " GB"@,
{
    lemma_small_is_exact(bytes as nat);
    let d = tenths % 10;
    assert(text::decimal_text(d) =~= seq![text::digit_char(d as int)]);
}

/// Every row of the report is of the directory at its place; the loose files have no directory and
/// no cap. Tiles of both kinds share a cap, which the user may set, and so may that of the volumes.
pub proof fn rows_are_of_their_directories(caps: CacheCaps, i: int)
    requires
        0 <= i < 7,
    ensures
        i < 6 ==> row(i, caps).1 == DIRECTORIES@[i]@,
        i < 6 <==> row(i, caps).2 is Some,
        row(0, caps).2 == row(1, caps).2,
        caps.tile > 0 ==> row(0, caps).2 == Some(caps.tile),
        caps.volume > 0 ==> row(2, caps).2 == Some(caps.volume),
        caps.tile == 0 ==> row(0, caps).2 == Some(524_288_000u64),
        caps.volume == 0 ==> row(2, caps).2 == Some(2_147_483_648u64),
        3 <= i < 6 ==> row(i, caps).2 == Some(52_428_800u64),
{
}

} // verus!
