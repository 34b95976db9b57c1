//! FileStreamInformation: the chain of entries that lists a file's data
//! streams, and its truncation to whole entries.

use vstd::prelude::*;

use crate::info_class::FileInfo;
use crate::wire::{push_u32, push_u64, push_utf16, read_u32};

verus! {

/// Length of an entry in front of the stream's name.
pub const STREAM_ENTRY_HEADER_LEN: usize = 24;

/// The name of a file's unnamed data stream.
pub const PRIMARY_STREAM: &'static str = "::$DATA";

/// What follows the name of a named data stream.
pub const STREAM_SUFFIX: &'static str = ":$DATA";

/// A named data stream of a file, by its bare name.
#[derive(Debug, Clone)]
pub struct StreamInfo {
    pub name: String,
    pub size: u64,
    pub allocation_size: u64,
}

/// What one entry of the chain says; the name is in UTF-16LE.
pub ghost struct StreamEntry {
    pub name: Seq<u8>,
    pub size: u64,
    pub allocation_size: u64,
}

/// Length of an entry, without padding.
pub open spec fn entry_len(e: StreamEntry) -> int {
    STREAM_ENTRY_HEADER_LEN + e.name.len()
}

/// Length of an entry that another one follows: the next multiple of eight.
pub open spec fn padded_len(e: StreamEntry) -> int {
    (entry_len(e) + 7) / 8 * 8
}

/// An entry: the distance to the next one, the name's length in bytes, the
/// two sizes, the name.
pub open spec fn entry_bytes(e: StreamEntry, next: u32) -> Seq<u8> {
    crate::wire::le32(next) + crate::wire::le32(e.name.len() as u32) + crate::wire::le64(e.size)
        + crate::wire::le64(e.allocation_size) + e.name
}

/// An entry that another one follows, padded.
pub open spec fn padded_entry(e: StreamEntry) -> Seq<u8> {
    entry_bytes(e, padded_len(e) as u32) + Seq::new(
        (padded_len(e) - entry_len(e)) as nat,
        |i: int| 0u8,
    )
}

/// The chain of some entries: each points at the next one and is padded, but
/// for the last, whose distance to the next one is zero.
pub open spec fn chain(entries: Seq<StreamEntry>) -> Seq<u8>
    decreases entries.len(),
{
    if entries.len() == 0 {
        Seq::empty()
    } else if entries.len() == 1 {
        entry_bytes(entries[0], 0)
    } else {
        padded_entry(entries[0]) + chain(entries.drop_first())
    }
}

/// The entry of a file's unnamed data stream.
pub open spec fn primary_entry(info: FileInfo) -> StreamEntry {
    StreamEntry {
        name: crate::wire::utf16le(PRIMARY_STREAM@),
        size: info.end_of_file,
        allocation_size: info.allocation_size,
    }
}

/// The entry of a named data stream.
pub open spec fn named_entry(s: StreamInfo) -> StreamEntry {
    StreamEntry {
        name: crate::wire::utf16le(seq![':'] + s.name@ + STREAM_SUFFIX@),
        size: s.size,
        allocation_size: s.allocation_size,
    }
}

/// The entries of a file: the unnamed stream, then the named ones in order. A
/// backend that does not list streams has the first alone.
pub open spec fn stream_entries(info: FileInfo, streams: Option<Seq<StreamInfo>>) -> Seq<
    StreamEntry,
> {
    seq![primary_entry(info)] + match streams {
        Some(named) => named.map_values(|s: StreamInfo| named_entry(s)),
        None => Seq::empty(),
    }
}

/// Appends one entry to `out`, padded unless it is the last one.
fn push_entry(out: &mut Vec<u8>, name: &mut Vec<u8>, size: u64, allocation_size: u64, last: bool)
    ensures
        ({
            let e = StreamEntry { name: old(name)@, size, allocation_size };
            final(out)@ == old(out)@ + if last {
                entry_bytes(e, 0)
            } else {
                padded_entry(e)
            }
        }),
{
    let ghost e = StreamEntry { name: name@, size, allocation_size };
    let name_len: usize = name.len();
    let pad: usize = (8 - name_len % 8) % 8;
    assert(padded_len(e) - entry_len(e) == pad);
    let next: u32 = if last {
        0
    } else {
        (STREAM_ENTRY_HEADER_LEN as u128 + name_len as u128 + pad as u128) as u32
    };
    push_u32(out, next);
    push_u32(out, name_len as u32);
    push_u64(out, size);
    push_u64(out, allocation_size);
    out.append(name);
    assert(out@ =~= old(out)@ + entry_bytes(e, next));
    if !last {
        let ghost unpadded = out@;
        for i in 0..pad
            invariant
                out@ == unpadded + Seq::new(i as nat, |j: int| 0u8),
        {
            out.push(0);
            assert(out@ =~= unpadded + Seq::new((i + 1) as nat, |j: int| 0u8));
        }
        assert(out@ =~= old(out)@ + padded_entry(e));
    }
}

/// Encodes FileStreamInformation.
pub fn encode_file_stream_information(info: &FileInfo, streams: Option<&[StreamInfo]>) -> (out: Vec<
    u8,
>)
    ensures
        out@ == chain(
            stream_entries(
                *info,
                match streams {
                    Some(named) => Some(named@),
                    None => None,
                },
            ),
        ),
{
    let ghost entries = stream_entries(
        *info,
        match streams {
            Some(named) => Some(named@),
            None => None,
        },
    );
    let n: usize = match streams {
        Some(named) => named.len(),
        None => 0,
    };
    let mut out: Vec<u8> = Vec::new();
    let mut name: Vec<u8> = Vec::new();
    push_utf16(&mut name, PRIMARY_STREAM);
    push_entry(&mut out, &mut name, info.end_of_file, info.allocation_size, n == 0);
    assert(entries[0] == primary_entry(*info));
    if let Some(named) = streams {
        assert(entries.skip(1) =~= entries.drop_first());
        for i in 0..n
            invariant
                n == named@.len(),
                entries.len() == n + 1,
                forall|j: int| 0 <= j < n ==> entries[j + 1] == named_entry(#[trigger] named@[j]),
                i < n ==> out@ + chain(entries.skip(i + 1)) == chain(entries),
                i == n ==> out@ == chain(entries),
        {
            let stream = &named[i];
            let ghost rest = entries.skip(i + 1);
            assert(rest[0] == named_entry(named@[i as int]));
            assert(rest.drop_first() =~= entries.skip(i + 2));
            let mut name: Vec<u8> = Vec::new();
            crate::wire::push_utf16_char(&mut name, ':');
            push_utf16(&mut name, stream.name.as_str());
            push_utf16(&mut name, STREAM_SUFFIX);
            proof {
                named_stream_name(*stream);
                assert(name@ =~= named_entry(*stream).name);
            }
            let ghost before = out@;
            push_entry(&mut out, &mut name, stream.size, stream.allocation_size, i + 1 == n);
            assert(out@ + chain(rest.drop_first()) =~= before + chain(rest));
        }
    }
    out
}

proof fn named_stream_name(s: StreamInfo)
    ensures
        named_entry(s).name == crate::wire::utf16le_char(':') + crate::wire::utf16le(s.name@)
            + crate::wire::utf16le(STREAM_SUFFIX@),
{
    crate::wire::utf16le_of_concatenation(seq![':'] + s.name@, STREAM_SUFFIX@);
    crate::wire::utf16le_of_concatenation(seq![':'], s.name@);
    assert(seq![':'].drop_last() =~= Seq::<char>::empty());
    reveal_with_fuel(crate::wire::utf16le, 2);
    assert(crate::wire::utf16le(seq![':']) =~= crate::wire::utf16le_char(':'));
}

/// Where the entry at offset `at` ends, without padding.
pub open spec fn entry_end(full: Seq<u8>, at: int) -> int {
    at + STREAM_ENTRY_HEADER_LEN + crate::wire::le32_at(full, at + 4)
}

/// The last entry, from the one at `at` on, that is whole within `full` and
/// ends within the first `max` bytes: its offset and its end.
pub open spec fn last_whole_entry(full: Seq<u8>, max: int, at: int) -> Option<(int, int)>
    decreases vstd::math::max(full.len() - at, 0),
{
    if at + STREAM_ENTRY_HEADER_LEN > full.len() || entry_end(full, at) > full.len() || entry_end(
        full,
        at,
    ) > max {
        None
    } else {
        let next = crate::wire::le32_at(full, at);
        let further = if next == 0 {
            None
        } else {
            last_whole_entry(full, max, at + next)
        };
        match further {
            Some(found) => Some(found),
            None => Some((at, entry_end(full, at))),
        }
    }
}

/// The chain `full`, cut at `end`, with the entry at `at` as its last one.
pub open spec fn cut_after(full: Seq<u8>, at: int, end: int) -> Seq<u8> {
    full.subrange(0, at) + crate::wire::le32(0) + full.subrange(at + 4, end)
}

/// As many whole entries of the chain `full` as fit in `max` bytes, as a
/// terminated chain; `None` if not even the first fits.
pub open spec fn truncated(full: Seq<u8>, max: int) -> Option<Seq<u8>> {
    match last_whole_entry(full, max, 0) {
        Some((at, end)) => Some(cut_after(full, at, end)),
        None => None,
    }
}

/// Cuts a chain down to the whole entries that fit in `max` bytes, and
/// terminates it.
pub fn truncate_file_stream_information(full: &[u8], max: u32) -> (r: Option<Vec<u8>>)
    ensures
        r is Some <==> truncated(full@, max as int) is Some,
        r matches Some(partial) ==> {
            &&& Some(partial@) == truncated(full@, max as int)
            &&& STREAM_ENTRY_HEADER_LEN <= partial@.len() <= max
        },
{
    let len: usize = full.len();
    let mut found: Option<(usize, usize)> = None;
    let mut at: usize = 0;
    let ghost target = last_whole_entry(full@, max as int, 0);
    loop
        invariant_except_break
            target == match (last_whole_entry(full@, max as int, at as int), found) {
                (Some(further), _) => Some(further),
                (None, Some((a, e))) => Some((a as int, e as int)),
                (None, None) => None,
            },
        invariant
            len == full@.len(),
            found matches Some((a, e)) ==> a + STREAM_ENTRY_HEADER_LEN <= e <= len && e <= max,
        ensures
            target == match found {
                Some((a, e)) => Some((a as int, e as int)),
                None => None,
            },
        decreases vstd::math::max(len - at, 0),
    {
        if len < STREAM_ENTRY_HEADER_LEN || at > len - STREAM_ENTRY_HEADER_LEN {
            break;
        }
        let name_len: usize = read_u32(full, at + 4) as usize;
        if name_len > len - STREAM_ENTRY_HEADER_LEN - at {
            break;
        }
        let end: usize = at + STREAM_ENTRY_HEADER_LEN + name_len;
        if end > max as usize {
            break;
        }
        found = Some((at, end));
        let next: usize = read_u32(full, at) as usize;
        if next == 0 {
            break;
        }
        if next > len - at {
            assert(last_whole_entry(full@, max as int, at + next) is None);
            break;
        }
        at = at + next;
    }
    match found {
        None => None,
        Some((at, end)) => {
            let mut out: Vec<u8> = vstd::slice::slice_to_vec(
                vstd::slice::slice_subrange(full, 0, at),
            );
            push_u32(&mut out, 0);
            out.extend_from_slice(vstd::slice::slice_subrange(full, at + 4, end));
            assert(out@ =~= cut_after(full@, at as int, end as int));
            Some(out)
        },
    }
}

/// Offset of the `i`th entry of a chain.
spec fn entry_offset(entries: Seq<StreamEntry>, i: int) -> int
    decreases i,
{
    if i <= 0 {
        0
    } else {
        padded_len(entries[0]) + entry_offset(entries.drop_first(), i - 1)
    }
}

/// What reading the two length fields of an entry gives.
proof fn entry_reads_back(full: Seq<u8>, at: int, e: StreamEntry, next: u32)
    requires
        0 <= at,
        at + entry_len(e) <= full.len(),
        full.subrange(at, at + entry_len(e)) == entry_bytes(e, next),
        e.name.len() <= u32::MAX,
    ensures
        crate::wire::le32_at(full, at) == next,
        entry_end(full, at) == at + entry_len(e),
{
    let bytes = full.subrange(at, at + entry_len(e));
    let n = e.name.len() as u32;
    assert(full.subrange(at, at + 4) =~= bytes.subrange(0, 4));
    assert(bytes.subrange(0, 4) =~= crate::wire::le32(next));
    crate::wire::le32_reads_back(next, full, at);
    assert(full.subrange(at + 4, at + 8) =~= bytes.subrange(4, 8));
    assert(bytes.subrange(4, 8) =~= crate::wire::le32(n));
    crate::wire::le32_reads_back(n, full, at + 4);
}

/// Length and shape of a chain's first entries.
#[verifier::spinoff_prover]
#[verifier::rlimit(60)]
proof fn chain_of_prefix(entries: Seq<StreamEntry>, k: int)
    requires
        1 <= k <= entries.len(),
    ensures
        chain(entries.take(k)).len() == entry_offset(entries, k - 1) + entry_len(entries[k - 1]),
        0 <= entry_offset(entries, k - 1),
        entry_offset(entries, k - 1) + entry_len(entries[k - 1]) <= chain(entries).len(),
        chain(entries.take(k)) == cut_after(
            chain(entries),
            entry_offset(entries, k - 1),
            entry_offset(entries, k - 1) + entry_len(entries[k - 1]),
        ),
    decreases k,
{
    let first = entries[0];
    let rest = entries.drop_first();
    let whole = chain(entries);
    if k == 1 {
        assert(entries.take(1) =~= seq![first]);
        assert(chain(entries.take(1)) == entry_bytes(first, 0));
        let next: u32 = if entries.len() == 1 { 0 } else { padded_len(first) as u32 };
        assert(whole.subrange(0, entry_len(first)) =~= entry_bytes(first, next));
        assert(whole.subrange(4, entry_len(first)) =~= entry_bytes(first, next).subrange(
            4,
            entry_len(first),
        ));
        assert(entry_bytes(first, next).subrange(4, entry_len(first)) =~= entry_bytes(
            first,
            0,
        ).subrange(4, entry_len(first)));
        assert(chain(entries.take(1)) =~= cut_after(whole, 0, entry_len(first)));
    } else {
        chain_of_prefix(rest, k - 1);
        assert(entries.take(k).drop_first() =~= rest.take(k - 1));
        assert(entries.take(k)[0] == first);
        let p = padded_len(first);
        let at = entry_offset(rest, k - 2);
        let end = at + entry_len(rest[k - 2]);
        assert(padded_entry(first).len() == p);
        assert(whole == padded_entry(first) + chain(rest));
        assert(cut_after(whole, p + at, p + end) =~= padded_entry(first) + cut_after(
            chain(rest),
            at,
            end,
        ));
    }
}

/// Length of a chain's first entries, from its first entry and the rest.
#[verifier::spinoff_prover]
#[verifier::rlimit(60)]
proof fn prefix_len(entries: Seq<StreamEntry>, k: int)
    requires
        1 <= k <= entries.len(),
    ensures
        chain(entries.take(k)).len() == if k == 1 {
            entry_len(entries[0])
        } else {
            padded_len(entries[0]) + chain(entries.drop_first().take(k - 1)).len()
        },
        entry_len(entries[0]) <= chain(entries.take(k)).len(),
{
    let shorter = entries.take(k);
    assert(shorter[0] == entries[0]);
    if k > 1 {
        assert(shorter.drop_first() =~= entries.drop_first().take(k - 1));
        assert(padded_entry(entries[0]).len() == padded_len(entries[0]));
    }
}

/// The first entry of a chain that stands behind `before`.
#[verifier::spinoff_prover]
#[verifier::rlimit(60)]
proof fn first_entry_of_chain(before: Seq<u8>, entries: Seq<StreamEntry>)
    requires
        entries.len() > 0,
        entries[0].name.len() <= u32::MAX,
    ensures
        ({
            let full = before + chain(entries);
            let at = before.len() as int;
            &&& at + entry_len(entries[0]) <= full.len()
            &&& entry_end(full, at) == at + entry_len(entries[0])
            &&& crate::wire::le32_at(full, at) == if entries.len() == 1 {
                0
            } else {
                padded_len(entries[0]) as u32
            }
        }),
{
    let full = before + chain(entries);
    let at = before.len() as int;
    let first = entries[0];
    let next: u32 = if entries.len() == 1 { 0 } else { padded_len(first) as u32 };
    assert(full.subrange(at, at + entry_len(first)) =~= entry_bytes(first, next));
    entry_reads_back(full, at, first, next);
}

/// The chain behind its first entry.
#[verifier::spinoff_prover]
#[verifier::rlimit(60)]
proof fn rest_of_chain(before: Seq<u8>, entries: Seq<StreamEntry>)
    requires
        entries.len() > 1,
    ensures
        (before + padded_entry(entries[0])).len() == before.len() + padded_len(entries[0]),
        before + padded_entry(entries[0]) + chain(entries.drop_first()) == before + chain(entries),
{
    let first = padded_entry(entries[0]);
    assert(first.len() == padded_len(entries[0]));
    assert(before + first + chain(entries.drop_first()) =~= before + (first + chain(
        entries.drop_first(),
    )));
}

/// One step of the walk, at an entry that is whole.
proof fn walk_step(full: Seq<u8>, max: int, at: int, next: int, end: int)
    requires
        at + STREAM_ENTRY_HEADER_LEN <= full.len(),
        crate::wire::le32_at(full, at) == next,
        entry_end(full, at) == end,
        end <= full.len(),
    ensures
        last_whole_entry(full, max, at) == if end > max {
            None
        } else if next == 0 || last_whole_entry(full, max, at + next) is None {
            Some((at, end))
        } else {
            last_whole_entry(full, max, at + next)
        },
{
}

/// The first step of the walk over a chain that stands behind `before`.
#[verifier::spinoff_prover]
#[verifier::rlimit(60)]
proof fn walk_into_chain(before: Seq<u8>, entries: Seq<StreamEntry>, max: int)
    requires
        entries.len() > 0,
        entries[0].name.len() <= u32::MAX,
    ensures
        ({
            let full = before + chain(entries);
            let at = before.len() as int;
            let next: int = if entries.len() == 1 {
                0
            } else {
                (padded_len(entries[0]) as u32) as int
            };
            last_whole_entry(full, max, at) == if at + entry_len(entries[0]) > max {
                None
            } else if next == 0 || last_whole_entry(full, max, at + next) is None {
                Some((at, at + entry_len(entries[0])))
            } else {
                last_whole_entry(full, max, at + next)
            }
        }),
{
    let full = before + chain(entries);
    let at = before.len() as int;
    let next: int = if entries.len() == 1 { 0 } else { (padded_len(entries[0]) as u32) as int };
    first_entry_of_chain(before, entries);
    walk_step(full, max, at, next, at + entry_len(entries[0]));
}

/// An entry whose length fits in 32 bits, but not with its padding, has a
/// distance to the next one that is cut to zero.
proof fn overlong_distance_is_cut_to_zero(e: StreamEntry)
    requires
        entry_len(e) <= u32::MAX < padded_len(e),
    ensures
        padded_len(e) as u32 == 0,
{
    assert(padded_len(e) == 0x1_0000_0000);
    assert(0x1_0000_0000u64 as u32 == 0) by (bit_vector);
}

/// The walk over a chain that stands behind `before` finds the last entry
/// that ends within `max` bytes.
#[verifier::spinoff_prover]
#[verifier::rlimit(60)]
proof fn walk_over_chain(before: Seq<u8>, entries: Seq<StreamEntry>, max: u32, k: int)
    requires
        entries.len() > 0,
        0 <= k <= entries.len(),
        k > 0 ==> before.len() + chain(entries.take(k)).len() <= max,
        k < entries.len() ==> before.len() + chain(entries.take(k + 1)).len() > max,
        k < entries.len() ==> entries[k].name.len() <= u32::MAX,
    ensures
        last_whole_entry(before + chain(entries), max as int, before.len() as int) == if k == 0 {
            None
        } else {
            Some(
                (
                    before.len() + entry_offset(entries, k - 1),
                    before.len() + entry_offset(entries, k - 1) + entry_len(entries[k - 1]),
                ),
            )
        },
    decreases entries.len(),
{
    if k < entries.len() {
        prefix_len(entries, k + 1);
    }
    if k > 0 {
        prefix_len(entries, k);
    }
    walk_into_chain(before, entries, max as int);
    if k > 0 && entries.len() > 1 {
        if padded_len(entries[0]) > u32::MAX {
            // The next entry is out of reach of `max` as well.
            overlong_distance_is_cut_to_zero(entries[0]);
        } else {
            rest_of_chain(before, entries);
            walk_over_chain(
                before + padded_entry(entries[0]),
                entries.drop_first(),
                max,
                k - 1,
            );
        }
    }
}

/// The first entries of a listing take no more room than all of them.
pub proof fn law_listing_grows_with_its_entries(entries: Seq<StreamEntry>, k: int)
    requires
        1 <= k <= entries.len(),
    ensures
        chain(entries.take(k)).len() <= chain(entries).len(),
{
    chain_of_prefix(entries, k);
}

/// Truncation keeps the longest beginning of the listing that fits: cutting
/// the chain of some entries down to `max` bytes gives the chain of the first
/// `k` of them, where `k` is the greatest number for which that chain is at
/// most `max` bytes long. The entry behind them has a name whose length its
/// field can hold.
pub proof fn law_truncation_keeps_the_entries_that_fit(
    entries: Seq<StreamEntry>,
    max: u32,
    k: int,
)
    requires
        1 <= k <= entries.len(),
        chain(entries.take(k)).len() <= max,
        k < entries.len() ==> chain(entries.take(k + 1)).len() > max,
        k < entries.len() ==> entries[k].name.len() <= u32::MAX,
    ensures
        truncated(chain(entries), max as int) == Some(chain(entries.take(k))),
{
    walk_over_chain(Seq::empty(), entries, max, k);
    assert(Seq::<u8>::empty() + chain(entries) =~= chain(entries));
    chain_of_prefix(entries, k);
}

/// A buffer too small for the first entry gets nothing.
pub proof fn law_truncation_below_the_first_entry_is_none(entries: Seq<StreamEntry>, max: u32)
    requires
        entries.len() > 0,
        entries[0].name.len() <= u32::MAX,
        chain(entries.take(1)).len() > max,
    ensures
        truncated(chain(entries), max as int) is None,
{
    walk_over_chain(Seq::empty(), entries, max, 0);
    assert(Seq::<u8>::empty() + chain(entries) =~= chain(entries));
}

/// More room never loses a listing: what a chain can be cut down to in some
/// room, it can be cut down to or beyond in more.
pub proof fn law_truncation_grows_with_room(full: Seq<u8>, max: int, more: int)
    requires
        max <= more,
        truncated(full, max) is Some,
    ensures
        truncated(full, more) is Some,
{
}

/// What a chain is cut down to fits in the room.
pub proof fn law_truncation_fits(full: Seq<u8>, max: int)
    ensures
        truncated(full, max) matches Some(partial) ==> partial.len() <= max,
{
    last_whole_entry_is_within(full, max, 0);
}

proof fn last_whole_entry_is_within(full: Seq<u8>, max: int, at: int)
    requires
        0 <= at,
    ensures
        last_whole_entry(full, max, at) matches Some((a, e)) ==> 0 <= a && a
            + STREAM_ENTRY_HEADER_LEN <= e && e <= full.len() && e <= max,
    decreases vstd::math::max(full.len() - at, 0),
{
    if at + STREAM_ENTRY_HEADER_LEN <= full.len() && crate::wire::le32_at(full, at) != 0 {
        last_whole_entry_is_within(full, max, at + crate::wire::le32_at(full, at));
    }
}

/// A listing can be cut down to some room exactly if its first entry fits.
pub proof fn law_first_entry_decides(entries: Seq<StreamEntry>, max: u32)
    requires
        entries.len() > 0,
        entries[0].name.len() <= u32::MAX,
    ensures
        truncated(chain(entries), max as int) is Some <==> entry_len(entries[0]) <= max,
        entry_len(entries[0]) <= chain(entries).len(),
{
    first_entry_of_chain(Seq::empty(), entries);
    assert(Seq::<u8>::empty() + chain(entries) =~= chain(entries));
}

/// The entry of the unnamed stream is 38 bytes long.
pub proof fn law_primary_entry_len(info: FileInfo)
    ensures
        entry_len(primary_entry(info)) == 38,
{
    reveal_strlit("::$DATA");
    let text = PRIMARY_STREAM@;
    assert(text.len() == 7);
    crate::wire::ascii_takes_two_bytes(text);
}

// A listing as a client reads it: from the start, by the distances.

/// Where the `i`th entry behind the one at `at` begins, as a client finds it:
/// by adding up the distances in the first four bytes of the entries.
pub open spec fn entry_start(full: Seq<u8>, at: int, i: nat) -> int
    decreases i,
{
    if i == 0 {
        at
    } else {
        entry_start(full, at + crate::wire::le32_at(full, at), (i - 1) as nat)
    }
}

/// What an entry that stands in some bytes says.
#[verifier::spinoff_prover]
#[verifier::rlimit(60)]
proof fn entry_in_bytes(full: Seq<u8>, at: int, e: StreamEntry, next: u32)
    requires
        0 <= at,
        at + entry_len(e) <= full.len(),
        full.subrange(at, at + entry_len(e)) == entry_bytes(e, next),
        e.name.len() <= u32::MAX,
    ensures
        crate::wire::le32_at(full, at) == next,
        crate::wire::le32_at(full, at + 4) == e.name.len(),
        crate::wire::le64_at(full, at + 8) == e.size,
        crate::wire::le64_at(full, at + 16) == e.allocation_size,
        full.subrange(at + 24, at + 24 + e.name.len()) == e.name,
{
    let bytes = full.subrange(at, at + entry_len(e));
    entry_reads_back(full, at, e, next);
    assert(full.subrange(at + 8, at + 16) =~= bytes.subrange(8, 16));
    assert(bytes.subrange(8, 16) =~= crate::wire::le64(e.size));
    crate::wire::le64_reads_back(e.size, full, at + 8);
    assert(full.subrange(at + 16, at + 24) =~= bytes.subrange(16, 24));
    assert(bytes.subrange(16, 24) =~= crate::wire::le64(e.allocation_size));
    crate::wire::le64_reads_back(e.allocation_size, full, at + 16);
    assert(full.subrange(at + 24, at + 24 + e.name.len()) =~= bytes.subrange(24, entry_len(e)));
    assert(bytes.subrange(24, entry_len(e)) =~= e.name);
}

/// Whether an entry stands at `at`, complete, and is the last one or padded up
/// to the next.
#[verifier::opaque]
spec fn holds_entry(full: Seq<u8>, at: int, e: StreamEntry, last: bool) -> bool {
    &&& at + 24 + e.name.len() <= full.len()
    &&& crate::wire::le32_at(full, at + 4) == e.name.len()
    &&& crate::wire::le64_at(full, at + 8) == e.size
    &&& crate::wire::le64_at(full, at + 16) == e.allocation_size
    &&& full.subrange(at + 24, at + 24 + e.name.len()) == e.name
    &&& last ==> crate::wire::le32_at(full, at) == 0 && full.len() == at + 24 + e.name.len()
    &&& !last ==> {
        &&& at + padded_len(e) < full.len()
        &&& padded_len(e) <= u32::MAX ==> crate::wire::le32_at(full, at) == padded_len(e)
        &&& forall|p: int|
            at + 24 + e.name.len() <= p < at + padded_len(e) ==> #[trigger] full[p] == 0
    }
}

proof fn padding_is_short(e: StreamEntry)
    ensures
        padded_len(e) % 8 == 0,
        entry_len(e) <= padded_len(e) < entry_len(e) + 8,
        entry_len(e) <= 0xFFFF_FFF8 <==> padded_len(e) <= u32::MAX,
{
}

/// The first entry of a chain that stands behind `before`.
#[verifier::spinoff_prover]
#[verifier::rlimit(60)]
proof fn first_entry_is_held(before: Seq<u8>, entries: Seq<StreamEntry>)
    requires
        entries.len() > 0,
        entries[0].name.len() <= u32::MAX,
    ensures
        holds_entry(
            before + chain(entries),
            before.len() as int,
            entries[0],
            entries.len() == 1,
        ),
{
    let full = before + chain(entries);
    let at = before.len() as int;
    let first = entries[0];
    let next: u32 = if entries.len() == 1 { 0 } else { padded_len(first) as u32 };
    assert(full.subrange(at, at + entry_len(first)) =~= entry_bytes(first, next));
    entry_in_bytes(full, at, first, next);
    padding_is_short(first);
    if entries.len() > 1 {
        padding_is_zero(before, first, chain(entries.drop_first()));
        rest_of_chain(before, entries);
        some_entry_follows(entries.drop_first());
    }
    reveal(holds_entry);
}

proof fn some_entry_follows(entries: Seq<StreamEntry>)
    requires
        entries.len() > 0,
    ensures
        chain(entries).len() > 0,
{
}

#[verifier::spinoff_prover]
#[verifier::rlimit(60)]
proof fn padding_is_zero(before: Seq<u8>, e: StreamEntry, behind: Seq<u8>)
    ensures
        ({
            let full = before + padded_entry(e) + behind;
            forall|p: int|
                before.len() + entry_len(e) <= p < before.len() + padded_len(e) ==> #[trigger] full[p]
                    == 0
        }),
{
}

/// What a client finds of the `i`th entry of a chain that stands behind
/// `before`.
#[verifier::spinoff_prover]
#[verifier::rlimit(60)]
proof fn entry_of_chain(before: Seq<u8>, entries: Seq<StreamEntry>, i: nat)
    requires
        i < entries.len(),
        before.len() % 8 == 0,
        forall|j: int| 0 <= j < i ==> padded_len(#[trigger] entries[j]) <= u32::MAX,
        entries[i as int].name.len() <= u32::MAX,
    ensures
        ({
            let full = before + chain(entries);
            let at = entry_start(full, before.len() as int, i);
            &&& holds_entry(full, at, entries[i as int], i == entries.len() - 1)
            &&& at % 8 == 0
            &&& before.len() <= at
            &&& 0 < i ==> before.len() < at
        }),
    decreases i,
{
    if i == 0 {
        first_entry_is_held(before, entries);
    } else {
        let rest = entries.drop_first();
        assert(padded_len(entries[0]) <= u32::MAX);
        step_over_first_entry(before, entries, i);
        assert forall|j: int| 0 <= j < i - 1 implies padded_len(#[trigger] rest[j])
            <= u32::MAX by {
            assert(rest[j] == entries[j + 1]);
        }
        entry_of_chain(before + padded_entry(entries[0]), rest, (i - 1) as nat);
    }
}

/// The entries behind the first are found from behind the first.
#[verifier::spinoff_prover]
#[verifier::rlimit(60)]
proof fn step_over_first_entry(before: Seq<u8>, entries: Seq<StreamEntry>, i: nat)
    requires
        0 < i,
        1 < entries.len(),
        before.len() % 8 == 0,
        padded_len(entries[0]) <= u32::MAX,
    ensures
        ({
            let full = before + chain(entries);
            let further = before + padded_entry(entries[0]);
            &&& further + chain(entries.drop_first()) == full
            &&& further.len() % 8 == 0
            &&& before.len() < further.len()
            &&& entry_start(full, before.len() as int, i) == entry_start(
                full,
                further.len() as int,
                (i - 1) as nat,
            )
        }),
{
    let full = before + chain(entries);
    first_entry_is_held(before, entries);
    assert(crate::wire::le32_at(full, before.len() as int) == padded_len(entries[0])) by {
        reveal(holds_entry);
    }
    padding_is_short(entries[0]);
    rest_of_chain(before, entries);
}

/// A listing names every named stream: its entries, as a client finds them, are
/// the unnamed stream and then the named ones, in the order in which they were
/// given, each with its own name, length and allocation. Entries begin at
/// multiples of eight with zeros in between, the last one says that none
/// follows, and the listing ends with it. The entries have lengths that their
/// 32-bit fields can hold.
#[verifier::spinoff_prover]
#[verifier::rlimit(60)]
pub proof fn law_listing_names_every_stream(
    info: FileInfo,
    named: &[StreamInfo],
    out: Vec<u8>,
    i: nat,
)
    requires
        call_ensures(encode_file_stream_information, (&info, Some(named)), out),
        i < named@.len(),
        forall|j: int|
            0 <= j < i ==> 38 + crate::wire::utf16le((#[trigger] named@[j]).name@).len()
                <= 0xFFFF_FFF8,
        14 + crate::wire::utf16le(named@[i as int].name@).len() <= u32::MAX,
    ensures
        ({
            let full = out@;
            let stream = named@[i as int];
            let name = crate::wire::utf16le(seq![':'] + stream.name@ + ":$DATA"@);
            let at = entry_start(full, 0, i + 1);
            &&& 0 < at
            &&& at % 8 == 0
            &&& at + 24 + name.len() <= full.len()
            &&& crate::wire::le32_at(full, at + 4) == name.len()
            &&& crate::wire::le64_at(full, at + 8) == stream.size
            &&& crate::wire::le64_at(full, at + 16) == stream.allocation_size
            &&& full.subrange(at + 24, at + 24 + name.len()) == name
            &&& i == named@.len() - 1 ==> crate::wire::le32_at(full, at) == 0 && full.len() == at
                + 24 + name.len()
            &&& i < named@.len() - 1 && 24 + name.len() <= 0xFFFF_FFF8 ==> {
                let distance = crate::wire::le32_at(full, at);
                &&& distance % 8 == 0
                &&& 24 + name.len() <= distance < 24 + name.len() + 8
                &&& forall|p: int|
                    at + 24 + name.len() <= p < at + distance ==> #[trigger] full[p] == 0
            }
        }),
{
    let entries = stream_entries(info, Some(named@));
    let e = named_entry(named@[i as int]);
    assert(entries[0] == primary_entry(info));
    law_primary_entry_len(info);
    assert forall|j: int| 0 <= j < i + 1 implies padded_len(#[trigger] entries[j])
        <= u32::MAX by {
        if j > 0 {
            assert(entries[j] == named_entry(named@[j - 1]));
            named_entry_len(named@[j - 1]);
        }
        padding_is_short(entries[j]);
    }
    assert(entries[i as int + 1] == e);
    named_entry_len(named@[i as int]);
    padding_is_short(e);
    entry_of_chain(Seq::empty(), entries, i + 1);
    assert(Seq::<u8>::empty() + chain(entries) =~= out@);
    reveal(holds_entry);
}

/// The entry of a named stream has a name 14 bytes longer than the stream's.
pub proof fn named_entry_len(s: StreamInfo)
    ensures
        named_entry(s).name.len() == 14 + crate::wire::utf16le(s.name@).len(),
{
    named_stream_name(s);
    reveal_strlit(":$DATA");
    crate::wire::ascii_takes_two_bytes(STREAM_SUFFIX@);
}

/// A listing begins with the unnamed stream, whatever else it names: with the
/// file's own length and allocation. It is all of the listing where there are
/// no named streams, or the backend lists none.
#[verifier::spinoff_prover]
#[verifier::rlimit(60)]
pub proof fn law_listing_begins_with_the_unnamed_stream(
    info: FileInfo,
    streams: Option<&[StreamInfo]>,
    out: Vec<u8>,
)
    requires
        call_ensures(encode_file_stream_information, (&info, streams), out),
    ensures
        ({
            let full = out@;
            let alone = match streams {
                Some(named) => named@.len() == 0,
                None => true,
            };
            &&& full.len() >= 38
            &&& crate::wire::le32_at(full, 0) == if alone { 0int } else { 40 }
            &&& crate::wire::le32_at(full, 4) == 14
            &&& crate::wire::le64_at(full, 8) == info.end_of_file
            &&& crate::wire::le64_at(full, 16) == info.allocation_size
            &&& full.subrange(24, 38) == crate::wire::utf16le("::$DATA"@)
            &&& alone ==> full.len() == 38
            &&& !alone ==> full.len() > 40 && full[38] == 0 && full[39] == 0
        }),
{
    let entries = stream_entries(
        info,
        match streams {
            Some(named) => Some(named@),
            None => None,
        },
    );
    assert(entries[0] == primary_entry(info));
    assert(primary_entry(info).name.len() == 14) by {
        law_primary_entry_len(info);
    }
    first_entry_is_held(Seq::empty(), entries);
    assert(Seq::<u8>::empty() + chain(entries) =~= out@);
    unnamed_entry_as_read(out@, info, entries.len() == 1);
}

#[verifier::spinoff_prover]
#[verifier::rlimit(60)]
proof fn unnamed_entry_as_read(full: Seq<u8>, info: FileInfo, alone: bool)
    requires
        holds_entry(full, 0, primary_entry(info), alone),
    ensures
        full.len() >= 38,
        crate::wire::le32_at(full, 0) == if alone { 0int } else { 40 },
        crate::wire::le32_at(full, 4) == 14,
        crate::wire::le64_at(full, 8) == info.end_of_file,
        crate::wire::le64_at(full, 16) == info.allocation_size,
        full.subrange(24, 38) == crate::wire::utf16le("::$DATA"@),
        alone ==> full.len() == 38,
        !alone ==> full.len() > 40 && full[38] == 0 && full[39] == 0,
{
    law_primary_entry_len(info);
    padding_is_short(primary_entry(info));
    assert(padded_len(primary_entry(info)) == 40);
    reveal(holds_entry);
}

/// Whether an entry begins at `at` that is whole and ends within `max` bytes.
pub open spec fn is_whole_entry(full: Seq<u8>, max: int, at: int) -> bool {
    &&& at + 24 <= full.len()
    &&& at + 24 + crate::wire::le32_at(full, at + 4) <= full.len()
    &&& at + 24 + crate::wire::le32_at(full, at + 4) <= max
}

/// Whether the `i`th entry from `at` on is the last one that can be kept: it
/// and all before it are whole and within `max` bytes, and it is the last, or
/// the next one is not.
pub open spec fn is_last_to_keep(full: Seq<u8>, max: int, at: int, i: nat) -> bool {
    let last = entry_start(full, at, i);
    &&& forall|j: nat| j <= i ==> is_whole_entry(full, max, #[trigger] entry_start(full, at, j))
    &&& forall|j: nat|
        j < i ==> crate::wire::le32_at(full, #[trigger] entry_start(full, at, j)) != 0
    &&& crate::wire::le32_at(full, last) == 0 || !is_whole_entry(
        full,
        max,
        last + crate::wire::le32_at(full, last),
    )
}

/// Truncation, by the bytes, of whatever it is given: it keeps the entries from
/// the first to the last that is whole and within the room, byte for byte, but
/// that the last one kept then says that none follows. There is nothing to keep
/// exactly if the first is not whole or not within the room.
#[verifier::spinoff_prover]
#[verifier::rlimit(60)]
pub proof fn law_truncation_cuts_behind_an_entry(full: &[u8], max: u32, r: Option<Vec<u8>>)
    requires
        call_ensures(truncate_file_stream_information, (full, max), r),
    ensures
        r is Some <==> is_whole_entry(full@, max as int, 0),
        r matches Some(partial) ==> exists|i: nat| #[trigger]
            is_last_to_keep(full@, max as int, 0, i) && {
                let at = entry_start(full@, 0, i);
                &&& partial@.len() == at + 24 + crate::wire::le32_at(full@, at + 4)
                &&& partial@.len() <= max
                &&& crate::wire::le32_at(partial@, at) == 0
                &&& forall|p: int|
                    0 <= p < partial@.len() && !(at <= p < at + 4) ==> #[trigger] partial@[p]
                        == full@[p]
            },
{
    let m = max as int;
    if let Some(partial) = r {
        let (at, end) = last_whole_entry(full@, m, 0)->0;
        last_entry_is_found(full@, m, 0);
        last_whole_entry_is_within(full@, m, 0);
        let i = choose|i: nat| #[trigger]
            is_last_to_keep(full@, m, 0, i) && entry_start(full@, 0, i) == at;
        assert(is_whole_entry(full@, m, entry_start(full@, 0, i)));
        assert(partial@ == cut_after(full@, at, end));
        assert(partial@.subrange(at, at + 4) =~= crate::wire::le32(0));
        crate::wire::le32_reads_back(0, partial@, at);
    }
}

#[verifier::spinoff_prover]
#[verifier::rlimit(60)]
proof fn last_entry_is_found(full: Seq<u8>, max: int, at: int)
    requires
        0 <= at,
        last_whole_entry(full, max, at) is Some,
    ensures
        ({
            let (last, end) = last_whole_entry(full, max, at)->0;
            &&& end == last + 24 + crate::wire::le32_at(full, last + 4)
            &&& exists|i: nat| #[trigger]
                is_last_to_keep(full, max, at, i) && entry_start(full, at, i) == last
        }),
    decreases vstd::math::max(full.len() - at, 0),
{
    let next = crate::wire::le32_at(full, at);
    let (last, end) = last_whole_entry(full, max, at)->0;
    if next != 0 && last_whole_entry(full, max, at + next) is Some {
        last_entry_is_found(full, max, at + next);
        let k = choose|i: nat| #[trigger]
            is_last_to_keep(full, max, at + next, i) && entry_start(full, at + next, i) == last;
        let i = k + 1;
        assert(entry_start(full, at, i) == entry_start(full, at + next, k));
        assert forall|j: nat| j <= i implies is_whole_entry(
            full,
            max,
            #[trigger] entry_start(full, at, j),
        ) by {
            if j > 0 {
                assert(entry_start(full, at, j) == entry_start(full, at + next, (j - 1) as nat));
            }
        }
        assert forall|j: nat| j < i implies crate::wire::le32_at(
            full,
            #[trigger] entry_start(full, at, j),
        ) != 0 by {
            if j > 0 {
                assert(entry_start(full, at, j) == entry_start(full, at + next, (j - 1) as nat));
            }
        }
        assert(is_last_to_keep(full, max, at, i));
    } else {
        assert(entry_start(full, at, 0) == at);
        assert(is_last_to_keep(full, max, at, 0));
    }
}

/// A listing that is cut is the listing of fewer streams: of the first that
/// fit, as many as there is room for. The first stream that does not fit has a
/// name whose length its field can hold.
#[verifier::spinoff_prover]
#[verifier::rlimit(60)]
pub proof fn law_cut_listing_is_a_shorter_listing(
    info: FileInfo,
    named: &[StreamInfo],
    fewer: &[StreamInfo],
    one_more: &[StreamInfo],
    full: &[u8],
    whole: Vec<u8>,
    part: Vec<u8>,
    over: Vec<u8>,
    max: u32,
    r: Option<Vec<u8>>,
)
    requires
        call_ensures(encode_file_stream_information, (&info, Some(named)), whole),
        call_ensures(encode_file_stream_information, (&info, Some(fewer)), part),
        call_ensures(encode_file_stream_information, (&info, Some(one_more)), over),
        fewer@.len() < named@.len(),
        fewer@ == named@.take(fewer@.len() as int),
        one_more@ == named@.take(fewer@.len() as int + 1),
        part@.len() <= max < over@.len(),
        14 + crate::wire::utf16le(named@[fewer@.len() as int].name@).len() <= u32::MAX,
        full@ == whole@,
        call_ensures(truncate_file_stream_information, (full, max), r),
    ensures
        r is Some,
        r->0@ == part@,
{
    let k = fewer@.len() as int;
    let entries = stream_entries(info, Some(named@));
    entries_of_fewer_streams(info, named@, k);
    entries_of_fewer_streams(info, named@, k + 1);
    assert(entries[k + 1] == named_entry(named@[k]));
    named_entry_len(named@[k]);
    law_truncation_keeps_the_entries_that_fit(entries, max, k + 1);
}

/// The entries of the first streams are the first entries of all.
pub proof fn entries_of_fewer_streams(info: FileInfo, named: Seq<StreamInfo>, k: int)
    requires
        0 <= k <= named.len(),
    ensures
        stream_entries(info, Some(named.take(k))) == stream_entries(info, Some(named)).take(k + 1),
{
}

} // verus!
