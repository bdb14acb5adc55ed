//! Minimal Olympus MakerNote reader for tags that affect RAW rendering.
//!
//! Olympus ORF MakerNotes use a small TIFF-like IFD. The offsets in this block
//! are relative to the `OLYMPUS\0` signature, not to the file start.

use vstd::prelude::*;

verus! {

/// The signature that opens an Olympus MakerNote: `OLYMPUS\0II\x03\0`.
pub const OLYMPUS_MAKERNOTE_HEADER: [u8; 12] = [
    0x4f, 0x4c, 0x59, 0x4d, 0x50, 0x55, 0x53, 0x00, 0x49, 0x49, 0x03, 0x00,
];

/// Tag of the CameraSettings sub-IFD in the MakerNote's root IFD.
pub const CAMERA_SETTINGS_IFD: u16 = 0x2020;

/// Tag of PictureMode inside the CameraSettings IFD.
pub const PICTURE_MODE: u16 = 0x0520;

/// Size in bytes of one IFD entry: tag, type, count and value.
pub const IFD_ENTRY_SIZE: usize = 12;

// ---------------------------------------------------------------------------
// Specification
// ---------------------------------------------------------------------------

/// The MakerNote signature as a sequence of bytes.
pub open spec fn makernote_signature() -> Seq<u8> {
    seq![0x4fu8, 0x4c, 0x59, 0x4d, 0x50, 0x55, 0x53, 0x00, 0x49, 0x49, 0x03, 0x00]
}

/// The little-endian `u16` stored at `offset`, if both of its bytes are in `s`.
pub open spec fn u16_le_at(s: Seq<u8>, offset: int) -> Option<u16> {
    if 0 <= offset && offset + 2 <= s.len() {
        Some((s[offset] + 0x100 * s[offset + 1]) as u16)
    } else {
        None
    }
}

/// The little-endian `u32` stored at `offset`, if all four of its bytes are in `s`.
pub open spec fn u32_le_at(s: Seq<u8>, offset: int) -> Option<u32> {
    if 0 <= offset && offset + 4 <= s.len() {
        Some(
            (s[offset] + 0x100 * s[offset + 1] + 0x1_0000 * s[offset + 2] + 0x100_0000 * s[offset
                + 3]) as u32,
        )
    } else {
        None
    }
}

/// Walks the entries `index..count` of an IFD whose entries start at
/// `entries_start`: the value field (at byte 8 of the entry) of the first
/// entry tagged `wanted`, or `None` once an entry's tag cannot be read or no
/// entry is left.
pub open spec fn ifd_scan(
    s: Seq<u8>,
    entries_start: int,
    count: int,
    wanted: u16,
    index: int,
) -> Option<u32>
    decreases count - index,
{
    if index < count {
        let entry = entries_start + 12 * index;
        match u16_le_at(s, entry) {
            None => None,
            Some(tag) => if tag == wanted {
                u32_le_at(s, entry + 8)
            } else {
                ifd_scan(s, entries_start, count, wanted, index + 1)
            },
        }
    } else {
        None
    }
}

/// The value of the first entry tagged `wanted` in the IFD at `ifd_offset`.
/// The IFD opens with its entry count; a directory whose entries would end
/// past the largest `usize` yields `None`.
pub open spec fn ifd_entry_value(s: Seq<u8>, ifd_offset: int, wanted: u16) -> Option<u32> {
    match u16_le_at(s, ifd_offset) {
        None => None,
        Some(count) => if ifd_offset + 2 + 12 * count > usize::MAX {
            None
        } else {
            ifd_scan(s, ifd_offset + 2, count as int, wanted, 0)
        },
    }
}

/// The MakerNote signature occupies `s[i..i + 12]`.
pub open spec fn signature_at(s: Seq<u8>, i: int) -> bool {
    0 <= i && i + 12 <= s.len() && s.subrange(i, i + 12) == makernote_signature()
}

/// `i` is the first position of the signature in `s`.
pub open spec fn is_makernote_start(s: Seq<u8>, i: int) -> bool {
    signature_at(s, i) && forall|j: int| 0 <= j < i ==> !#[trigger] signature_at(s, j)
}

/// Where the MakerNote starts: the first occurrence of its signature.
pub open spec fn makernote_start(s: Seq<u8>) -> Option<int> {
    if exists|i: int| signature_at(s, i) {
        Some(choose|i: int| is_makernote_start(s, i))
    } else {
        None
    }
}

/// The Picture Mode recorded in a file: the MakerNote root IFD follows the
/// signature, its CameraSettings entry gives the CameraSettings IFD's offset
/// relative to the signature, and the low 16 bits of that IFD's PictureMode
/// value are the selected mode.
pub open spec fn picture_mode_of(s: Seq<u8>) -> Option<u16> {
    match makernote_start(s) {
        None => None,
        Some(start) => match ifd_entry_value(s, start + 12, CAMERA_SETTINGS_IFD) {
            None => None,
            Some(relative) => if start + relative > usize::MAX {
                None
            } else {
                match ifd_entry_value(s, start + relative, PICTURE_MODE) {
                    None => None,
                    Some(raw) => Some((raw % 0x1_0000) as u16),
                }
            },
        },
    }
}

/// The display name of a Picture Mode value.
pub open spec fn picture_mode_label(mode: u16) -> Option<Seq<char>> {
    if mode == 1 {
        Some("Vivid"@)
    } else if mode == 2 {
        Some("Natural"@)
    } else if mode == 3 {
        Some("Muted"@)
    } else if mode == 4 {
        Some("Portrait"@)
    } else if mode == 5 {
        Some("i-Enhance"@)
    } else if mode == 6 {
        Some("e-Portrait"@)
    } else if mode == 7 {
        Some("Color Creator"@)
    } else if mode == 8 {
        Some("Underwater"@)
    } else if mode == 9 {
        Some("Color Profile 1"@)
    } else if mode == 10 {
        Some("Color Profile 2"@)
    } else if mode == 11 {
        Some("Color Profile 3"@)
    } else if mode == 12 {
        Some("Monochrome Profile 1"@)
    } else if mode == 13 {
        Some("Monochrome Profile 2"@)
    } else if mode == 14 {
        Some("Monochrome Profile 3"@)
    } else if mode == 17 {
        Some("Art Mode"@)
    } else if mode == 18 {
        Some("Monochrome Profile 4"@)
    } else if mode == 256 {
        Some("Monotone"@)
    } else if mode == 512 {
        Some("Sepia"@)
    } else {
        None
    }
}

// ---------------------------------------------------------------------------
// Implementation
// ---------------------------------------------------------------------------

/// Reads the little-endian `u16` at `offset`; `None` when it does not fit in `bytes`.
pub fn read_u16_le(bytes: &[u8], offset: usize) -> (value: Option<u16>)
    ensures
        value == u16_le_at(bytes@, offset as int),
{
    if offset < bytes.len() && bytes.len() - offset >= 2 {
        Some(bytes[offset] as u16 + 0x100 * bytes[offset + 1] as u16)
    } else {
        None
    }
}

/// Reads the little-endian `u32` at `offset`; `None` when it does not fit in `bytes`.
pub fn read_u32_le(bytes: &[u8], offset: usize) -> (value: Option<u32>)
    ensures
        value == u32_le_at(bytes@, offset as int),
{
    if offset < bytes.len() && bytes.len() - offset >= 4 {
        Some(
            bytes[offset] as u32 + 0x100 * bytes[offset + 1] as u32 + 0x1_0000 * bytes[offset
                + 2] as u32 + 0x100_0000 * bytes[offset + 3] as u32,
        )
    } else {
        None
    }
}

/// Looks up `wanted_tag` in the IFD at `ifd_offset` and returns the value
/// field of its first entry.
pub fn find_ifd_entry_value(bytes: &[u8], ifd_offset: usize, wanted_tag: u16) -> (value: Option<
    u32,
>)
    ensures
        value == ifd_entry_value(bytes@, ifd_offset as int, wanted_tag),
{
    let entry_count = read_u16_le(bytes, ifd_offset)? as usize;
    let entries_start = ifd_offset.checked_add(2)?;
    let entries_length = entry_count.checked_mul(IFD_ENTRY_SIZE)?;
    let entries_end = entries_start.checked_add(entries_length)?;

    let mut index: usize = 0;
    let mut entry_offset: usize = entries_start;
    while index < entry_count
        invariant
            index <= entry_count,
            entry_offset == entries_start + 12 * index,
            entries_end == entries_start + 12 * entry_count,
            ifd_scan(bytes@, entries_start as int, entry_count as int, wanted_tag, index as int)
                == ifd_entry_value(bytes@, ifd_offset as int, wanted_tag),
        decreases entry_count - index,
    {
        if read_u16_le(bytes, entry_offset)? == wanted_tag {
            return read_u32_le(bytes, entry_offset + 8);
        }
        index += 1;
        entry_offset += IFD_ENTRY_SIZE;
    }
    None
}

/// Whether the MakerNote signature occupies `bytes[start..start + 12]`.
fn signature_matches_at(bytes: &[u8], start: usize) -> (found: bool)
    requires
        start + 12 <= bytes@.len(),
    ensures
        found == signature_at(bytes@, start as int),
{
    assert(OLYMPUS_MAKERNOTE_HEADER@ =~= makernote_signature());
    let len = bytes.len();
    let mut k: usize = 0;
    while k < 12
        invariant
            start + 12 <= bytes@.len(),
            len == bytes@.len(),
            k <= 12,
            OLYMPUS_MAKERNOTE_HEADER@ == makernote_signature(),
            forall|j: int| 0 <= j < k ==> bytes@[start + j] == makernote_signature()[j],
        decreases 12 - k,
    {
        if bytes[start + k] != OLYMPUS_MAKERNOTE_HEADER[k] {
            assert(bytes@.subrange(start as int, start + 12)[k as int] != makernote_signature()[k as int]);
            return false;
        }
        k += 1;
    }
    assert(bytes@.subrange(start as int, start + 12) =~= makernote_signature());
    true
}

/// The position of the first MakerNote signature in `bytes`.
fn locate_makernote(bytes: &[u8]) -> (start: Option<usize>)
    ensures
        match start {
            Some(i) => makernote_start(bytes@) == Some(i as int),
            None => makernote_start(bytes@) is None,
        },
{
    let ghost s = bytes@;
    if bytes.len() < OLYMPUS_MAKERNOTE_HEADER.len() {
        assert(!exists|i: int| signature_at(s, i));
        return None;
    }
    let last = bytes.len() - OLYMPUS_MAKERNOTE_HEADER.len();
    let mut i: usize = 0;
    while i <= last
        invariant
            last + 12 == s.len(),
            s.len() <= usize::MAX,
            s == bytes@,
            forall|j: int| 0 <= j < i ==> !#[trigger] signature_at(s, j),
        decreases last + 1 - i,
    {
        if signature_matches_at(bytes, i) {
            proof {
                lemma_start_unique(s, i as int);
            }
            return Some(i);
        }
        i += 1;
    }
    assert(!exists|j: int| signature_at(s, j)) by {
        assert forall|j: int| !signature_at(s, j) by {
            if 0 <= j < i {
            }
        }
    }
    None
}

/// Reads Olympus CameraSettings.PictureMode (tag 0x0520) from an ORF.
/// The first `u16` is the selected Picture Mode; the optional second value
/// describes an auto-override state and isn't relevant to the rendering choice.
pub fn picture_mode(file_bytes: &[u8]) -> (mode: Option<u16>)
    ensures
        mode == picture_mode_of(file_bytes@),
{
    let maker_start = locate_makernote(file_bytes)?;
    let root_ifd_offset = maker_start.checked_add(OLYMPUS_MAKERNOTE_HEADER.len())?;
    let camera_settings_offset = find_ifd_entry_value(
        file_bytes,
        root_ifd_offset,
        CAMERA_SETTINGS_IFD,
    )?;
    let camera_ifd_offset = maker_start.checked_add(camera_settings_offset as usize)?;
    let raw_mode = find_ifd_entry_value(file_bytes, camera_ifd_offset, PICTURE_MODE)?;
    assert(raw_mode & 0xffff == raw_mode % 0x1_0000) by (bit_vector);
    Some((raw_mode & 0xffff) as u16)
}

/// The display name of a Picture Mode value, or `None` for an unknown one.
pub fn picture_mode_name(mode: u16) -> (name: Option<&'static str>)
    ensures
        match name {
            Some(text) => picture_mode_label(mode) == Some(text@),
            None => picture_mode_label(mode) is None,
        },
{
    match mode {
        1 => Some("Vivid"),
        2 => Some("Natural"),
        3 => Some("Muted"),
        4 => Some("Portrait"),
        5 => Some("i-Enhance"),
        6 => Some("e-Portrait"),
        7 => Some("Color Creator"),
        8 => Some("Underwater"),
        9 => Some("Color Profile 1"),
        10 => Some("Color Profile 2"),
        11 => Some("Color Profile 3"),
        12 => Some("Monochrome Profile 1"),
        13 => Some("Monochrome Profile 2"),
        14 => Some("Monochrome Profile 3"),
        17 => Some("Art Mode"),
        18 => Some("Monochrome Profile 4"),
        256 => Some("Monotone"),
        512 => Some("Sepia"),
        _ => None,
    }
}


// ---------------------------------------------------------------------------
// Laws
// ---------------------------------------------------------------------------

proof fn lemma_reads_extend(s: Seq<u8>, t: Seq<u8>, offset: int)
    ensures
        u16_le_at(s, offset) is Some ==> u16_le_at(s + t, offset) == u16_le_at(s, offset),
        u32_le_at(s, offset) is Some ==> u32_le_at(s + t, offset) == u32_le_at(s, offset),
{
    if u16_le_at(s, offset) is Some {
        assert((s + t)[offset] == s[offset]);
        assert((s + t)[offset + 1] == s[offset + 1]);
    }
    if u32_le_at(s, offset) is Some {
        assert((s + t)[offset] == s[offset]);
        assert((s + t)[offset + 1] == s[offset + 1]);
        assert((s + t)[offset + 2] == s[offset + 2]);
        assert((s + t)[offset + 3] == s[offset + 3]);
    }
}

proof fn lemma_reads_shift(p: Seq<u8>, s: Seq<u8>, offset: int)
    requires
        0 <= offset,
    ensures
        u16_le_at(p + s, p.len() + offset) == u16_le_at(s, offset),
        u32_le_at(p + s, p.len() + offset) == u32_le_at(s, offset),
{
    if offset + 2 <= s.len() {
        assert((p + s)[p.len() + offset] == s[offset]);
        assert((p + s)[p.len() + offset + 1] == s[offset + 1]);
    }
    if offset + 4 <= s.len() {
        assert((p + s)[p.len() + offset] == s[offset]);
        assert((p + s)[p.len() + offset + 1] == s[offset + 1]);
        assert((p + s)[p.len() + offset + 2] == s[offset + 2]);
        assert((p + s)[p.len() + offset + 3] == s[offset + 3]);
    }
}

proof fn lemma_scan_extends(
    s: Seq<u8>,
    t: Seq<u8>,
    entries_start: int,
    count: int,
    wanted: u16,
    index: int,
)
    requires
        ifd_scan(s, entries_start, count, wanted, index) is Some,
    ensures
        ifd_scan(s + t, entries_start, count, wanted, index) == ifd_scan(
            s,
            entries_start,
            count,
            wanted,
            index,
        ),
    decreases count - index,
{
    let entry = entries_start + 12 * index;
    lemma_reads_extend(s, t, entry);
    lemma_reads_extend(s, t, entry + 8);
    if index < count {
        if let Some(tag) = u16_le_at(s, entry) {
            if tag != wanted {
                lemma_scan_extends(s, t, entries_start, count, wanted, index + 1);
            }
        }
    }
}

proof fn lemma_scan_shifts(
    p: Seq<u8>,
    s: Seq<u8>,
    entries_start: int,
    count: int,
    wanted: u16,
    index: int,
)
    requires
        0 <= entries_start,
        0 <= index,
    ensures
        ifd_scan(p + s, p.len() + entries_start, count, wanted, index) == ifd_scan(
            s,
            entries_start,
            count,
            wanted,
            index,
        ),
    decreases count - index,
{
    let entry = entries_start + 12 * index;
    lemma_reads_shift(p, s, entry);
    lemma_reads_shift(p, s, entry + 8);
    assert(p.len() + entries_start + 12 * index == p.len() + entry);
    if index < count {
        lemma_scan_shifts(p, s, entries_start, count, wanted, index + 1);
    }
}

proof fn lemma_ifd_value_extends(s: Seq<u8>, t: Seq<u8>, ifd_offset: int, wanted: u16)
    requires
        ifd_entry_value(s, ifd_offset, wanted) is Some,
    ensures
        ifd_entry_value(s + t, ifd_offset, wanted) == ifd_entry_value(s, ifd_offset, wanted),
{
    lemma_reads_extend(s, t, ifd_offset);
    let count = u16_le_at(s, ifd_offset)->0;
    lemma_scan_extends(s, t, ifd_offset + 2, count as int, wanted, 0);
}

proof fn lemma_ifd_value_shifts(p: Seq<u8>, s: Seq<u8>, ifd_offset: int, wanted: u16)
    requires
        0 <= ifd_offset,
        ifd_entry_value(s, ifd_offset, wanted) is Some,
        p.len() + s.len() + 0x10_0000 <= usize::MAX,
    ensures
        ifd_entry_value(p + s, p.len() + ifd_offset, wanted) == ifd_entry_value(
            s,
            ifd_offset,
            wanted,
        ),
{
    lemma_reads_shift(p, s, ifd_offset);
    let count = u16_le_at(s, ifd_offset)->0;
    lemma_scan_shifts(p, s, ifd_offset + 2, count as int, wanted, 0);
    assert(p.len() + ifd_offset + 2 == p.len() + (ifd_offset + 2));
}

proof fn lemma_start_unique(s: Seq<u8>, i: int)
    requires
        is_makernote_start(s, i),
    ensures
        makernote_start(s) == Some(i),
{
    let k = choose|k: int| is_makernote_start(s, k);
    assert(k == i) by {
        if k < i {
            assert(!signature_at(s, k));
        }
        if i < k {
            assert(!signature_at(s, i));
        }
    }
}

proof fn lemma_start_exists(s: Seq<u8>)
    requires
        makernote_start(s) is Some,
    ensures
        is_makernote_start(s, makernote_start(s)->0),
{
    lemma_first_signature_exists(s, choose|i: int| signature_at(s, i));
}

proof fn lemma_first_signature_exists(s: Seq<u8>, i: int)
    requires
        signature_at(s, i),
    ensures
        exists|k: int| is_makernote_start(s, k),
    decreases i,
{
    if exists|j: int| 0 <= j < i && signature_at(s, j) {
        let j = choose|j: int| 0 <= j < i && signature_at(s, j);
        lemma_first_signature_exists(s, j);
    } else {
        assert(is_makernote_start(s, i));
    }
}

/// Once the Picture Mode can be read from a file, bytes appended to the file
/// do not change it.
pub proof fn lemma_picture_mode_survives_appended_bytes(s: Seq<u8>, t: Seq<u8>)
    requires
        picture_mode_of(s) is Some,
    ensures
        picture_mode_of(s + t) == picture_mode_of(s),
{
    let start = makernote_start(s)->0;
    lemma_start_exists(s);
    assert(is_makernote_start(s + t, start)) by {
        assert((s + t).subrange(start, start + 12) =~= s.subrange(start, start + 12));
        assert forall|j: int| 0 <= j < start implies !#[trigger] signature_at(s + t, j) by {
            assert((s + t).subrange(j, j + 12) =~= s.subrange(j, j + 12));
            assert(!signature_at(s, j));
        }
    }
    lemma_start_unique(s + t, start);
    lemma_ifd_value_extends(s, t, start + 12, CAMERA_SETTINGS_IFD);
    let relative = ifd_entry_value(s, start + 12, CAMERA_SETTINGS_IFD)->0;
    lemma_ifd_value_extends(s, t, start + relative, PICTURE_MODE);
}

/// Offsets inside the MakerNote are relative to its signature: putting bytes
/// in front of a file leaves its Picture Mode unchanged, as long as no
/// signature starts before the original one and the file stays far from the
/// largest `usize`.
pub proof fn lemma_picture_mode_ignores_leading_bytes(p: Seq<u8>, s: Seq<u8>)
    requires
        picture_mode_of(s) is Some,
        forall|j: int| 0 <= j < p.len() ==> !#[trigger] signature_at(p + s, j),
        p.len() + s.len() + 0x10_0000 <= usize::MAX,
    ensures
        picture_mode_of(p + s) == picture_mode_of(s),
{
    let start = makernote_start(s)->0;
    lemma_start_exists(s);
    assert(is_makernote_start(p + s, p.len() + start)) by {
        assert((p + s).subrange(p.len() + start, p.len() + start + 12) =~= s.subrange(
            start,
            start + 12,
        ));
        assert forall|j: int| 0 <= j < p.len() + start implies !#[trigger] signature_at(
            p + s,
            j,
        ) by {
            if j >= p.len() {
                assert((p + s).subrange(j, j + 12) =~= s.subrange(j - p.len(), j - p.len() + 12));
                assert(!signature_at(s, j - p.len()));
            }
        }
    }
    lemma_start_unique(p + s, p.len() + start);
    lemma_ifd_value_shifts(p, s, start + 12, CAMERA_SETTINGS_IFD);
    assert(p.len() + start + 12 == p.len() + (start + 12));
    let relative = ifd_entry_value(s, start + 12, CAMERA_SETTINGS_IFD)->0;
    lemma_ifd_value_shifts(p, s, start + relative, PICTURE_MODE);
    assert(p.len() + start + relative == p.len() + (start + relative));
    assert(start + relative < s.len());
}


/// The little-endian bytes of a `u16`.
pub open spec fn le_bytes_u16(v: u16) -> Seq<u8> {
    seq![(v % 0x100) as u8, (v / 0x100) as u8]
}

/// The little-endian bytes of a `u32`.
pub open spec fn le_bytes_u32(v: u32) -> Seq<u8> {
    seq![
        (v % 0x100) as u8,
        ((v / 0x100) % 0x100) as u8,
        ((v / 0x1_0000) % 0x100) as u8,
        (v / 0x100_0000) as u8,
    ]
}

/// An IFD entry as written: tag, field type, value count and value.
pub open spec fn ifd_entry_bytes(entry: (u16, u16, u32, u32)) -> Seq<u8> {
    le_bytes_u16(entry.0) + le_bytes_u16(entry.1) + le_bytes_u32(entry.2) + le_bytes_u32(entry.3)
}

/// The entries of an IFD as written, one after the other.
pub open spec fn ifd_entries_bytes(entries: Seq<(u16, u16, u32, u32)>) -> Seq<u8>
    decreases entries.len(),
{
    if entries.len() == 0 {
        Seq::empty()
    } else {
        ifd_entries_bytes(entries.drop_last()) + ifd_entry_bytes(entries.last())
    }
}

/// An IFD as written: its entry count, then its entries.
pub open spec fn ifd_bytes(entries: Seq<(u16, u16, u32, u32)>) -> Seq<u8> {
    le_bytes_u16(entries.len() as u16) + ifd_entries_bytes(entries)
}

/// The value of the first of `entries[from..]` tagged `wanted`.
pub open spec fn first_tagged_value(entries: Seq<(u16, u16, u32, u32)>, wanted: u16, from: int) -> Option<u32>
    decreases entries.len() - from,
{
    if 0 <= from < entries.len() {
        if entries[from].0 == wanted {
            Some(entries[from].3)
        } else {
            first_tagged_value(entries, wanted, from + 1)
        }
    } else {
        None
    }
}

/// A little-endian `u16` reads back as the value that was written.
pub proof fn lemma_read_u16_after_write(before: Seq<u8>, v: u16, after: Seq<u8>)
    ensures
        u16_le_at(before + le_bytes_u16(v) + after, before.len() as int) == Some(v),
{
    let s = before + le_bytes_u16(v) + after;
    assert(s[before.len() as int] == le_bytes_u16(v)[0]);
    assert(s[before.len() as int + 1] == le_bytes_u16(v)[1]);
}

/// A little-endian `u32` reads back as the value that was written.
pub proof fn lemma_read_u32_after_write(before: Seq<u8>, v: u32, after: Seq<u8>)
    ensures
        u32_le_at(before + le_bytes_u32(v) + after, before.len() as int) == Some(v),
{
    let s = before + le_bytes_u32(v) + after;
    assert(s[before.len() as int] == le_bytes_u32(v)[0]);
    assert(s[before.len() as int + 1] == le_bytes_u32(v)[1]);
    assert(s[before.len() as int + 2] == le_bytes_u32(v)[2]);
    assert(s[before.len() as int + 3] == le_bytes_u32(v)[3]);
}

proof fn lemma_entries_layout(entries: Seq<(u16, u16, u32, u32)>, i: int)
    requires
        0 <= i < entries.len(),
    ensures
        ifd_entries_bytes(entries).len() == 12 * entries.len(),
        ifd_entries_bytes(entries).subrange(12 * i, 12 * i + 12) == ifd_entry_bytes(entries[i]),
    decreases entries.len(),
{
    let rest = entries.drop_last();
    let all = ifd_entries_bytes(entries);
    lemma_entries_len(rest);
    if i < entries.len() - 1 {
        lemma_entries_layout(rest, i);
        assert(all.subrange(12 * i, 12 * i + 12) =~= ifd_entries_bytes(rest).subrange(
            12 * i,
            12 * i + 12,
        ));
    } else {
        assert(all.subrange(12 * i, 12 * i + 12) =~= ifd_entry_bytes(entries.last()));
    }
}

proof fn lemma_entries_len(entries: Seq<(u16, u16, u32, u32)>)
    ensures
        ifd_entries_bytes(entries).len() == 12 * entries.len(),
    decreases entries.len(),
{
    if entries.len() > 0 {
        lemma_entries_len(entries.drop_last());
    }
}

proof fn lemma_entry_read(
    before: Seq<u8>,
    entries: Seq<(u16, u16, u32, u32)>,
    after: Seq<u8>,
    i: int,
)
    requires
        0 <= i < entries.len(),
    ensures
        ({
            let s = before + ifd_bytes(entries) + after;
            let entry = before.len() as int + 2 + 12 * i;
            &&& u16_le_at(s, entry) == Some(entries[i].0)
            &&& u32_le_at(s, entry + 8) == Some(entries[i].3)
        }),
{
    let s = before + ifd_bytes(entries) + after;
    let entry = before.len() as int + 2 + 12 * i;
    lemma_entries_layout(entries, i);
    let all = ifd_entries_bytes(entries);
    let e = ifd_entry_bytes(entries[i]);
    let head = s.subrange(0, entry);
    let tail = s.subrange(entry + 12, s.len() as int);
    assert(s =~= head + e + tail) by {
        assert forall|k: int| 0 <= k < 12 implies #[trigger] s[entry + k] == e[k] by {
            assert(s[entry + k] == all[12 * i + k]);
            assert(all.subrange(12 * i, 12 * i + 12)[k] == all[12 * i + k]);
        }
    }
    lemma_read_u16_after_write(head, entries[i].0, e.subrange(2, 12) + tail);
    assert(head + le_bytes_u16(entries[i].0) + (e.subrange(2, 12) + tail) =~= s);
    lemma_read_u32_after_write(head + e.subrange(0, 8), entries[i].3, tail);
    assert(head + e.subrange(0, 8) + le_bytes_u32(entries[i].3) + tail =~= s);
}

proof fn lemma_scan_written(
    before: Seq<u8>,
    entries: Seq<(u16, u16, u32, u32)>,
    after: Seq<u8>,
    wanted: u16,
    index: int,
)
    requires
        0 <= index <= entries.len(),
    ensures
        ifd_scan(
            before + ifd_bytes(entries) + after,
            before.len() as int + 2,
            entries.len() as int,
            wanted,
            index,
        ) == first_tagged_value(entries, wanted, index),
    decreases entries.len() - index,
{
    if index < entries.len() {
        lemma_entry_read(before, entries, after, index);
        lemma_scan_written(before, entries, after, wanted, index + 1);
    }
}

/// Looking a tag up in a written IFD gives the value of the first entry that
/// carries the tag, and `None` when no entry does.
pub proof fn lemma_ifd_lookup_after_write(
    before: Seq<u8>,
    entries: Seq<(u16, u16, u32, u32)>,
    after: Seq<u8>,
    wanted: u16,
)
    requires
        entries.len() <= u16::MAX,
        before.len() as int + 2 + 12 * entries.len() <= usize::MAX,
    ensures
        ifd_entry_value(before + ifd_bytes(entries) + after, before.len() as int, wanted)
            == first_tagged_value(entries, wanted, 0),
{
    let s = before + ifd_bytes(entries) + after;
    lemma_read_u16_after_write(before, entries.len() as u16, ifd_entries_bytes(entries) + after);
    assert(before + le_bytes_u16(entries.len() as u16) + (ifd_entries_bytes(entries) + after) =~= s);
    lemma_scan_written(before, entries, after, wanted, 0);
}


proof fn lemma_start_after_prefix(before: Seq<u8>, rest: Seq<u8>)
    requires
        forall|j: int|
            0 <= j < before.len() ==> !#[trigger] signature_at(
                before + makernote_signature() + rest,
                j,
            ),
    ensures
        makernote_start(before + makernote_signature() + rest) == Some(before.len() as int),
{
    let file = before + makernote_signature() + rest;
    let start = before.len() as int;
    assert(file.subrange(start, start + 12) =~= makernote_signature());
    assert(is_makernote_start(file, start));
    lemma_start_unique(file, start);
}

proof fn lemma_picture_mode_from_lookups(s: Seq<u8>, start: int, relative: u32, found: Option<u32>)
    requires
        makernote_start(s) == Some(start),
        ifd_entry_value(s, start + 12, CAMERA_SETTINGS_IFD) == Some(relative),
        start + relative <= usize::MAX,
        ifd_entry_value(s, start + relative, PICTURE_MODE) == found,
    ensures
        picture_mode_of(s) == match found {
            Some(raw) => Some((raw % 0x1_0000) as u16),
            None => None,
        },
{
}

/// A file laid out as `before`, the MakerNote signature, the root IFD `root`,
/// `gap`, the CameraSettings IFD `camera` and `after`, where the first
/// CameraSettings entry of `root` holds the offset of `camera` from the
/// signature, yields the low 16 bits of the first PictureMode value of
/// `camera` (and `None` when `camera` has no PictureMode entry), provided no
/// signature starts inside `before`.
pub proof fn lemma_picture_mode_after_write(
    before: Seq<u8>,
    root: Seq<(u16, u16, u32, u32)>,
    gap: Seq<u8>,
    camera: Seq<(u16, u16, u32, u32)>,
    after: Seq<u8>,
)
    requires
        root.len() <= u16::MAX,
        camera.len() <= u16::MAX,
        12 + 2 + 12 * root.len() + gap.len() <= u32::MAX,
        first_tagged_value(root, CAMERA_SETTINGS_IFD, 0) == Some(
            (12 + 2 + 12 * root.len() + gap.len()) as u32,
        ),
        before.len() + 12 + 2 + 12 * root.len() + gap.len() + 2 + 12 * camera.len() + after.len()
            <= usize::MAX,
        forall|j: int|
            0 <= j < before.len() ==> !#[trigger] signature_at(
                before + makernote_signature() + (ifd_bytes(root) + gap + ifd_bytes(camera)
                    + after),
                j,
            ),
    ensures
        picture_mode_of(
            before + makernote_signature() + (ifd_bytes(root) + gap + ifd_bytes(camera) + after),
        ) == match first_tagged_value(camera, PICTURE_MODE, 0) {
            Some(raw) => Some((raw % 0x1_0000) as u16),
            None => None,
        },
{
    let sig = makernote_signature();
    let rest = ifd_bytes(root) + gap + ifd_bytes(camera) + after;
    let file = before + sig + rest;
    let start = before.len() as int;
    let relative = 12 + 2 + 12 * root.len() + gap.len();
    lemma_entries_len(root);
    lemma_entries_len(camera);
    lemma_start_after_prefix(before, rest);
    assert(ifd_entry_value(file, start + 12, CAMERA_SETTINGS_IFD) == Some(relative as u32)) by {
        let root_tail = gap + ifd_bytes(camera) + after;
        assert(file =~= (before + sig) + ifd_bytes(root) + root_tail);
        lemma_ifd_lookup_after_write(before + sig, root, root_tail, CAMERA_SETTINGS_IFD);
    }
    assert(ifd_entry_value(file, start + relative, PICTURE_MODE) == first_tagged_value(
        camera,
        PICTURE_MODE,
        0,
    )) by {
        let camera_head = before + sig + ifd_bytes(root) + gap;
        assert(file =~= camera_head + ifd_bytes(camera) + after);
        assert(camera_head.len() == start + relative);
        lemma_ifd_lookup_after_write(camera_head, camera, after, PICTURE_MODE);
    }
    lemma_picture_mode_from_lookups(
        file,
        start,
        relative as u32,
        first_tagged_value(camera, PICTURE_MODE, 0),
    );
}

/// Exactly the Picture Modes 1 to 14, 17, 18, 256 and 512 have a name, and
/// no two of them share one.
pub proof fn lemma_mode_names_distinct()
    ensures
        forall|mode: u16|
            #![trigger picture_mode_label(mode)]
            picture_mode_label(mode) is Some <==> ((1 <= mode && mode <= 14) || mode == 17 || mode
                == 18 || mode == 256 || mode == 512),
        forall|a: u16, b: u16|
            #![trigger picture_mode_label(a), picture_mode_label(b)]
            picture_mode_label(a) is Some && picture_mode_label(a) == picture_mode_label(b) ==> a
                == b,
{
    reveal_strlit("Vivid");
    reveal_strlit("Natural");
    reveal_strlit("Muted");
    reveal_strlit("Portrait");
    reveal_strlit("i-Enhance");
    reveal_strlit("e-Portrait");
    reveal_strlit("Color Creator");
    reveal_strlit("Underwater");
    reveal_strlit("Color Profile 1");
    reveal_strlit("Color Profile 2");
    reveal_strlit("Color Profile 3");
    reveal_strlit("Monochrome Profile 1");
    reveal_strlit("Monochrome Profile 2");
    reveal_strlit("Monochrome Profile 3");
    reveal_strlit("Art Mode");
    reveal_strlit("Monochrome Profile 4");
    reveal_strlit("Monotone");
    reveal_strlit("Sepia");
    assert forall|a: u16, b: u16|
        picture_mode_label(a) is Some && #[trigger] picture_mode_label(a)
            == #[trigger] picture_mode_label(b) implies a == b by {
        let x = picture_mode_label(a)->0;
        let y = picture_mode_label(b)->0;
        assert(x.len() == y.len());
        if x.len() > 0 {
            assert(x[0] == y[0]);
        }
        if x.len() > 1 {
            assert(x[1] == y[1]);
        }
        if x.len() > 14 {
            assert(x[14] == y[14]);
        }
        if x.len() > 19 {
            assert(x[19] == y[19]);
        }
    }
}

} // verus!
