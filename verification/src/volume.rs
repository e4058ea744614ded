//! Volume classification and volume lifecycle events.
//!
//! The operating-system probe reports each attached drive's filesystem
//! name, serial and capacity; the classification of those reports and the
//! translation of drive-letter bitmasks are verified here.

use vstd::prelude::*;

verus! {

/// Filesystem type of a volume.
#[derive(Debug, Clone, Copy, PartialEq, Eq, Structural)]
pub enum VolumeType {
    /// NTFS: supports master-file-table enumeration and journal tracking.
    NTFS,
    /// FAT32: requires directory walking.
    FAT32,
    /// exFAT: requires directory walking.
    ExFAT,
    /// Unknown filesystem type; such volumes are skipped.
    Unknown,
}

/// Information about a detected volume.
#[derive(Debug, Clone)]
pub struct VolumeInfo {
    /// Drive letter, e.g. `C`.
    pub drive_letter: char,
    /// Volume serial number as a hex string.
    pub volume_serial: String,
    /// Filesystem type.
    pub fs_type: VolumeType,
    /// Total size in bytes.
    pub total_size: u64,
    /// Free space in bytes.
    pub free_space: u64,
}

/// Whether a volume is NTFS (supports master-file-table enumeration).
pub fn is_ntfs(info: &VolumeInfo) -> (r: bool)
    ensures
        r == (info.fs_type == VolumeType::NTFS),
{
    info.fs_type == VolumeType::NTFS
}

/// The volume type a filesystem name denotes.
pub open spec fn spec_volume_type(name: Seq<char>) -> VolumeType {
    if name == "NTFS"@ {
        VolumeType::NTFS
    } else if name == "FAT32"@ {
        VolumeType::FAT32
    } else if name == "EXFAT"@ {
        VolumeType::ExFAT
    } else {
        VolumeType::Unknown
    }
}

/// Classify an upper-cased filesystem name reported by the operating
/// system.
pub fn volume_type_from_fs_name(name: &str) -> (r: VolumeType)
    ensures
        r == spec_volume_type(name@),
{
    if name.eq("NTFS") {
        VolumeType::NTFS
    } else if name.eq("FAT32") {
        VolumeType::FAT32
    } else if name.eq("EXFAT") {
        VolumeType::ExFAT
    } else {
        VolumeType::Unknown
    }
}

/// The upper-case hex digit of a value below sixteen.
pub open spec fn spec_hex_digit(d: int) -> char {
    if d < 10 {
        ((48 + d) as u8) as char
    } else {
        ((55 + d) as u8) as char
    }
}

/// A volume serial formatted as the catalog stores it: eight upper-case
/// hex digits, zero-padded.
pub open spec fn spec_serial_hex(n: u32) -> Seq<char> {
    seq![
        spec_hex_digit(((n >> 28) & 0xf) as int),
        spec_hex_digit(((n >> 24) & 0xf) as int),
        spec_hex_digit(((n >> 20) & 0xf) as int),
        spec_hex_digit(((n >> 16) & 0xf) as int),
        spec_hex_digit(((n >> 12) & 0xf) as int),
        spec_hex_digit(((n >> 8) & 0xf) as int),
        spec_hex_digit(((n >> 4) & 0xf) as int),
        spec_hex_digit((n & 0xf) as int),
    ]
}

/// One upper-case hex digit.
fn hex_digit(d: u32) -> (c: char)
    requires
        d < 16,
    ensures
        c == spec_hex_digit(d as int),
{
    if d < 10 {
        ((48 + d) as u8) as char
    } else {
        ((55 + d) as u8) as char
    }
}

/// Format a volume serial number as the catalog stores it: eight
/// upper-case hex digits, zero-padded.
pub fn format_volume_serial(serial: u32) -> (r: String)
    ensures
        r@ == spec_serial_hex(serial),
{
    let mut s = String::new();
    let mut shift: u32 = 32;
    let ghost digits = spec_serial_hex(serial);
    while shift > 0
        invariant
            shift <= 32,
            shift % 4 == 0,
            digits == spec_serial_hex(serial),
            s@ =~= digits.take((8 - shift / 4) as int),
        decreases shift,
    {
        shift = shift - 4;
        let d = (serial >> shift) & 0xf;
        proof {
            assert(d < 16) by (bit_vector)
                requires
                    d == (serial >> shift) & 0xf,
            ;
        }
        let c = hex_digit(d);
        let cs = crate::ext::char_to_string(c);
        s.append(cs.as_str());
        proof {
            let done = (8 - shift / 4) as int;
            assert(digits.take(done).drop_last() =~= digits.take(done - 1));
            assert(digits.take(done).last() == digits[done - 1]);
            if shift == 28 {
                assert(digits[0] == spec_hex_digit(d as int));
            } else if shift == 24 {
                assert(digits[1] == spec_hex_digit(d as int));
            } else if shift == 20 {
                assert(digits[2] == spec_hex_digit(d as int));
            } else if shift == 16 {
                assert(digits[3] == spec_hex_digit(d as int));
            } else if shift == 12 {
                assert(digits[4] == spec_hex_digit(d as int));
            } else if shift == 8 {
                assert(digits[5] == spec_hex_digit(d as int));
            } else if shift == 4 {
                assert(digits[6] == spec_hex_digit(d as int));
            } else {
                assert((serial >> 0u32) & 0xf == serial & 0xf) by (bit_vector);
                assert(digits[7] == spec_hex_digit(d as int));
            }
        }
    }
    proof {
        assert(digits.take(8) =~= digits);
    }
    s
}

/// Volume lifecycle events.
#[derive(Debug, Clone, Copy, PartialEq, Eq, Structural)]
pub enum VolumeEvent {
    /// Volume was mounted at the given drive letter.
    Mounted(char),
    /// Volume was unmounted from the given drive letter.
    Unmounted(char),
}

/// The drive letters named by the bits of a unit mask, from bit 0 (`A`)
/// through bit 25 (`Z`), low bits first.
pub open spec fn spec_mask_letters(mask: u32, i: int) -> Seq<char>
    decreases 26 - i,
{
    if i < 0 || i >= 26 {
        Seq::empty()
    } else {
        (if mask & (1u32 << (i as u32)) != 0 {
            seq![((65 + i) as u8) as char]
        } else {
            Seq::empty()
        }) + spec_mask_letters(mask, i + 1)
    }
}

/// Translate the operating system's drive-letter bitmask into drive
/// letters.
pub fn drive_letters_from_mask(mask: u32) -> (r: Vec<char>)
    ensures
        r@ =~= spec_mask_letters(mask, 0),
{
    let mut letters: Vec<char> = Vec::new();
    let mut i: u32 = 0;
    while i < 26
        invariant
            i <= 26,
            letters@ + spec_mask_letters(mask, i as int) =~= spec_mask_letters(mask, 0),
        decreases 26 - i,
    {
        if mask & (1u32 << i) != 0 {
            let letter = ((65u32 + i) as u8) as char;
            letters.push(letter);
        }
        i = i + 1;
    }
    proof {
        assert(spec_mask_letters(mask, 26) =~= Seq::<char>::empty());
    }
    letters
}

} // verus!
