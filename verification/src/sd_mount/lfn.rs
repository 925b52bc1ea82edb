//! Long file names, as they stand in a directory.
use vstd::prelude::*;
#[allow(unused_imports)]
use vstd::string::*;
#[allow(unused_imports)]
use vstd::utf8::*;

use crate::sd_mount::names::{
    create_short_name, hex_value, is_plain, is_plain_name, to_uppercase, uppercase, SdError,
    SdMount,
};
use crate::text::{find_from, join3, split_at_char, split_once};

verus! {

/// A character in UTF-16.
pub open spec fn utf16_of(c: char) -> Seq<u16> {
    let v = c as u32;
    if v < 0x10000 {
        seq![v as u16]
    } else {
        seq![(0xd800 + (v - 0x10000) / 0x400) as u16, (0xdc00 + (v - 0x10000) % 0x400) as u16]
    }
}

/// A text in UTF-16.
pub open spec fn utf16(s: Seq<char>) -> Seq<u16>
    decreases s.len(),
{
    if s.len() == 0 {
        seq![]
    } else {
        utf16(s.drop_last()) + utf16_of(s.last())
    }
}

/// Writes a text in UTF-16.
pub fn encode_utf16(s: &str) -> (r: Vec<u16>)
    ensures
        r@ == utf16(s@),
{
    let n: usize = s.unicode_len();
    let mut r: Vec<u16> = Vec::new();
    let mut i: usize = 0;
    assert(s@.take(0) =~= seq![]);
    while i < n
        invariant
            n == s@.len(),
            i <= n,
            r@ =~= utf16(s@.take(i as int)),
        decreases n - i,
    {
        let v: u32 = s.get_char(i) as u32;
        assert(s@.take(i + 1).drop_last() =~= s@.take(i as int));
        if v < 0x10000 {
            r.push(v as u16);
        } else {
            r.push((0xd800 + (v - 0x10000) / 0x400) as u16);
            r.push((0xdc00 + (v - 0x10000) % 0x400) as u16);
        }
        i += 1;
    }
    assert(s@.take(n as int) =~= s@);
    r
}

/// The eleven bytes of a short name as a directory holds them: up to eight of its base and three of
/// its extension, filled up with spaces.
pub open spec fn padded(s: Seq<char>) -> Seq<u8> {
    let (base, ext) = match split_at_char(s, '.') {
        Some((b, e)) => (encode_utf8(b), encode_utf8(e)),
        None => (encode_utf8(s), seq![]),
    };
    Seq::new(
        11,
        |i: int|
            if i < 8 {
                if i < base.len() {
                    base[i]
                } else {
                    0x20
                }
            } else {
                if i - 8 < ext.len() {
                    ext[i - 8]
                } else {
                    0x20
                }
            },
    )
}

/// A sum that is turned right by a bit before each byte is added.
pub open spec fn turning_sum(b: Seq<u8>) -> u8
    decreases b.len(),
{
    if b.len() == 0 {
        0
    } else {
        let s = turning_sum(b.drop_last());
        ((s / 2 + (s % 2) * 128 + b.last()) % 256) as u8
    }
}

/// The checksum that ties a long name to a short one.
pub open spec fn checksum_of(short: Seq<char>) -> u8 {
    turning_sum(padded(uppercase(short)))
}

impl SdMount {
    /// The checksum that ties a long name to a short one.
    pub fn lfn_checksum(short: &str) -> (sum: u8)
        ensures
            sum == checksum_of(short@),
    {
        let s = to_uppercase(short);
        let (base, ext) = match split_once(s.as_str(), '.') {
            Some((b, e)) => (b, e),
            None => (s.as_str(), ""),
        };
        proof {
            reveal_strlit("");
            assert(encode_utf8(""@).len() == 0);
        }
        let base = base.as_bytes();
        let ext = ext.as_bytes();
        let ghost want = padded(s@);
        let mut sum: u8 = 0;
        let mut i: usize = 0;
        assert(want.take(0) =~= seq![]);
        while i < 11
            invariant
                i <= 11,
                want.len() == 11,
                forall|k: int|
                    0 <= k < 11 ==> #[trigger] want[k] == (if k < 8 {
                        if k < base@.len() {
                            base@[k]
                        } else {
                            0x20
                        }
                    } else {
                        if k - 8 < ext@.len() {
                            ext@[k - 8]
                        } else {
                            0x20
                        }
                    }),
                sum == turning_sum(want.take(i as int)),
            decreases 11 - i,
        {
            let b: u8 = if i < 8 {
                if i < base.len() {
                    base[i]
                } else {
                    0x20
                }
            } else {
                if i - 8 < ext.len() {
                    ext[i - 8]
                } else {
                    0x20
                }
            };
            assert(want.take(i + 1).drop_last() =~= want.take(i as int));
            let turned: u8 = sum / 2 + (sum % 2) * 128;
            let total: u16 = turned as u16 + b as u16;
            sum = (total % 256) as u8;
            i += 1;
        }
        assert(want.take(11) =~= want);
        sum
    }
}

/// The character of an entry at a place: the name's, a nought behind its end, and nothing further.
pub open spec fn lfn_unit(chars: Seq<u16>, i: int) -> u16 {
    if i < chars.len() {
        chars[i]
    } else if i == chars.len() {
        0
    } else {
        0xffff
    }
}

/// Where an entry holds its character at a place.
pub open spec fn unit_pos(i: int) -> int {
    if i < 5 {
        1 + i * 2
    } else if i < 11 {
        14 + (i - 5) * 2
    } else {
        28 + (i - 11) * 2
    }
}

/// An entry for a part of a long name.
pub open spec fn lfn_entry(seq: u8, checksum: u8, chars: Seq<u16>) -> Seq<u8> {
    Seq::new(
        32,
        |k: int|
            if k == 0 {
                seq
            } else if k == 11 {
                0x0f
            } else if k == 12 || k == 26 || k == 27 {
                0
            } else if k == 13 {
                checksum
            } else {
                let i = if k < 11 {
                    (k - 1) / 2
                } else if k < 26 {
                    5 + (k - 14) / 2
                } else {
                    11 + (k - 28) / 2
                };
                let v = lfn_unit(chars, i);
                if k == unit_pos(i) {
                    (v % 256) as u8
                } else {
                    (v / 256) as u8
                }
            },
    )
}

/// The character at a place of an entry.
pub open spec fn unit_in(entry: Seq<u8>, i: int) -> int {
    entry[unit_pos(i)] + entry[unit_pos(i) + 1] * 256
}

/// An entry holds the characters it was built from, in order, and the checksum.
pub proof fn law_entry_holds_its_characters(seq: u8, checksum: u8, chars: Seq<u16>, i: int)
    requires
        0 <= i < 13,
    ensures
        unit_in(lfn_entry(seq, checksum, chars), i) == lfn_unit(chars, i),
        lfn_entry(seq, checksum, chars)[0] == seq,
        lfn_entry(seq, checksum, chars)[11] == 0x0f,
        lfn_entry(seq, checksum, chars)[13] == checksum,
{
}

impl SdMount {
    /// Builds an entry for a part of a long name.
    pub fn build_lfn_entry(seq: u8, checksum: u8, chars: &[u16]) -> (entry: Vec<u8>)
        ensures
            entry@ == lfn_entry(seq, checksum, chars@),
    {
        let mut entry: Vec<u8> = Vec::new();
        while entry.len() < 32
            invariant
                entry@.len() <= 32,
                forall|j: int|
                    0 <= j < entry@.len() ==> #[trigger] entry@[j] == lfn_entry(seq, checksum, chars@)[j],
            decreases 32 - entry@.len(),
        {
            let k: usize = entry.len();
            let b: u8 = if k == 0 {
                seq
            } else if k == 11 {
                0x0f
            } else if k == 12 || k == 26 || k == 27 {
                0
            } else if k == 13 {
                checksum
            } else {
                let (i, low): (usize, bool) = if k < 11 {
                    ((k - 1) / 2, k % 2 == 1)
                } else if k < 26 {
                    (5 + (k - 14) / 2, k % 2 == 0)
                } else {
                    (11 + (k - 28) / 2, k % 2 == 0)
                };
                let v: u16 = if i < chars.len() {
                    chars[i]
                } else if i == chars.len() {
                    0
                } else {
                    0xffff
                };
                if low {
                    (v % 256) as u8
                } else {
                    (v / 256) as u8
                }
            };
            entry.push(b);
        }
        assert(entry@ =~= lfn_entry(seq, checksum, chars@));
        entry
    }
}

/// How many entries a long name takes.
pub open spec fn entries_for(n: int) -> int {
    (n + 12) / 13
}

/// The part of a long name with a number, counted from one.
pub open spec fn part(units: Seq<u16>, k: int) -> Seq<u16> {
    units.subrange(
        (k - 1) * 13,
        if k * 13 < units.len() {
            k * 13
        } else {
            units.len() as int
        },
    )
}

/// The entry for a part of a long name; the last part, which stands first, is marked.
pub open spec fn part_entry(units: Seq<u16>, checksum: u8, k: int) -> Seq<u8> {
    let seq = if k == entries_for(units.len() as int) {
        0x40 + k
    } else {
        k
    };
    lfn_entry(seq as u8, checksum, part(units, k))
}

/// The entries before the short one fit into the rest of the sector.
pub open spec fn has_room(offset: int, n: int) -> bool {
    offset / 32 + entries_for(n) < 16
}

/// The sector with the long name before the short entry at `offset`: what is before stays, the parts
/// of the name come from the last to the first, and the rest is moved behind them. What leaves the
/// sector is lost.
pub open spec fn with_long_name(data: Seq<u8>, offset: int, units: Seq<u16>, checksum: u8) -> Seq<u8> {
    let n = entries_for(units.len() as int);
    Seq::new(
        512,
        |i: int|
            if i < offset {
                data[i]
            } else if i < offset + n * 32 {
                part_entry(units, checksum, n - (i - offset) / 32)[(i - offset) % 32]
            } else {
                data[i - n * 32]
            },
    )
}

/// Moves what is from `from` on to `from + shift`, within the sector.
fn shift_right(data: &mut Vec<u8>, from: usize, shift: usize)
    requires
        old(data)@.len() == 512,
        from + shift <= 512,
    ensures
        final(data)@.len() == 512,
        forall|i: int|
            0 <= i < 512 ==> #[trigger] final(data)@[i] == (if i < from + shift {
                old(data)@[i]
            } else {
                old(data)@[i - shift]
            }),
{
    let ghost before = data@;
    let mut i: usize = 512 - shift;
    while i > from
        invariant
            from <= i <= 512 - shift,
            from + shift <= 512,
            data@.len() == 512,
            before.len() == 512,
            forall|j: int|
                0 <= j < 512 ==> #[trigger] data@[j] == (if j < i + shift {
                    before[j]
                } else {
                    before[j - shift]
                }),
        decreases i,
    {
        i -= 1;
        let b: u8 = data[i];
        data.set(i + shift, b);
    }
}

/// Puts a long name before the short entry at `offset` of a sector, where there is room; says
/// whether there was.
fn insert_lfn(data: &mut Vec<u8>, offset: usize, units: &Vec<u16>, checksum: u8) -> (done: bool)
    requires
        old(data)@.len() == 512,
        offset < 512,
    ensures
        done == has_room(offset as int, units@.len() as int),
        final(data)@ == (if done {
            with_long_name(old(data)@, offset as int, units@, checksum)
        } else {
            old(data)@
        }),
{
    let len: usize = units.len();
    if len > 512 {
        return false;
    }
    let n: usize = (len + 12) / 13;
    if offset / 32 + n >= 16 {
        return false;
    }
    let ghost before = data@;
    shift_right(data, offset, n * 32);
    let ghost shifted = data@;
    let mut s: usize = 0;
    while s < n
        invariant
            s <= n,
            n == (len + 12) / 13,
            len == units@.len(),
            offset / 32 + n < 16,
            data@.len() == 512,
            shifted.len() == 512,
            n == entries_for(units@.len() as int),
            forall|i: int|
                0 <= i < 512 ==> #[trigger] data@[i] == (if offset <= i < offset + s * 32 {
                    part_entry(units@, checksum, n - (i - offset) / 32)[(i - offset) % 32]
                } else {
                    shifted[i]
                }),
        decreases n - s,
    {
        let k: usize = n - s;
        let seq: u8 = if s == 0 {
            0x40 + k as u8
        } else {
            k as u8
        };
        let start: usize = (k - 1) * 13;
        let end: usize = if k * 13 < len {
            k * 13
        } else {
            len
        };
        let entry = SdMount::build_lfn_entry(
            seq,
            checksum,
            vstd::slice::slice_subrange(units.as_slice(), start, end),
        );
        assert(entry@ == part_entry(units@, checksum, k as int));
        let ghost d0 = data@;
        let mut j: usize = 0;
        while j < 32
            invariant
                j <= 32,
                s < n < 16,
                k == n - s,
                offset / 32 + n < 16,
                data@.len() == 512,
                d0.len() == 512,
                entry@.len() == 32,
                forall|i: int|
                    0 <= i < 512 ==> #[trigger] data@[i] == (if offset + s * 32 <= i < offset + s * 32
                        + j {
                        entry@[i - offset - s * 32]
                    } else {
                        d0[i]
                    }),
            decreases 32 - j,
        {
            data.set(offset + s * 32 + j, entry[j]);
            j += 1;
        }
        s += 1;
    }
    assert(data@ =~= with_long_name(before, offset as int, units@, checksum));
    true
}

impl SdMount {
    /// Puts the long name of a file before its short entry at `offset` of a sector, where there is
    /// room; says whether there was.
    pub fn create_file_with_lfn(
        data: &mut Vec<u8>,
        offset: usize,
        short_name: &str,
        long_name: &str,
    ) -> (done: bool)
        requires
            old(data)@.len() == 512,
            offset < 512,
        ensures
            done == has_room(offset as int, utf16(long_name@).len() as int),
            final(data)@ == (if done {
                with_long_name(
                    old(data)@,
                    offset as int,
                    utf16(long_name@),
                    checksum_of(short_name@),
                )
            } else {
                old(data)@
            }),
    {
        let checksum: u8 = Self::lfn_checksum(short_name);
        let units = encode_utf16(long_name);
        insert_lfn(data, offset, &units, checksum)
    }
}

/// The short entry stands behind its long name, and what was before it stays.
pub proof fn law_short_entry_follows(data: Seq<u8>, offset: int, units: Seq<u16>, checksum: u8, j: int)
    requires
        data.len() == 512,
        0 <= offset < 512,
        has_room(offset, units.len() as int),
        0 <= j < 32,
        offset % 32 == 0,
    ensures
        ({
            let after = with_long_name(data, offset, units, checksum);
            let n = entries_for(units.len() as int);
            &&& after.len() == 512
            &&& after[offset + n * 32 + j] == data[offset + j]
            &&& after.take(offset) == data.take(offset)
        }),
{
    assert(with_long_name(data, offset, units, checksum).take(offset) =~= data.take(offset));
}

/// The entry of a part, as it stands in the sector.
pub open spec fn entry_at(data: Seq<u8>, at: int) -> Seq<u8> {
    data.subrange(at, at + 32)
}

/// The long name can be read back from the sector: the character `i` of the name stands in the entry
/// of its part, and every part carries the checksum.
pub proof fn law_long_name_reads_back(
    data: Seq<u8>,
    offset: int,
    units: Seq<u16>,
    checksum: u8,
    i: int,
)
    requires
        data.len() == 512,
        0 <= offset < 512,
        has_room(offset, units.len() as int),
        0 <= i < units.len(),
    ensures
        ({
            let after = with_long_name(data, offset, units, checksum);
            let n = entries_for(units.len() as int);
            let k = i / 13 + 1;
            let e = entry_at(after, offset + (n - k) * 32);
            &&& unit_in(e, i % 13) == units[i]
            &&& e[13] == checksum
            &&& e[0] == (if k == n {
                0x40 + k
            } else {
                k
            })
        }),
{
    let after = with_long_name(data, offset, units, checksum);
    let n = entries_for(units.len() as int);
    let k = i / 13 + 1;
    let at = offset + (n - k) * 32;
    assert(1 <= k <= n);
    let e = entry_at(after, at);
    assert(e =~= part_entry(units, checksum, k)) by {
        assert forall|j: int| 0 <= j < 32 implies e[j] == part_entry(units, checksum, k)[j] by {
            assert((at + j - offset) / 32 == n - k);
            assert((at + j - offset) % 32 == j);
        }
    }
    assert(part(units, k)[i % 13] == units[i]);
}

/// The number in a generated short name: the hexadecimal digits between `BK` and the first tilde.
pub open spec fn number_in(s: Seq<char>) -> Option<nat> {
    if s.len() >= 2 && s[0] == 'B' && s[1] == 'K' {
        match split_at_char(s, '~') {
            Some((front, _)) if front.len() >= 2 => hex_parsed(front.skip(2)),
            _ => None,
        }
    } else {
        None
    }
}

/// A character is a hexadecimal digit.
pub open spec fn is_hex(c: char) -> bool {
    (c as u32) < 128 && hex_value(c as u8) is Some
}

/// The number that hexadecimal digits stand for.
pub open spec fn hex_number(s: Seq<char>) -> nat
    decreases s.len(),
{
    if s.len() == 0 {
        0
    } else {
        hex_number(s.drop_last()) * 16 + hex_value(s.last() as u8)->0 as nat
    }
}

/// The number that a text of hexadecimal digits stands for, where it fits into 32 bits.
pub open spec fn hex_parsed(s: Seq<char>) -> Option<nat> {
    if s.len() > 0 && (forall|i: int| 0 <= i < s.len() ==> is_hex(#[trigger] s[i])) && hex_number(s)
        <= u32::MAX {
        Some(hex_number(s))
    } else {
        None
    }
}

/// The highest number among the first `n` names; nought where there is none.
pub open spec fn highest(names: Seq<String>, n: int) -> nat
    decreases n,
{
    if n <= 0 {
        0
    } else {
        let before = highest(names, n - 1);
        match number_in(names[n - 1]@) {
            Some(v) if v > before => v,
            _ => before,
        }
    }
}

/// A hexadecimal digit, with capital letters.
pub open spec fn hex_capital(d: int) -> char {
    if d < 10 {
        (48 + d) as u8 as char
    } else {
        (65 + d - 10) as u8 as char
    }
}

/// Four hexadecimal digits.
pub open spec fn hex4(n: int) -> Seq<char> {
    seq![
        hex_capital(n / 4096 % 16),
        hex_capital(n / 256 % 16),
        hex_capital(n / 16 % 16),
        hex_capital(n % 16),
    ]
}

/// The short name with a number.
pub open spec fn numbered(n: int) -> Seq<char> {
    "BK"@ + hex4(n) + "~1.TXT"@
}

/// Reads hexadecimal digits.
fn parse_hex(s: &str) -> (r: Option<u32>)
    ensures
        match r {
            Some(v) => hex_parsed(s@) == Some(v as nat),
            None => hex_parsed(s@) is None,
        },
{
    let n: usize = s.unicode_len();
    if n == 0 {
        return None;
    }
    let mut v: u64 = 0;
    let mut big: bool = false;
    let mut i: usize = 0;
    assert(s@.take(0) =~= seq![]);
    while i < n
        invariant
            n == s@.len(),
            i <= n,
            v <= u32::MAX,
            forall|j: int| 0 <= j < i ==> is_hex(#[trigger] s@[j]),
            !big ==> v == hex_number(s@.take(i as int)),
            big ==> hex_number(s@.take(i as int)) > u32::MAX,
        decreases n - i,
    {
        let c: char = s.get_char(i);
        let u: u32 = c as u32;
        let d: u32 = if 48 <= u && u <= 57 {
            u - 48
        } else if 65 <= u && u <= 70 {
            u - 65 + 10
        } else if 97 <= u && u <= 102 {
            u - 97 + 10
        } else {
            assert(!is_hex(s@[i as int]));
            return None;
        };
        assert(is_hex(s@[i as int]));
        assert(s@.take(i + 1).drop_last() =~= s@.take(i as int));
        assert(hex_number(s@.take(i + 1)) == hex_number(s@.take(i as int)) * 16 + d);
        if !big {
            let w: u64 = v * 16 + d as u64;
            if w > u32::MAX as u64 {
                big = true;
            } else {
                v = w;
            }
        }
        i += 1;
    }
    assert(s@.take(n as int) =~= s@);
    if big {
        None
    } else {
        Some(v as u32)
    }
}

/// The number in a generated short name.
fn read_number(s: &str) -> (r: Option<u32>)
    ensures
        match r {
            Some(v) => number_in(s@) == Some(v as nat),
            None => number_in(s@) is None,
        },
{
    let n: usize = s.unicode_len();
    if n < 2 || s.get_char(0) != 'B' || s.get_char(1) != 'K' {
        return None;
    }
    match split_once(s, '~') {
        Some((front, _)) => {
            let m: usize = front.unicode_len();
            if m < 2 {
                return None;
            }
            let digits = front.substring_char(2, m);
            assert(digits@ =~= front@.skip(2));
            parse_hex(digits)
        },
        None => None,
    }
}

fn push_hex(s: &mut String, d: u32)
    requires
        d < 16,
    ensures
        final(s)@ == old(s)@.push(hex_capital(d as int)),
{
    let c: char = if d < 10 {
        (48 + d) as u8 as char
    } else {
        (65 + (d - 10)) as u8 as char
    };
    s.push(c);
}

proof fn lemma_hex_capital(d: int)
    requires
        0 <= d < 16,
    ensures
        is_hex(hex_capital(d)),
        is_plain(hex_capital(d)),
        hex_value(hex_capital(d) as u8) == Some(d),
        hex_capital(d) != '~',
        hex_capital(d) != '.',
{
}

proof fn lemma_hex4(n: int)
    requires
        0 <= n <= 0xffff,
    ensures
        hex4(n).len() == 4,
        forall|i: int| 0 <= i < 4 ==> is_hex(#[trigger] hex4(n)[i]),
        forall|i: int| 0 <= i < 4 ==> is_plain(#[trigger] hex4(n)[i]),
        forall|i: int| 0 <= i < 4 ==> #[trigger] hex4(n)[i] != '~',
{
    lemma_hex_capital(n / 4096 % 16);
    lemma_hex_capital(n / 256 % 16);
    lemma_hex_capital(n / 16 % 16);
    lemma_hex_capital(n % 16);
}

proof fn lemma_hex4_number(n: int)
    requires
        0 <= n <= 0xffff,
    ensures
        hex_number(hex4(n)) == n,
{
    let (a, b, c, d) = (n / 4096 % 16, n / 256 % 16, n / 16 % 16, n % 16);
    lemma_hex_capital(a);
    lemma_hex_capital(b);
    lemma_hex_capital(c);
    lemma_hex_capital(d);
    let s4 = hex4(n);
    let s3 = s4.drop_last();
    let s2 = s3.drop_last();
    let s1 = s2.drop_last();
    assert(s1.drop_last() =~= seq![]);
    assert(hex_number(s1.drop_last()) == 0);
    assert(s1.last() == hex_capital(a));
    assert(hex_number(s1) == a);
    assert(s2.last() == hex_capital(b));
    assert(hex_number(s2) == a * 16 + b);
    assert(s3.last() == hex_capital(c));
    assert(hex_number(s3) == (a * 16 + b) * 16 + c);
    assert(s4.last() == hex_capital(d));
    assert(hex_number(s4) == ((a * 16 + b) * 16 + c) * 16 + d);
}

proof fn lemma_find_tilde(s: Seq<char>, i: int, p: int)
    requires
        0 <= i <= p < s.len(),
        s[p] == '~',
        forall|j: int| i <= j < p ==> s[j] != '~',
    ensures
        find_from(s, '~', i) == p,
    decreases p - i,
{
    if i < p {
        lemma_find_tilde(s, i + 1, p);
    }
}

proof fn lemma_numbered(n: int)
    requires
        0 <= n <= 0xffff,
    ensures
        is_plain_name(numbered(n)),
        number_in(numbered(n)) == Some(n as nat),
{
    reveal_strlit("BK");
    reveal_strlit("~1.TXT");
    lemma_hex4(n);
    let s = numbered(n);
    assert(s.len() == 12);
    assert(s[8] == '.');
    assert forall|i: int| 0 <= i < s.len() && i != 8 implies is_plain(#[trigger] s[i]) by {
        if 2 <= i < 6 {
            assert(s[i] == hex4(n)[i - 2]);
        }
    }
    assert forall|j: int| 0 <= j < 6 implies s[j] != '~' by {
        if 2 <= j {
            assert(s[j] == hex4(n)[j - 2]);
        }
    }
    lemma_find_tilde(s, 0, 6);
    assert(s.take(6).skip(2) =~= hex4(n));
    lemma_hex4_number(n);
}

impl SdMount {
    /// Makes a short name that no file of the directory has: the one with the number after the highest.
    pub fn generate_unique_short_name(names: &Vec<String>) -> (r: Result<String, SdError>)
        ensures
            ({
                let next = highest(names@, names@.len() as int) + 1;
                if next <= 0xffff {
                    r matches Ok(t) && t@ == numbered(next as int)
                } else {
                    r == Err::<String, SdError>(SdError::FileNotFound)
                }
            }),
    {
        let mut max: u32 = 0;
        let mut i: usize = 0;
        while i < names.len()
            invariant
                i <= names@.len(),
                max == highest(names@, i as int),
            decreases names@.len() - i,
        {
            if let Some(v) = read_number(names[i].as_str()) {
                if v > max {
                    max = v;
                }
            }
            i += 1;
        }
        if max >= 0xffff {
            return Err(SdError::FileNotFound);
        }
        let next: u32 = max + 1;
        let mut digits = String::new();
        push_hex(&mut digits, next / 4096 % 16);
        push_hex(&mut digits, next / 256 % 16);
        push_hex(&mut digits, next / 16 % 16);
        push_hex(&mut digits, next % 16);
        assert(digits@ =~= hex4(next as int));
        proof {
            lemma_numbered(next as int);
        }
        match create_short_name(join3("BK", digits.as_str(), "~1.TXT").as_str()) {
            Some(t) => Ok(t),
            None => Err(SdError::FileNotFound),
        }
    }
}

proof fn lemma_highest(names: Seq<String>, n: int, i: int)
    requires
        0 <= i < n <= names.len(),
    ensures
        number_in(names[i]@) matches Some(v) ==> v <= highest(names, n),
    decreases n,
{
    if i < n - 1 {
        lemma_highest(names, n - 1, i);
    }
}

/// A generated short name is none of those that are there.
pub proof fn law_generated_name_is_new(names: Seq<String>, i: int)
    requires
        0 <= i < names.len(),
        highest(names, names.len() as int) < 0xffff,
    ensures
        names[i]@ != numbered(highest(names, names.len() as int) as int + 1),
{
    let next = highest(names, names.len() as int) + 1;
    lemma_numbered(next as int);
    lemma_highest(names, names.len() as int, i);
}

/// A character of the first plane is one unit of UTF-16, its own number; any other is two, which give
/// its number back: ten bits each, over 65536.
pub proof fn law_units_give_their_character_back(c: char)
    ensures
        ({
            let u = utf16_of(c);
            &&& c as int <= 0xffff ==> u.len() == 1 && u[0] == c as int
            &&& c as int > 0xffff ==> u.len() == 2 && 0xd800 <= u[0] < 0xdc00 && 0xdc00 <= u[1] < 0xe000
                && 0x10000 + (u[0] - 0xd800) * 1024 + (u[1] - 0xdc00) == c as int
        }),
{
    char_is_scalar(c);
}

} // verus!
