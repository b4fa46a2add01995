//! The FAT12 volume driver: 512-byte sector access over an in-memory image,
//! 12-bit allocation-table decoding, root- and subdirectory scanning, and
//! cluster-chain file reads.
//!
//! Layout of the image: reserved boot sector, two 9-sector table copies
//! starting at sector 1 (only the first is read), a 14-sector root directory
//! at sectors 19 through 32, then the data region at sector 33 with cluster 2
//! as its first cluster.
//!
//! Conventions this driver fixes explicitly:
//! - A root scan stops at the first record whose leading byte is zero and
//!   skips deleted records (leading byte 0xE5); a subdirectory scan skips
//!   both kinds of record and walks the whole chain.
//! - A record name is the 8-byte base and 3-byte extension concatenated, with
//!   every byte outside the printable ASCII range (including the 0x20 padding
//!   spaces) removed.
//! - Name lookup ignores ASCII case and ignores `.` in the query, so the
//!   query `AUTOEXEC.BAT` finds the record named `AUTOEXECBAT`.
//! - Every sector and table access is bounds-checked and a chain walk is
//!   bounded by a fuel larger than any acyclic 12-bit chain; an out-of-range
//!   access or an endless chain yields an absent result instead of a fault.

use vstd::prelude::*;
use vstd::slice::slice_subrange;

use crate::text::{
    folded_name, keys_equal, render_text, spec_folded_name, spec_rendered, str_chars,
    string_of_chars,
};
use vstd::string::StringExecFns;
use crate::vfs::{
    entry_models, DirEntry, DirModel, Directory, EntryModel, File, FileModel, Filesystem,
};

verus! {

/// Bytes per logical sector.
pub const SECTOR_SIZE: usize = 512;

/// Table values at or above this mark the end of a chain.
pub const END_OF_CHAIN: u16 = 0xFF8;

/// More steps than any acyclic 12-bit chain can have; walking further than
/// this means the table holds a cycle.
pub const CHAIN_FUEL: usize = 4096;

/// A read-only FAT12 volume over an in-memory image.
pub struct Fat12Volume {
    image: Vec<u8>,
}

impl View for Fat12Volume {
    type V = Seq<u8>;

    closed spec fn view(&self) -> Seq<u8> {
        self.image@
    }
}

/// Whether sector `lba` lies entirely inside the image.
pub open spec fn sector_in_image(img: Seq<u8>, lba: int) -> bool {
    0 <= lba && (lba + 1) * 512 <= img.len()
}

/// The 512 bytes of sector `lba`.
pub open spec fn sector_bytes(img: Seq<u8>, lba: int) -> Seq<u8> {
    img.subrange(512 * lba, 512 * lba + 512)
}

/// Decodes the table entry of an even cluster from its byte pair.
pub open spec fn fat_pair_even(b0: u8, b1: u8) -> u16 {
    (b0 as u16) | (((b1 as u16) & 0x0F) << 8)
}

/// Decodes the table entry of an odd cluster from its byte pair.
pub open spec fn fat_pair_odd(b1: u8, b2: u8) -> u16 {
    ((b2 as u16) << 4) | (((b1 as u16) & 0xF0) >> 4)
}

/// The image offset of the first byte holding cluster `c`'s table entry.
pub open spec fn fat_index(c: nat) -> int {
    512 + ((3 * c) / 2) as int
}

/// Whether cluster `c`'s table entry lies inside the first table copy.
pub open spec fn fat_entry_readable(img: Seq<u8>, c: nat) -> bool {
    img.len() >= 5120 && fat_index(c) + 1 < 5120
}

/// The next cluster after `c` according to the allocation table: each entry
/// is 12 bits, two entries packed into three bytes.
pub open spec fn spec_fat_entry(img: Seq<u8>, c: nat) -> u16 {
    if c % 2 == 0 {
        fat_pair_even(img[fat_index(c)], img[fat_index(c) + 1])
    } else {
        fat_pair_odd(img[fat_index(c)], img[fat_index(c) + 1])
    }
}

/// A name byte that survives cleaning: printable ASCII, not the space used
/// as field padding.
pub open spec fn name_byte_kept(b: u8) -> bool {
    0x20 < b < 0x7F
}

/// The cleaned name of a raw 8.3 name field: padding spaces and bytes
/// outside printable ASCII are removed everywhere, not merely at the ends.
pub open spec fn cleaned_name(raw: Seq<u8>) -> Seq<char>
    decreases raw.len(),
{
    if raw.len() == 0 {
        Seq::empty()
    } else {
        let rest = cleaned_name(raw.drop_last());
        if name_byte_kept(raw.last()) {
            rest.push(raw.last() as char)
        } else {
            rest
        }
    }
}

/// A 16-bit little-endian value from two bytes.
pub open spec fn le16(lo: u8, hi: u8) -> u16 {
    (lo as u16) | ((hi as u16) << 8)
}

/// A 32-bit little-endian value from four bytes.
pub open spec fn le32(b0: u8, b1: u8, b2: u8, b3: u8) -> u32 {
    (b0 as u32) | ((b1 as u32) << 8) | ((b2 as u32) << 16) | ((b3 as u32) << 24)
}

/// The structured content of one 32-byte directory record.
pub open spec fn spec_parse_record(rec: Seq<u8>) -> EntryModel {
    EntryModel {
        name: cleaned_name(rec.subrange(0, 11)),
        is_dir: (rec[11] & 0x10) != 0,
        cluster: le16(rec[26], rec[27]),
        size: le32(rec[28], rec[29], rec[30], rec[31]),
    }
}

/// Whether the whole root directory region lies inside the image.
pub open spec fn root_in_image(img: Seq<u8>) -> bool {
    img.len() >= 16896
}

/// The bytes of root record `j`.
pub open spec fn root_record(img: Seq<u8>, j: int) -> Seq<u8> {
    img.subrange(9728 + 32 * j, 9728 + 32 * j + 32)
}

/// The root listing from record `j` on: a zero leading byte ends the whole
/// scan, a 0xE5 leading byte skips one record.
pub open spec fn spec_root_listing_from(img: Seq<u8>, j: int) -> Seq<EntryModel>
    decreases 224 - j,
{
    if j < 0 || j >= 224 {
        Seq::empty()
    } else if root_record(img, j)[0] == 0x00 {
        Seq::empty()
    } else if root_record(img, j)[0] == 0xE5 {
        spec_root_listing_from(img, j + 1)
    } else {
        seq![spec_parse_record(root_record(img, j))] + spec_root_listing_from(img, j + 1)
    }
}

/// The full root listing, absent when the root region is out of bounds.
pub open spec fn spec_root_listing(img: Seq<u8>) -> Option<Seq<EntryModel>> {
    if root_in_image(img) {
        Option::Some(spec_root_listing_from(img, 0))
    } else {
        Option::None
    }
}

/// The root lookup from record `j` on, by folded-name key: the start cluster
/// and size of the first live record whose name folds to `key`.
pub open spec fn spec_find_from(img: Seq<u8>, key: Seq<u32>, j: int) -> Option<(u16, u32)>
    decreases 224 - j,
{
    if j < 0 || j >= 224 {
        Option::None
    } else {
        let rec = root_record(img, j);
        if rec[0] == 0x00 {
            Option::None
        } else if rec[0] == 0xE5 {
            spec_find_from(img, key, j + 1)
        } else if spec_folded_name(cleaned_name(rec.subrange(0, 11))) == key {
            Option::Some((le16(rec[26], rec[27]), le32(rec[28], rec[29], rec[30], rec[31])))
        } else {
            spec_find_from(img, key, j + 1)
        }
    }
}

/// The root lookup of a name: case is ignored and `.` in the query is
/// ignored; absent when nothing matches or the root region is out of bounds.
pub open spec fn spec_find_file(img: Seq<u8>, name: Seq<char>) -> Option<(u16, u32)> {
    if root_in_image(img) {
        spec_find_from(img, spec_folded_name(name), 0)
    } else {
        Option::None
    }
}

/// The sector holding data cluster `c`.
pub open spec fn cluster_lba(c: u16) -> int {
    33 + c - 2
}

/// The bytes of the chain starting at cluster `c`, up to `remaining` bytes:
/// `min(remaining, 512)` bytes from each sector in turn. Absent when a
/// cluster is invalid, a sector or table read would leave the image, or the
/// fuel runs out (the chain has a cycle).
pub open spec fn spec_chain_bytes(img: Seq<u8>, c: u16, remaining: u32, fuel: nat) -> Option<
    Seq<u8>,
>
    decreases fuel,
{
    if c >= 0xFF8 || remaining == 0 {
        Option::Some(Seq::empty())
    } else if fuel == 0 || c < 2 || !sector_in_image(img, cluster_lba(c)) || !fat_entry_readable(
        img,
        c as nat,
    ) {
        Option::None
    } else {
        let take: int = if remaining < 512 {
            remaining as int
        } else {
            512
        };
        let part = sector_bytes(img, cluster_lba(c)).take(take);
        match spec_chain_bytes(
            img,
            spec_fat_entry(img, c as nat),
            (remaining - take) as u32,
            (fuel - 1) as nat,
        ) {
            Option::None => Option::None,
            Option::Some(rest) => Option::Some(part + rest),
        }
    }
}

/// The entries of one directory sector from record `k` on: zero and 0xE5
/// leading bytes both skip a record here.
pub open spec fn spec_sector_entries(img: Seq<u8>, lba: int, k: int) -> Seq<EntryModel>
    decreases 16 - k,
{
    if k < 0 || k >= 16 {
        Seq::empty()
    } else {
        let rec = img.subrange(512 * lba + 32 * k, 512 * lba + 32 * k + 32);
        let rest = spec_sector_entries(img, lba, k + 1);
        if rec[0] == 0x00 || rec[0] == 0xE5 {
            rest
        } else {
            seq![spec_parse_record(rec)] + rest
        }
    }
}

/// The entries of the subdirectory whose chain starts at cluster `c`.
pub open spec fn spec_subdir_entries(img: Seq<u8>, c: u16, fuel: nat) -> Option<Seq<EntryModel>>
    decreases fuel,
{
    if c >= 0xFF8 {
        Option::Some(Seq::empty())
    } else if fuel == 0 || c < 2 || !sector_in_image(img, cluster_lba(c)) || !fat_entry_readable(
        img,
        c as nat,
    ) {
        Option::None
    } else {
        match spec_subdir_entries(img, spec_fat_entry(img, c as nat), (fuel - 1) as nat) {
            Option::None => Option::None,
            Option::Some(rest) => Option::Some(
                spec_sector_entries(img, cluster_lba(c), 0) + rest,
            ),
        }
    }
}

/// A path with every leading and trailing separator removed.
pub open spec fn strip_slashes(s: Seq<char>) -> Seq<char>
    decreases s.len(),
{
    if s.len() > 0 && s[0] == '/' {
        strip_slashes(s.drop_first())
    } else if s.len() > 0 && s.last() == '/' {
        strip_slashes(s.drop_last())
    } else {
        s
    }
}

/// What opening a path yields: the path is stripped of separators, resolved
/// in the root directory only, and the file's chain is read up to its
/// declared size.
pub open spec fn spec_volume_open(img: Seq<u8>, path: Seq<char>) -> Option<FileModel> {
    let q = strip_slashes(path);
    match spec_find_file(img, q) {
        Option::None => Option::None,
        Option::Some((c, size)) => match spec_chain_bytes(img, c, size, 4096) {
            Option::None => Option::None,
            Option::Some(data) => Option::Some(FileModel { name: q, data }),
        },
    }
}

/// What listing a path yields: the stripped empty path lists the root; any
/// other path resolves its name in the root directory and lists that
/// record's cluster chain.
pub open spec fn spec_volume_list_dir(img: Seq<u8>, path: Seq<char>) -> Option<DirModel> {
    let q = strip_slashes(path);
    if q.len() == 0 {
        match spec_root_listing(img) {
            Option::None => Option::None,
            Option::Some(es) => Option::Some(DirModel { name: seq!['/'], entries: es }),
        }
    } else {
        match spec_find_file(img, q) {
            Option::None => Option::None,
            Option::Some((c, _size)) => match spec_subdir_entries(img, c, 4096) {
                Option::None => Option::None,
                Option::Some(es) => Option::Some(DirModel { name: q, entries: es }),
            },
        }
    }
}

/// What reading a file as text yields: the file's bytes with carriage
/// returns and null bytes dropped; a line feed stays the newline character.
pub open spec fn spec_volume_read_text(img: Seq<u8>, name: Seq<char>) -> Option<Seq<char>> {
    match spec_find_file(img, name) {
        Option::None => Option::None,
        Option::Some((c, size)) => match spec_chain_bytes(img, c, size, 4096) {
            Option::None => Option::None,
            Option::Some(data) => Option::Some(spec_rendered(data)),
        },
    }
}

/// Law: table decoding is correct for both parities. For the three bytes
/// `[b0, b1, b2]` holding the entries of an even cluster `c` and of `c + 1`,
/// the even entry is `b0 | ((b1 & 0x0F) << 8)` and the odd entry is
/// `(b2 << 4) | (b1 >> 4)`.
#[verifier::rlimit(30)]
pub proof fn lemma_fat_pair_decoding(img: Seq<u8>, c: nat)
    requires
        c % 2 == 0,
    ensures
        spec_fat_entry(img, c) == (img[fat_index(c)] as u16) | (((img[fat_index(c) + 1]
            as u16) & 0x0F) << 8),
        spec_fat_entry(img, c + 1) == ((img[fat_index(c) + 2] as u16) << 4) | ((img[fat_index(
            c,
        ) + 1] as u16) >> 4),
{
    let d = c / 2;
    assert(c == 2 * d);
    assert((3 * c) / 2 == 3 * d) by (nonlinear_arith)
        requires
            c == 2 * d,
    ;
    assert((3 * (c + 1)) / 2 == 3 * d + 1) by (nonlinear_arith)
        requires
            c == 2 * d,
    ;
    assert(fat_index(c + 1) == fat_index(c) + 1);
    let b1 = img[fat_index(c) + 1] as u16;
    assert((b1 & 0xF0) >> 4 == b1 >> 4) by (bit_vector)
        requires
            b1 <= 255,
    ;
}

/// Law: cleaning is idempotent. A name whose bytes already survive cleaning
/// is only transliterated, byte for byte; cleaning it removes nothing more.
pub proof fn lemma_cleaning_idempotent(raw: Seq<u8>)
    requires
        forall|i: int| 0 <= i < raw.len() ==> name_byte_kept(raw[i]),
    ensures
        cleaned_name(raw) == raw.map_values(|b: u8| b as char),
    decreases raw.len(),
{
    if raw.len() == 0 {
        assert(cleaned_name(raw) =~= raw.map_values(|b: u8| b as char));
    } else {
        lemma_cleaning_idempotent(raw.drop_last());
        assert(raw.map_values(|b: u8| b as char) =~= raw.drop_last().map_values(
            |b: u8| b as char,
        ).push(raw.last() as char));
    }
}

/// Law: padding spaces are removed everywhere, not merely trimmed at the
/// ends: a cleaned name never contains the space character.
pub proof fn lemma_cleaning_removes_padding(raw: Seq<u8>)
    ensures
        forall|i: int| 0 <= i < cleaned_name(raw).len() ==> cleaned_name(raw)[i] != ' ',
    decreases raw.len(),
{
    if raw.len() > 0 {
        lemma_cleaning_removes_padding(raw.drop_last());
        let rest = cleaned_name(raw.drop_last());
        if name_byte_kept(raw.last()) {
            let c = raw.last() as char;
            assert(c as u32 == raw.last() as u32);
            assert(c != ' ');
            assert(cleaned_name(raw) == rest.push(c));
            assert forall|i: int| 0 <= i < cleaned_name(raw).len() implies cleaned_name(raw)[i]
                != ' ' by {
                if i < rest.len() {
                    assert(cleaned_name(raw)[i] == rest[i]);
                } else {
                    assert(cleaned_name(raw)[i] == c);
                }
            }
        } else {
            assert(cleaned_name(raw) == rest);
        }
    }
}

/// What decoding the embedded volume text yields. Relies on base64::decode
/// being a function of the input text alone (standard alphabet, padded).
pub uninterp spec fn base64_decoding(s: Seq<char>) -> Option<Seq<u8>>;

/// Relies on `base64::decode`: standard-alphabet decoding of the given text,
/// absent exactly when the text is not valid base64.
#[verifier::external_body]
fn decode_base64(text: &str) -> (r: Option<Vec<u8>>)
    ensures
        match base64_decoding(text@) {
            Option::None => r is None,
            Option::Some(bytes) => r matches Option::Some(v) && v@ == bytes,
        },
{
    match base64::decode(text) {
        Ok(v) => Some(v),
        Err(_) => None,
    }
}

impl Fat12Volume {
    /// Wraps an in-memory image as a volume.
    pub fn new(image: Vec<u8>) -> (r: Self)
        ensures
            r@ == image@,
    {
        Fat12Volume { image }
    }

    /// Builds a volume from a base64-encoded image, as shipped embedded in
    /// the kernel binary; absent when the text does not decode.
    pub fn from_base64(text: &str) -> (r: Option<Self>)
        ensures
            match base64_decoding(text@) {
                Option::None => r is None,
                Option::Some(bytes) => r matches Option::Some(vol) && vol@ == bytes,
            },
    {
        match decode_base64(text) {
            None => None,
            Some(image) => Some(Fat12Volume::new(image)),
        }
    }

    /// Reads one 512-byte logical sector; absent when the sector would reach
    /// past the end of the image.
    pub fn read_sector(&self, lba: usize) -> (r: Option<&[u8]>)
        ensures
            r is Some <==> sector_in_image(self@, lba as int),
            r matches Option::Some(s) ==> s@ == sector_bytes(self@, lba as int),
    {
        let ghost n: int = self@.len() as int;
        if lba >= self.image.len() / SECTOR_SIZE {
            proof {
                assert((lba as int + 1) * 512 > n) by (nonlinear_arith)
                    requires
                        (lba as int) >= n / 512,
                        n >= 0,
                ;
            }
            return None;
        }
        proof {
            assert((lba as int + 1) * 512 <= n) by (nonlinear_arith)
                requires
                    (lba as int) < n / 512,
                    n >= 0,
            ;
        }
        let start = lba * SECTOR_SIZE;
        Some(slice_subrange(self.image.as_slice(), start, start + SECTOR_SIZE))
    }

    /// Returns the first allocation-table copy (sectors 1 through 9);
    /// absent when the image is too short to hold it.
    pub fn read_fat(&self) -> (r: Option<&[u8]>)
        ensures
            r is Some <==> self@.len() >= 5120,
            r matches Option::Some(s) ==> s@ == self@.subrange(512, 5120),
    {
        if self.image.len() < 5120 {
            return None;
        }
        Some(slice_subrange(self.image.as_slice(), 512, 5120))
    }

    /// Collects the cleaned name characters of the 11-byte name field at
    /// `off` in the image.
    fn record_name_chars(&self, off: usize) -> (r: Vec<char>)
        requires
            off + 11 <= self@.len(),
        ensures
            r@ == cleaned_name(self@.subrange(off as int, off as int + 11)),
    {
        let ghost raw = self@.subrange(off as int, off as int + 11);
        let n = self.image.len();
        let mut r: Vec<char> = Vec::new();
        let mut i: usize = 0;
        while i < 11
            invariant
                i <= 11,
                n == self@.len(),
                off + 11 <= n,
                raw == self@.subrange(off as int, off as int + 11),
                r@ == cleaned_name(raw.subrange(0, i as int)),
            decreases 11 - i,
        {
            let b = self.image[off + i];
            assert(b == raw[i as int]);
            if 0x20 < b && b < 0x7F {
                r.push(b as char);
            }
            i = i + 1;
            assert(raw.subrange(0, i as int).drop_last() =~= raw.subrange(0, i - 1));
        }
        assert(raw.subrange(0, 11) =~= raw);
        r
    }

    /// Parses the 32-byte directory record at `off` in the image.
    fn parse_record(&self, off: usize) -> (r: DirEntry)
        requires
            off + 32 <= self@.len(),
        ensures
            r@ == spec_parse_record(self@.subrange(off as int, off as int + 32)),
    {
        let ghost rec = self@.subrange(off as int, off as int + 32);
        let n = self.image.len();
        assert(off + 32 <= n);
        let chars = self.record_name_chars(off);
        assert(rec.subrange(0, 11) =~= self@.subrange(off as int, off as int + 11));
        let name = string_of_chars(&chars);
        let attr = self.image[off + 11];
        let is_dir = attr & 0x10 != 0;
        let cluster = (self.image[off + 26] as u16) | ((self.image[off + 27] as u16) << 8);
        let size = (self.image[off + 28] as u32) | ((self.image[off + 29] as u32) << 8) | ((
        self.image[off + 30] as u32) << 16) | ((self.image[off + 31] as u32) << 24);
        DirEntry { name, is_dir, cluster, size }
    }

    /// Lists the root directory region (sectors 19 through 32): the scan
    /// ends at the first record whose leading byte is zero and skips deleted
    /// records. Absent when the root region reaches past the image.
    pub fn list_root_dir(&self) -> (r: Option<Vec<DirEntry>>)
        ensures
            match spec_root_listing(self@) {
                Option::None => r is None,
                Option::Some(es) => r matches Option::Some(v) && entry_models(v@) == es,
            },
    {
        if self.image.len() < 16896 {
            return None;
        }
        let mut out: Vec<DirEntry> = Vec::new();
        let mut j: usize = 0;
        while j < 224
            invariant_except_break
                j <= 224,
                self@.len() >= 16896,
                entry_models(out@) + spec_root_listing_from(self@, j as int)
                    == spec_root_listing_from(self@, 0),
            ensures
                entry_models(out@) == spec_root_listing_from(self@, 0),
            decreases 224 - j,
        {
            let off = 9728 + 32 * j;
            let first = self.image[off];
            assert(first == root_record(self@, j as int)[0]);
            if first == 0x00 {
                proof {
                    assert(entry_models(out@) + spec_root_listing_from(self@, j as int)
                        =~= entry_models(out@));
                }
                break;
            }
            if first != 0xE5 {
                let e = self.parse_record(off);
                assert(self@.subrange(off as int, off as int + 32) =~= root_record(
                    self@,
                    j as int,
                ));
                let ghost out0 = out@;
                out.push(e);
                proof {
                    assert(entry_models(out@) =~= entry_models(out0).push(e@));
                    assert(entry_models(out0).push(e@) + spec_root_listing_from(self@, j + 1)
                        =~= entry_models(out0) + (seq![e@] + spec_root_listing_from(
                        self@,
                        j + 1,
                    )));
                }
            }
            j = j + 1;
        }
        Some(out)
    }

    /// Looks a name up in the root directory: ASCII case is ignored and `.`
    /// in the query is ignored; returns the first matching record's start
    /// cluster and size.
    pub fn find_file(&self, name: &str) -> (r: Option<(u16, u32)>)
        ensures
            r == spec_find_file(self@, name@),
    {
        if self.image.len() < 16896 {
            return None;
        }
        let chars = str_chars(name);
        let key = folded_name(&chars);
        let mut j: usize = 0;
        while j < 224
            invariant
                j <= 224,
                self@.len() >= 16896,
                key@ == spec_folded_name(name@),
                spec_find_from(self@, key@, j as int) == spec_find_from(self@, key@, 0),
            decreases 224 - j,
        {
            let off = 9728 + 32 * j;
            let first = self.image[off];
            assert(first == root_record(self@, j as int)[0]);
            if first == 0x00 {
                return None;
            }
            if first != 0xE5 {
                let nm = self.record_name_chars(off);
                assert(root_record(self@, j as int).subrange(0, 11) =~= self@.subrange(
                    off as int,
                    off as int + 11,
                ));
                let ekey = folded_name(&nm);
                if keys_equal(&ekey, &key) {
                    let cluster = (self.image[off + 26] as u16) | ((self.image[off + 27]
                        as u16) << 8);
                    let size = (self.image[off + 28] as u32) | ((self.image[off + 29]
                        as u32) << 8) | ((self.image[off + 30] as u32) << 16) | ((self.image[off
                        + 31] as u32) << 24);
                    return Some((cluster, size));
                }
            }
            j = j + 1;
        }
        None
    }

    /// Reads the chain starting at `start`, delivering at most `size` bytes;
    /// absent when a cluster is invalid, a read would leave the image, or
    /// the chain does not end within the fuel bound.
    fn read_chain(&self, start: u16, size: u32) -> (r: Option<Vec<u8>>)
        ensures
            match spec_chain_bytes(self@, start, size, 4096) {
                Option::None => r is None,
                Option::Some(d) => r matches Option::Some(v) && v@ == d,
            },
    {
        let mut out: Vec<u8> = Vec::new();
        let mut c: u16 = start;
        let mut remaining: u32 = size;
        let mut fuel: usize = CHAIN_FUEL;
        loop
            invariant_except_break
                spec_chain_bytes(self@, start, size, 4096) == (match spec_chain_bytes(
                    self@,
                    c,
                    remaining,
                    fuel as nat,
                ) {
                    Option::None => Option::None::<Seq<u8>>,
                    Option::Some(rest) => Option::Some(out@ + rest),
                }),
            ensures
                spec_chain_bytes(self@, start, size, 4096) matches Option::Some(d) && d == out@,
            decreases fuel,
        {
            if c >= END_OF_CHAIN || remaining == 0 {
                proof {
                    assert(out@ + Seq::<u8>::empty() =~= out@);
                }
                break;
            }
            if fuel == 0 || c < 2 {
                return None;
            }
            if self.image.len() < 5120 || (c as usize) * 3 / 2 + 513 >= 5120 {
                return None;
            }
            let lba: usize = 33 + c as usize - 2;
            let sb: usize = lba * 512;
            if sb + 512 > self.image.len() {
                return None;
            }
            let take: u32 = if remaining < 512 {
                remaining
            } else {
                512
            };
            let ghost out0 = out@;
            let mut t: usize = 0;
            while t < take as usize
                invariant
                    t <= take as usize,
                    take <= 512,
                    sb == lba * 512,
                    sb + 512 <= self@.len(),
                    out@ == out0 + self@.subrange(sb as int, sb as int + t),
                decreases take as usize - t,
            {
                let b = self.image[sb + t];
                out.push(b);
                proof {
                    assert(out0 + self@.subrange(sb as int, sb as int + t + 1) =~= (out0
                        + self@.subrange(sb as int, sb as int + t)).push(b));
                }
                t = t + 1;
            }
            proof {
                assert(sector_bytes(self@, lba as int).take(take as int) =~= self@.subrange(
                    sb as int,
                    sb as int + take as int,
                ));
            }
            let next = self.read_fat_entry(c).unwrap();
            proof {
                let rem2 = (remaining - take) as u32;
                match spec_chain_bytes(self@, next, rem2, (fuel - 1) as nat) {
                    Option::None => {},
                    Option::Some(rest) => {
                        assert(out@ + rest =~= out0 + (sector_bytes(self@, lba as int).take(
                            take as int,
                        ) + rest));
                    },
                }
            }
            c = next;
            remaining = remaining - take;
            fuel = fuel - 1;
        }
        Some(out)
    }

    /// Lists the subdirectory whose chain starts at `start_cluster`: every
    /// sector of the chain is scanned and records with a zero or 0xE5
    /// leading byte are skipped.
    pub fn read_directory_from_cluster(&self, start_cluster: u16) -> (r: Option<Vec<DirEntry>>)
        ensures
            match spec_subdir_entries(self@, start_cluster, 4096) {
                Option::None => r is None,
                Option::Some(es) => r matches Option::Some(v) && entry_models(v@) == es,
            },
    {
        let mut out: Vec<DirEntry> = Vec::new();
        let mut c: u16 = start_cluster;
        let mut fuel: usize = CHAIN_FUEL;
        loop
            invariant_except_break
                spec_subdir_entries(self@, start_cluster, 4096) == (match spec_subdir_entries(
                    self@,
                    c,
                    fuel as nat,
                ) {
                    Option::None => Option::None::<Seq<EntryModel>>,
                    Option::Some(rest) => Option::Some(entry_models(out@) + rest),
                }),
            ensures
                spec_subdir_entries(self@, start_cluster, 4096) matches Option::Some(es) && es
                    == entry_models(out@),
            decreases fuel,
        {
            if c >= END_OF_CHAIN {
                proof {
                    assert(entry_models(out@) + Seq::<EntryModel>::empty() =~= entry_models(out@));
                }
                break;
            }
            if fuel == 0 || c < 2 {
                return None;
            }
            if self.image.len() < 5120 || (c as usize) * 3 / 2 + 513 >= 5120 {
                return None;
            }
            let lba: usize = 33 + c as usize - 2;
            let sb: usize = lba * 512;
            if sb + 512 > self.image.len() {
                return None;
            }
            let ghost out0 = out@;
            let mut k: usize = 0;
            while k < 16
                invariant
                    k <= 16,
                    sb == lba * 512,
                    sb + 512 <= self@.len(),
                    entry_models(out@) + spec_sector_entries(self@, lba as int, k as int)
                        == entry_models(out0) + spec_sector_entries(self@, lba as int, 0),
                decreases 16 - k,
            {
                let off = sb + 32 * k;
                let ghost rec = self@.subrange(
                    512 * lba as int + 32 * k as int,
                    512 * lba as int + 32 * k as int + 32,
                );
                let first = self.image[off];
                assert(first == rec[0]);
                if first != 0x00 && first != 0xE5 {
                    let e = self.parse_record(off);
                    assert(self@.subrange(off as int, off as int + 32) =~= rec);
                    let ghost outk = out@;
                    out.push(e);
                    proof {
                        assert(entry_models(out@) =~= entry_models(outk).push(e@));
                        assert(entry_models(outk).push(e@) + spec_sector_entries(
                            self@,
                            lba as int,
                            k + 1,
                        ) =~= entry_models(outk) + (seq![e@] + spec_sector_entries(
                            self@,
                            lba as int,
                            k + 1,
                        )));
                    }
                }
                k = k + 1;
            }
            let next = self.read_fat_entry(c).unwrap();
            proof {
                match spec_subdir_entries(self@, next, (fuel - 1) as nat) {
                    Option::None => {},
                    Option::Some(rest) => {
                        assert(entry_models(out@) + rest =~= entry_models(out0)
                            + (spec_sector_entries(self@, lba as int, 0) + rest));
                    },
                }
            }
            c = next;
            fuel = fuel - 1;
        }
        Some(out)
    }

    /// Resolves a file name in the root directory and returns its contents
    /// rendered as terminal text: carriage returns and null bytes dropped,
    /// line feeds kept as newlines. Absent when the name does not resolve or
    /// the chain cannot be read whole.
    pub fn read_file_contents(&self, filename: &str) -> (r: Option<String>)
        ensures
            match spec_volume_read_text(self@, filename@) {
                Option::None => r is None,
                Option::Some(t) => r matches Option::Some(s) && s@ == t,
            },
    {
        match self.find_file(filename) {
            None => None,
            Some((c, size)) => match self.read_chain(c, size) {
                None => None,
                Some(data) => Some(render_text(&data)),
            },
        }
    }

    /// Strips leading and trailing separators from a path.
    fn strip_path(path: &str) -> (r: Vec<char>)
        ensures
            r@ == strip_slashes(path@),
    {
        let v = str_chars(path);
        let mut lo: usize = 0;
        let mut hi: usize = v.len();
        assert(v@.subrange(0, v@.len() as int) =~= v@);
        while lo < hi && v[lo] == '/'
            invariant
                lo <= hi,
                hi == v@.len(),
                v@ == path@,
                strip_slashes(path@) == strip_slashes(v@.subrange(lo as int, hi as int)),
            decreases hi - lo,
        {
            assert(v@.subrange(lo as int, hi as int).drop_first() =~= v@.subrange(
                lo + 1,
                hi as int,
            ));
            lo = lo + 1;
        }
        while hi > lo && v[hi - 1] == '/'
            invariant
                lo <= hi <= v@.len(),
                v@ == path@,
                lo == hi || v@[lo as int] != '/',
                strip_slashes(path@) == strip_slashes(v@.subrange(lo as int, hi as int)),
            decreases hi,
        {
            assert(v@.subrange(lo as int, hi as int).drop_last() =~= v@.subrange(
                lo as int,
                hi - 1,
            ));
            hi = hi - 1;
        }
        let mut r: Vec<char> = Vec::new();
        let mut i: usize = lo;
        while i < hi
            invariant
                lo <= i <= hi <= v@.len(),
                r@ == v@.subrange(lo as int, i as int),
            decreases hi - i,
        {
            r.push(v[i]);
            i = i + 1;
            assert(v@.subrange(lo as int, i as int) =~= v@.subrange(lo as int, i - 1).push(
                v@[i - 1],
            ));
        }
        assert(r@ =~= v@.subrange(lo as int, hi as int));
        r
    }

    /// Decodes the next cluster after `cluster` from the 12-bit table;
    /// absent when the entry lies outside the table window or the image.
    pub fn read_fat_entry(&self, cluster: u16) -> (r: Option<u16>)
        ensures
            r is Some <==> fat_entry_readable(self@, cluster as nat),
            r matches Option::Some(v) ==> v == spec_fat_entry(self@, cluster as nat),
    {
        let off: usize = (cluster as usize) * 3 / 2;
        if self.image.len() < 5120 || off + 513 >= 5120 {
            return None;
        }
        let first = self.image[512 + off];
        let second = self.image[512 + off + 1];
        if cluster % 2 == 0 {
            Some((first as u16) | (((second as u16) & 0x0F) << 8))
        } else {
            Some(((second as u16) << 4) | (((first as u16) & 0xF0) >> 4))
        }
    }
}

impl Filesystem for Fat12Volume {
    /// What opening a path yields on this volume.
    open spec fn fs_open(&self, path: Seq<char>) -> Option<FileModel> {
        spec_volume_open(self@, path)
    }

    /// What listing a path yields on this volume.
    open spec fn fs_list_dir(&self, path: Seq<char>) -> Option<DirModel> {
        spec_volume_list_dir(self@, path)
    }

    /// Opens a file: the path is stripped of separators and resolved in the
    /// root directory only; on a match the whole chain is read eagerly, up
    /// to the record's declared size, and the cursor starts at zero.
    fn open(&self, name: &str) -> (r: Option<File>) {
        let q = Self::strip_path(name);
        let qs = string_of_chars(&q);
        match self.find_file(qs.as_str()) {
            None => None,
            Some((c, size)) => match self.read_chain(c, size) {
                None => None,
                Some(data) => Some(File { name: qs, pos: 0, data }),
            },
        }
    }

    /// Lists a directory: the stripped empty path lists the root region;
    /// any other path resolves its name in the root directory and lists the
    /// matching record's cluster chain.
    fn list_dir(&self, path: &str) -> (r: Option<Directory>) {
        let q = Self::strip_path(path);
        if q.len() == 0 {
            match self.list_root_dir() {
                None => None,
                Some(entries) => {
                    let name = String::from_str("/");
                    proof {
                        reveal_strlit("/");
                        assert(name@ =~= seq!['/']);
                    }
                    Some(Directory { name, entries })
                },
            }
        } else {
            let qs = string_of_chars(&q);
            match self.find_file(qs.as_str()) {
                None => None,
                Some((c, _size)) => match self.read_directory_from_cluster(c) {
                    None => None,
                    Some(entries) => Some(Directory { name: qs, entries }),
                },
            }
        }
    }
}

} // verus!
