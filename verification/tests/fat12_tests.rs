use fat12shell::fat12::Fat12Volume;
use fat12shell::vfs::Filesystem;

/// A 40-sector image: boot sector, table, root directory, data region.
fn build_image() -> Vec<u8> {
    vec![0u8; 40 * 512]
}

/// Writes the 12-bit table entry of cluster `c`.
fn set_fat(img: &mut Vec<u8>, c: usize, v: u16) {
    let off = 512 + c * 3 / 2;
    if c % 2 == 0 {
        img[off] = (v & 0xFF) as u8;
        img[off + 1] = (img[off + 1] & 0xF0) | ((v >> 8) as u8 & 0x0F);
    } else {
        img[off] = (img[off] & 0x0F) | (((v & 0x0F) as u8) << 4);
        img[off + 1] = (v >> 4) as u8;
    }
}

/// Writes root record `idx`: an 11-byte raw name, attribute, cluster, size.
fn set_root_entry(img: &mut Vec<u8>, idx: usize, name: &[u8; 11], attr: u8, cluster: u16, size: u32) {
    let off = 9728 + 32 * idx;
    img[off..off + 11].copy_from_slice(name);
    img[off + 11] = attr;
    img[off + 26] = (cluster & 0xFF) as u8;
    img[off + 27] = (cluster >> 8) as u8;
    img[off + 28..off + 32].copy_from_slice(&size.to_le_bytes());
}

fn sample_volume() -> Fat12Volume {
    let mut img = build_image();
    // HELLO.TXT: 13 bytes in cluster 2.
    set_fat(&mut img, 2, 0xFFF);
    set_root_entry(&mut img, 0, b"HELLO   TXT", 0x00, 2, 13);
    img[16896..16896 + 13].copy_from_slice(b"Hello, world!");
    // SUB: a subdirectory in cluster 3 holding one file record.
    set_fat(&mut img, 3, 0xFFF);
    set_root_entry(&mut img, 1, b"SUB        ", 0x10, 3, 0);
    let sub = 17408;
    img[sub..sub + 11].copy_from_slice(b"INNER   TXT");
    img[sub + 11] = 0x00;
    img[sub + 26] = 9;
    img[sub + 28..sub + 32].copy_from_slice(&1u32.to_le_bytes());
    // NOTES.TXT: control characters in cluster 4, to exercise rendering.
    set_fat(&mut img, 4, 0xFFF);
    set_root_entry(&mut img, 2, b"NOTES   TXT", 0x00, 4, 7);
    img[17920..17920 + 7].copy_from_slice(b"AB\r\nC\0D");
    // AUTOEXEC.BAT: 600 bytes across clusters 5 then 6.
    set_fat(&mut img, 5, 6);
    set_fat(&mut img, 6, 0xFFF);
    set_root_entry(&mut img, 3, b"AUTOEXECBAT", 0x00, 5, 600);
    for i in 0..512 {
        img[18432 + i] = b'a' + (i % 26) as u8;
    }
    img[18432 + 3] = b'\r';
    img[18432 + 4] = b'\n';
    img[18432 + 5] = 0;
    for i in 0..88 {
        img[18944 + i] = b'0' + (i % 10) as u8;
    }
    // LOOP.BIN: a cyclic chain at cluster 7, with a declared size so large
    // that reading it must walk the cycle past the fuel bound.
    set_fat(&mut img, 7, 7);
    set_root_entry(&mut img, 4, b"LOOP    BIN", 0x00, 7, 3_000_000);
    // BADC.BIN: chain runs into the invalid cluster 1.
    set_fat(&mut img, 8, 1);
    set_root_entry(&mut img, 5, b"BADC    BIN", 0x00, 8, 600);
    Fat12Volume::new(img)
}

#[test]
fn fat_entry_even_and_odd_parity() {
    let mut img = build_image();
    // Bytes [0x34, 0xA2, 0x5B] cover clusters 0 (even) and 1 (odd).
    img[512] = 0x34;
    img[513] = 0xA2;
    img[514] = 0x5B;
    let vol = Fat12Volume::new(img);
    assert_eq!(vol.read_fat_entry(0), Some(0x234));
    assert_eq!(vol.read_fat_entry(1), Some(0x5BA));
}

#[test]
fn fat_entry_round_trip_through_writer() {
    let mut img = build_image();
    set_fat(&mut img, 10, 0xABC);
    set_fat(&mut img, 11, 0x123);
    let vol = Fat12Volume::new(img);
    assert_eq!(vol.read_fat_entry(10), Some(0xABC));
    assert_eq!(vol.read_fat_entry(11), Some(0x123));
}

#[test]
fn fat_entry_out_of_bounds_is_absent() {
    let vol = Fat12Volume::new(vec![0u8; 512]);
    assert_eq!(vol.read_fat_entry(2), None);
    let vol2 = Fat12Volume::new(vec![0u8; 40 * 512]);
    // The table window holds 9 sectors; entries far past it are refused.
    assert_eq!(vol2.read_fat_entry(3100), None);
}

#[test]
fn read_sector_in_and_out_of_bounds() {
    let mut img = build_image();
    img[512 * 3] = 0x7E;
    let vol = Fat12Volume::new(img);
    let s = vol.read_sector(3).unwrap();
    assert_eq!(s.len(), 512);
    assert_eq!(s[0], 0x7E);
    assert!(vol.read_sector(40).is_none());
}

#[test]
fn read_fat_window() {
    let mut img = build_image();
    img[512] = 0xAA;
    img[5119] = 0xBB;
    let vol = Fat12Volume::new(img);
    let fat = vol.read_fat().unwrap();
    assert_eq!(fat.len(), 4608);
    assert_eq!(fat[0], 0xAA);
    assert_eq!(fat[4607], 0xBB);
    let small = Fat12Volume::new(vec![0u8; 4096]);
    assert!(small.read_fat().is_none());
}

#[test]
fn root_entry_round_trip() {
    // A synthetic root entry {name: "HELLO", ext: "TXT", size: 13,
    // cluster: 2} lists as exactly one entry under the concatenated-name
    // convention.
    let mut img = build_image();
    set_fat(&mut img, 2, 0xFFF);
    set_root_entry(&mut img, 0, b"HELLO   TXT", 0x00, 2, 13);
    let vol = Fat12Volume::new(img);
    let entries = vol.list_root_dir().unwrap();
    assert_eq!(entries.len(), 1);
    assert_eq!(entries[0].name, "HELLOTXT");
    assert!(!entries[0].is_dir);
    assert_eq!(entries[0].cluster, 2);
    assert_eq!(entries[0].size, 13);
}

#[test]
fn root_listing_stops_at_zero_record_and_skips_deleted() {
    let mut img = build_image();
    set_root_entry(&mut img, 0, b"FIRST   TXT", 0x00, 2, 1);
    let mut deleted = *b"GONE    TXT";
    deleted[0] = 0xE5;
    set_root_entry(&mut img, 1, &deleted, 0x00, 3, 1);
    set_root_entry(&mut img, 2, b"SECOND  TXT", 0x00, 4, 1);
    // Record 3 stays zero: the scan must end there even though record 4
    // holds a live entry.
    set_root_entry(&mut img, 4, b"GHOST   TXT", 0x00, 5, 1);
    let vol = Fat12Volume::new(img);
    let entries = vol.list_root_dir().unwrap();
    assert_eq!(entries.len(), 2);
    assert_eq!(entries[0].name, "FIRSTTXT");
    assert_eq!(entries[1].name, "SECONDTXT");
}

#[test]
fn list_root_dir_absent_on_short_image() {
    let vol = Fat12Volume::new(vec![0u8; 9728]);
    assert!(vol.list_root_dir().is_none());
}

#[test]
fn name_cleaning_removes_internal_padding() {
    let mut img = build_image();
    set_root_entry(&mut img, 0, b"AB CD   EF ", 0x00, 2, 0);
    let vol = Fat12Volume::new(img);
    let entries = vol.list_root_dir().unwrap();
    assert_eq!(entries[0].name, "ABCDEF");
}

#[test]
fn name_cleaning_is_idempotent_on_clean_names() {
    // A name without padding or control bytes comes through unchanged.
    let mut img = build_image();
    set_root_entry(&mut img, 0, b"CLEANNAMES1", 0x00, 2, 0);
    let vol = Fat12Volume::new(img);
    let entries = vol.list_root_dir().unwrap();
    assert_eq!(entries[0].name, "CLEANNAMES1");
}

#[test]
fn name_cleaning_drops_unprintable_bytes() {
    let mut img = build_image();
    set_root_entry(&mut img, 0, &[b'A', 0x01, b'B', 0xC3, b'C', b' ', b'T', b'X', b'T', b' ', b' '], 0x00, 2, 0);
    let vol = Fat12Volume::new(img);
    let entries = vol.list_root_dir().unwrap();
    assert_eq!(entries[0].name, "ABCTXT");
}

#[test]
fn find_file_ignores_case_and_dots() {
    let vol = sample_volume();
    assert_eq!(vol.find_file("HELLOTXT"), Some((2, 13)));
    assert_eq!(vol.find_file("hello.txt"), Some((2, 13)));
    assert_eq!(vol.find_file("Hello.Txt"), Some((2, 13)));
    assert_eq!(vol.find_file("AUTOEXEC.BAT"), Some((5, 600)));
}

#[test]
fn find_file_absent_for_unknown_name() {
    let vol = sample_volume();
    assert_eq!(vol.find_file("NOPE.TXT"), None);
    assert_eq!(vol.find_file(""), None);
}

#[test]
fn open_nonexistent_file_is_absent() {
    // Opening a nonexistent file returns absent, never a partial buffer.
    let vol = sample_volume();
    assert!(vol.open("MISSING.TXT").is_none());
}

#[test]
fn open_reads_whole_chain_up_to_size() {
    let vol = sample_volume();
    let f = vol.open("/AUTOEXEC.BAT").unwrap();
    assert_eq!(f.name, "AUTOEXEC.BAT");
    assert_eq!(f.pos, 0);
    assert_eq!(f.data.len(), 600);
    // First sector from cluster 5, remainder from cluster 6.
    assert_eq!(f.data[0], b'a');
    assert_eq!(f.data[3], b'\r');
    assert_eq!(f.data[512], b'0');
    assert_eq!(f.data[599], b'7');
}

#[test]
fn open_strips_leading_and_trailing_separators() {
    let vol = sample_volume();
    let f = vol.open("//HELLO.TXT/").unwrap();
    assert_eq!(f.name, "HELLO.TXT");
    assert_eq!(f.data, b"Hello, world!".to_vec());
}

#[test]
fn open_cyclic_chain_is_absent() {
    let vol = sample_volume();
    assert!(vol.open("LOOP.BIN").is_none());
}

#[test]
fn open_invalid_cluster_in_chain_is_absent() {
    let vol = sample_volume();
    assert!(vol.open("BADC.BIN").is_none());
}

#[test]
fn read_file_contents_renders_text() {
    let vol = sample_volume();
    let text = vol.read_file_contents("NOTES.TXT").unwrap();
    assert_eq!(text, "AB\nCD");
    assert!(vol.read_file_contents("MISSING.TXT").is_none());
}

#[test]
fn list_dir_root_and_subdirectory() {
    let vol = sample_volume();
    let root = vol.list_dir("/").unwrap();
    assert_eq!(root.name, "/");
    assert_eq!(root.entries.len(), 6);
    assert_eq!(root.entries[1].name, "SUB");
    assert!(root.entries[1].is_dir);
    let sub = vol.list_dir("/SUB").unwrap();
    assert_eq!(sub.name, "SUB");
    assert_eq!(sub.entries.len(), 1);
    assert_eq!(sub.entries[0].name, "INNERTXT");
    assert_eq!(sub.entries[0].cluster, 9);
    assert_eq!(sub.entries[0].size, 1);
}

#[test]
fn list_dir_unknown_path_is_absent() {
    let vol = sample_volume();
    assert!(vol.list_dir("/NOWHERE").is_none());
}

#[test]
fn from_base64_decodes_the_image() {
    let mut img = build_image();
    img[0] = 0xEB;
    img[700] = 0x42;
    let text = base64::encode(&img);
    let vol = Fat12Volume::from_base64(&text).unwrap();
    let boot = vol.read_sector(0).unwrap();
    assert_eq!(boot[0], 0xEB);
    let fat = vol.read_sector(1).unwrap();
    assert_eq!(fat[700 - 512], 0x42);
}

#[test]
fn from_base64_rejects_invalid_text() {
    assert!(Fat12Volume::from_base64("not base64 !!!").is_none());
}
