use fat12shell::fat12::Fat12Volume;
use fat12shell::shell::Shell;
use fat12shell::vfs::VFS;

/// Builds a mounted registry over a volume holding HELLO.TXT (13 bytes,
/// cluster 2), a subdirectory SUB (cluster 3), and AUTOEXEC.BAT (600 bytes,
/// chain 5 -> 6 -> end sentinel).
fn mounted_vfs() -> VFS<Fat12Volume> {
    let mut img = vec![0u8; 40 * 512];
    let set_fat = |img: &mut Vec<u8>, c: usize, v: u16| {
        let off = 512 + c * 3 / 2;
        if c % 2 == 0 {
            img[off] = (v & 0xFF) as u8;
            img[off + 1] = (img[off + 1] & 0xF0) | ((v >> 8) as u8 & 0x0F);
        } else {
            img[off] = (img[off] & 0x0F) | (((v & 0x0F) as u8) << 4);
            img[off + 1] = (v >> 4) as u8;
        }
    };
    let set_entry =
        |img: &mut Vec<u8>, idx: usize, name: &[u8; 11], attr: u8, cluster: u16, size: u32| {
            let off = 9728 + 32 * idx;
            img[off..off + 11].copy_from_slice(name);
            img[off + 11] = attr;
            img[off + 26] = (cluster & 0xFF) as u8;
            img[off + 27] = (cluster >> 8) as u8;
            img[off + 28..off + 32].copy_from_slice(&size.to_le_bytes());
        };
    set_fat(&mut img, 2, 0xFFF);
    set_entry(&mut img, 0, b"HELLO   TXT", 0x00, 2, 13);
    img[16896..16896 + 13].copy_from_slice(b"Hi\r\nthere\0!!!");
    set_fat(&mut img, 3, 0xFFF);
    set_entry(&mut img, 1, b"SUB        ", 0x10, 3, 0);
    set_fat(&mut img, 5, 6);
    set_fat(&mut img, 6, 0xFFF);
    set_entry(&mut img, 2, b"AUTOEXECBAT", 0x00, 5, 600);
    for i in 0..512 {
        img[18432 + i] = b'a' + (i % 26) as u8;
    }
    img[18432 + 7] = b'\r';
    img[18432 + 8] = 0;
    img[18432 + 9] = b'\n';
    for i in 0..88 {
        img[18944 + i] = b'0' + (i % 10) as u8;
    }
    let mut vfs: VFS<Fat12Volume> = VFS::new();
    vfs.mount(Fat12Volume::new(img));
    vfs
}

#[test]
fn shell_starts_at_root() {
    let sh = Shell::new();
    assert_eq!(sh.cwd, "/");
}

#[test]
fn blank_line_is_a_no_op() {
    let vfs = mounted_vfs();
    let mut sh = Shell::new();
    let r = sh.dispatch("   ", &vfs);
    assert_eq!(r.output, "");
    assert!(!r.clear);
    assert!(r.exec_image.is_none());
    assert_eq!(sh.cwd, "/");
}

#[test]
fn help_prints_usage() {
    let vfs = mounted_vfs();
    let mut sh = Shell::new();
    let r = sh.dispatch("help", &vfs);
    assert_eq!(r.output, "commands: help, ls, cd <dir>, cat <file>, exec <file>, clear\n");
}

#[test]
fn clear_requests_a_screen_clear() {
    let vfs = mounted_vfs();
    let mut sh = Shell::new();
    let r = sh.dispatch("clear", &vfs);
    assert!(r.clear);
    assert_eq!(r.output, "");
}

#[test]
fn unknown_command_prints_a_diagnostic() {
    let vfs = mounted_vfs();
    let mut sh = Shell::new();
    let r = sh.dispatch("frobnicate now", &vfs);
    assert_eq!(r.output, "unknown command\n");
    assert_eq!(sh.cwd, "/");
}

#[test]
fn missing_argument_prints_usage_text() {
    let vfs = mounted_vfs();
    let mut sh = Shell::new();
    assert_eq!(sh.dispatch("cd", &vfs).output, "missing argument\n");
    assert_eq!(sh.dispatch("cat", &vfs).output, "missing argument\n");
    assert_eq!(sh.dispatch("exec", &vfs).output, "missing argument\n");
}

#[test]
fn ls_lists_the_working_directory() {
    let vfs = mounted_vfs();
    let mut sh = Shell::new();
    let r = sh.dispatch("ls", &vfs);
    assert_eq!(
        r.output,
        "HELLOTXT (13 bytes)\n<DIR> SUB\nAUTOEXECBAT (600 bytes)\n"
    );
}

#[test]
fn cd_up_at_root_leaves_cwd_unchanged() {
    let vfs = mounted_vfs();
    let mut sh = Shell::new();
    let r = sh.dispatch("cd ..", &vfs);
    assert_eq!(sh.cwd, "/");
    assert_eq!(r.output, "");
}

#[test]
fn cd_down_and_up_restores_the_exact_cwd() {
    let vfs = mounted_vfs();
    let mut sh = Shell::new();
    sh.dispatch("cd SUB", &vfs);
    assert_eq!(sh.cwd, "/SUB");
    sh.dispatch("cd ..", &vfs);
    assert_eq!(sh.cwd, "/");
}

#[test]
fn cd_to_a_missing_directory_is_refused() {
    let vfs = mounted_vfs();
    let mut sh = Shell::new();
    let r = sh.dispatch("cd NOWHERE", &vfs);
    assert_eq!(sh.cwd, "/");
    assert_eq!(r.output, "no such directory\n");
}

#[test]
fn cat_renders_a_file_with_filtered_bytes() {
    let vfs = mounted_vfs();
    let mut sh = Shell::new();
    let r = sh.dispatch("cat HELLO.TXT", &vfs);
    assert_eq!(r.output, "Hi\nthere!!!\n");
}

#[test]
fn cat_missing_file_prints_not_found() {
    let vfs = mounted_vfs();
    let mut sh = Shell::new();
    let r = sh.dispatch("cat MISSING.TXT", &vfs);
    assert_eq!(r.output, "file not found\n");
}

#[test]
fn cat_end_to_end_across_a_two_cluster_chain() {
    // After `cd /`, `cat AUTOEXEC.BAT` prints exactly the 600 bytes sourced
    // from the data sectors of clusters 5 then 6, carriage returns and null
    // bytes dropped, line feeds kept as newlines.
    let vfs = mounted_vfs();
    let mut sh = Shell::new();
    sh.dispatch("cd /", &vfs);
    let r = sh.dispatch("cat AUTOEXEC.BAT", &vfs);
    let mut expected = String::new();
    for i in 0..512usize {
        let b = if i == 7 {
            b'\r'
        } else if i == 8 {
            0
        } else if i == 9 {
            b'\n'
        } else {
            b'a' + (i % 26) as u8
        };
        if b != b'\r' && b != 0 {
            expected.push(b as char);
        }
    }
    for i in 0..88usize {
        expected.push((b'0' + (i % 10) as u8) as char);
    }
    expected.push('\n');
    assert_eq!(r.output, expected);
}

#[test]
fn exec_hands_out_the_file_bytes_verbatim() {
    let vfs = mounted_vfs();
    let mut sh = Shell::new();
    let r = sh.dispatch("exec HELLO.TXT", &vfs);
    assert_eq!(r.output, "");
    assert_eq!(r.exec_image.unwrap(), b"Hi\r\nthere\0!!!".to_vec());
}

#[test]
fn exec_missing_file_prints_not_found() {
    let vfs = mounted_vfs();
    let mut sh = Shell::new();
    let r = sh.dispatch("exec MISSING.BIN", &vfs);
    assert_eq!(r.output, "file not found\n");
    assert!(r.exec_image.is_none());
}

#[test]
fn extra_tokens_after_the_argument_are_ignored() {
    let vfs = mounted_vfs();
    let mut sh = Shell::new();
    let r = sh.dispatch("  cat   HELLO.TXT   trailing junk ", &vfs);
    assert_eq!(r.output, "Hi\nthere!!!\n");
}
