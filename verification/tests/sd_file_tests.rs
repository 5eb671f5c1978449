use mycelium::sd_files::{open_mode, plan_open, FileProbe, OpenPlan, SdFileTable, SdOpenMode};

fn plan(position: usize, writable: bool, append: bool) -> OpenPlan {
    OpenPlan { position, writable, append, create_empty: false }
}

#[test]
fn mode_codes_map_to_open_modes() {
    assert_eq!(open_mode(0), Some(SdOpenMode::Read));
    assert_eq!(open_mode(1), Some(SdOpenMode::Truncate));
    assert_eq!(open_mode(2), Some(SdOpenMode::Append));
    assert_eq!(open_mode(3), None);
}

#[test]
fn open_plans_follow_the_mode_and_the_probe() {
    assert_eq!(
        plan_open(SdOpenMode::Read, FileProbe::Readable(9)),
        Some(OpenPlan { position: 0, writable: false, append: false, create_empty: false })
    );
    assert_eq!(plan_open(SdOpenMode::Read, FileProbe::Missing), None);
    assert_eq!(
        plan_open(SdOpenMode::Truncate, FileProbe::Unreadable),
        Some(OpenPlan { position: 0, writable: true, append: false, create_empty: true })
    );
    assert_eq!(
        plan_open(SdOpenMode::Append, FileProbe::Readable(7)),
        Some(OpenPlan { position: 7, writable: true, append: true, create_empty: false })
    );
    assert_eq!(
        plan_open(SdOpenMode::Append, FileProbe::Missing),
        Some(OpenPlan { position: 0, writable: true, append: true, create_empty: true })
    );
    assert_eq!(plan_open(SdOpenMode::Append, FileProbe::Unreadable), None);
}

#[test]
fn handles_are_lowest_free_and_run_out_after_255() {
    let mut table = SdFileTable::new();
    assert_eq!(table.free_handle(), Some(1));
    for expected in 1..=255u32 {
        assert_eq!(table.open("node1", "/f", plan(0, false, false)), expected);
    }
    assert_eq!(table.free_handle(), None);
    assert_eq!(table.open("node1", "/f", plan(0, false, false)), 0);
    assert!(table.close(42));
    assert!(!table.close(42));
    assert_eq!(table.open("node1", "/g", plan(0, false, false)), 42);
    assert_eq!(table.get(42).unwrap().path, "/g");
}

#[test]
fn write_splices_at_the_position() {
    let mut table = SdFileTable::new();
    let h = table.open("node1", "/data.bin", plan(2, true, false));
    let (contents, end) = table.begin_write(h, b"abcdef", b"XY").unwrap();
    assert_eq!(contents, b"abXYef".to_vec());
    assert_eq!(end, 4);
    table.finish_write(h, end);
    let (contents, end) = table.begin_write(h, &contents, b"123").unwrap();
    assert_eq!(contents, b"abXY123".to_vec());
    assert_eq!(end, 7);
}

#[test]
fn append_handles_always_write_at_the_end() {
    let mut table = SdFileTable::new();
    let h = table.open("node1", "/log.txt", plan(0, true, true));
    let (contents, end) = table.begin_write(h, b"hello", b"!").unwrap();
    assert_eq!(contents, b"hello!".to_vec());
    assert_eq!(end, 6);
    assert_eq!(table.get(h).unwrap().position, 5);
}

#[test]
fn writes_past_the_end_or_through_read_handles_are_refused() {
    let mut table = SdFileTable::new();
    let w = table.open("node1", "/a", plan(10, true, false));
    assert_eq!(table.begin_write(w, b"abc", b"x"), None);
    let r = table.open("node1", "/a", plan(0, false, false));
    assert_eq!(table.begin_write(r, b"abc", b"x"), None);
    assert_eq!(table.begin_write(200, b"abc", b"x"), None);
}

#[test]
fn reads_advance_and_stop_at_the_end() {
    let mut table = SdFileTable::new();
    let h = table.open("node1", "/a", plan(0, false, false));
    assert_eq!(table.read(h, b"abcdef", 4), Some(b"abcd".to_vec()));
    assert_eq!(table.read(h, b"abcdef", 4), Some(b"ef".to_vec()));
    assert_eq!(table.read(h, b"abcdef", 4), Some(Vec::new()));
    let w = table.open("node1", "/a", plan(0, true, false));
    assert_eq!(table.read(w, b"abcdef", 4), None);
}

#[test]
fn a_read_returns_what_a_write_wrote() {
    let mut table = SdFileTable::new();
    let w = table.open("node1", "/a", plan(3, true, false));
    let (contents, _) = table.begin_write(w, b"abcdef", b"XYZW").unwrap();
    let r = table.open("node1", "/a", plan(3, false, false));
    assert_eq!(table.read(r, &contents, 4), Some(b"XYZW".to_vec()));
}

#[test]
fn closing_an_instance_drops_only_its_handles() {
    let mut table = SdFileTable::new();
    let a = table.open("node1", "/a", plan(0, false, false));
    let b = table.open("node2", "/b", plan(0, false, false));
    let c = table.open("node1", "/c", plan(0, false, false));
    table.close_instance("node1");
    assert!(!table.contains(a));
    assert!(table.contains(b));
    assert!(!table.contains(c));
    assert_eq!(table.free_handle(), Some(1));
}
