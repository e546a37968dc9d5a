use heretek::app::{App, Args};
use heretek::line::expand;
use heretek::mapping::{mapping_address, replace_mapping_end, replace_mapping_start, Bound};
use heretek::mi::{data_read_memory_bytes, MemoryMapping};

fn region(start_address: u64, end_address: u64, path: Option<&str>) -> MemoryMapping {
    MemoryMapping { start_address, end_address, path: path.map(|p| p.to_string()) }
}

fn app() -> App {
    let args: Args<u8> = Args { local: true, remote: None, thirty_two_bit: false };
    let (_, mut app) = App::new_stream(args);
    app.memory_map = Some(vec![
        region(0x1000, 0x2000, Some("/bin/a.out")),
        region(0x2000, 0x3000, Some("/bin/a.out")),
        region(0x5000, 0x6000, Some("[heap]")),
        region(0x7000, 0x7100, None),
        region(0x8000, 0x9000, Some("[stack]")),
        region(0xa0, 0xb0, Some("/lib/\u{e9}t\u{e9}-1.so")),
    ]);
    app
}

fn start(line: &str) -> String {
    let mut val = line.to_string();
    replace_mapping_start(&app(), &mut val);
    val
}

fn end(line: &str) -> String {
    let mut val = line.to_string();
    replace_mapping_end(&app(), &mut val);
    val
}

#[test]
fn references_become_addresses() {
    assert_eq!(start("x/4 $HERETEK_MAPPING_START_[heap]"), "x/4 0x5000");
    assert_eq!(end("x/4 $HERETEK_MAPPING_END_[heap] # end"), "x/4 0x6000 # end");
    assert_eq!(
        start("$HERETEK_MAPPING_START_[heap],$HERETEK_MAPPING_START_[stack]"),
        "0x5000,0x8000"
    );
}

#[test]
fn the_first_region_counts() {
    assert_eq!(start("$HERETEK_MAPPING_START_/bin/a.out"), "0x1000");
    assert_eq!(end("$HERETEK_MAPPING_END_/bin/a.out"), "0x2000");
}

#[test]
fn unknown_paths_are_zero() {
    assert_eq!(start("$HERETEK_MAPPING_START_nowhere"), "0x00");
    assert_eq!(end("$HERETEK_MAPPING_END_[heap]x"), "0x00");
}

#[test]
fn paths_may_leave_ascii() {
    assert_eq!(start("$HERETEK_MAPPING_START_/lib/\u{e9}t\u{e9}-1.so "), "0xa0 ");
}

#[test]
fn a_marker_without_a_path_is_no_reference() {
    for line in [
        "$HERETEK_MAPPING_START_",
        "$HERETEK_MAPPING_START_ [heap]",
        "HERETEK_MAPPING_START_[heap]",
        "$HERETEK_MAPPING_END_[heap]",
        "$pc",
        "",
    ] {
        assert_eq!(start(line), line);
    }
    assert_eq!(
        start("$HERETEK_MAPPING_START_$HERETEK_MAPPING_START_[heap]"),
        "$HERETEK_MAPPING_START_0x5000"
    );
}

#[test]
fn without_a_memory_map_lines_stay() {
    let mut app = app();
    app.memory_map = None;
    let mut val = "$HERETEK_MAPPING_START_[heap]".to_string();
    replace_mapping_start(&app, &mut val);
    replace_mapping_end(&app, &mut val);
    assert_eq!(val, "$HERETEK_MAPPING_START_[heap]");
}

#[test]
fn starts_are_replaced_before_ends() {
    assert_eq!(
        expand(&app(), "$HERETEK_MAPPING_START_[heap] $HERETEK_MAPPING_END_[stack]"),
        "0x5000 0x9000"
    );
    assert_eq!(
        expand(&app(), "$HERETEK_MAPPING_END_$HERETEK_MAPPING_START_[heap]"),
        "0x00"
    );
}

#[test]
fn replacing_again_changes_nothing() {
    for line in [
        "x $HERETEK_MAPPING_START_[heap], $HERETEK_MAPPING_END_[heap] $$HERETEK_MAPPING_START_a",
        "$HERETEK_MAPPING_START_",
        "$ $HERETEK_MAPPING_START_[stack] $HERETEK",
    ] {
        assert_eq!(start(&start(line)), start(line));
        assert_eq!(end(&end(line)), end(line));
        assert_eq!(start(&end(line)), end(&start(line)));
    }
    // a dollar sign directly behind a path character
    let line = "$HERETEK_MAPPING_START_$HERETEK_MAPPING_START_[heap]";
    assert_eq!(start(line), "$HERETEK_MAPPING_START_0x5000");
    assert_eq!(start(&start(line)), "0x00");
}

#[test]
fn addresses_of_regions() {
    let map = app().memory_map.unwrap();
    assert_eq!(mapping_address(&map, "[stack]", Bound::Start), "0x8000");
    assert_eq!(mapping_address(&map, "[stack]", Bound::End), "0x9000");
    assert_eq!(mapping_address(&map, "", Bound::End), "0x00");
}

#[test]
fn values_are_classified() {
    let app = app();
    assert_eq!(app.classify_val(0x8000, "/bin/a.out"), (true, false, false));
    assert_eq!(app.classify_val(0x8fff, "/bin/a.out"), (true, false, false));
    assert_eq!(app.classify_val(0x5800, "/bin/a.out"), (false, true, false));
    assert_eq!(app.classify_val(0x1234, "/bin/a.out"), (false, false, true));
    assert_eq!(app.classify_val(0x2000, "/bin/a.out"), (false, false, true));
    assert_eq!(app.classify_val(0x1234, "/bin/other"), (false, false, false));
    assert_eq!(app.classify_val(0x7050, "/bin/a.out"), (false, false, false));
    assert_eq!(app.classify_val(0x9000, "/bin/a.out"), (false, false, false));
}

#[test]
fn the_first_deciding_region_classifies() {
    let mut app = app();
    app.memory_map = Some(vec![
        region(0, 0x100, Some("other")),
        region(0, 0x100, Some("[heap]")),
        region(0, 0x100, Some("[stack]")),
    ]);
    assert_eq!(app.classify_val(0x10, "prog"), (false, true, false));
    assert_eq!(app.classify_val(0x10, "other"), (false, false, true));
    assert_eq!(app.classify_val(0, "other"), (false, false, false));
    app.memory_map = None;
    assert_eq!(app.classify_val(0x10, "other"), (false, false, false));
}

#[test]
fn regions_tell_what_they_are() {
    let r = region(0x10, 0x20, Some("[stack]"));
    assert!(r.is_stack() && !r.is_heap() && r.is_path("[stack]"));
    assert!(r.contains(0x10) && r.contains(0x1f) && !r.contains(0x20) && !r.contains(0xf));
    let r = region(0x10, 0x20, None);
    assert!(!r.is_stack() && !r.is_heap() && !r.is_path(""));
    assert!(region(0, 0, Some("[heap]")).is_heap());
}

#[test]
fn memory_reads_are_asked_for() {
    assert_eq!(
        data_read_memory_bytes(0x1000, 0, 32),
        "-data-read-memory-bytes -o 0 0x1000 32"
    );
}
