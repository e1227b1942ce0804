use soji::clipboard::{copy_source, is_raw_format, needs_head_probe, ClipboardBackup, CopySource};
use soji::database::{
    edit_statement, search_statement, sticker_from_row, toggle_favorite_plan, wipe_kind,
    wipe_statements, wipe_succeeded, SqlStatement, SqlValue, StickerRow, WipeKind,
};
use soji::edits::{check_move_pack, check_move_target, path_changes, thumbnail_after_rename};
use soji::ingest::{
    announced_length_ok, count_downloaded, inspect_staged, is_web_payload, local_drop_path,
    local_length_ok, staged_video_check, strip_file_scheme, url_extension, url_names_video,
    video_precheck,
};
use soji::library::{entry_accepted, index_record, index_run, record_statement, sticker_name, IndexScan};
use soji::media::MediaKind;
use soji::models::AppSettings;
use soji::names::{commit_file_name, renamed_file_name, sanitize_edit_name};
use soji::search::{search_ranking, SearchEntry};
use soji::probe::duration_fields;
use soji::placement::{
    monitor_for_point, popup_position, popup_position_defined, popup_size, shortcut_action, Area,
    ShortcutAction,
};
use soji::settings::{settings_or_default, sticker_root, vibrancy_for_theme, StickerRoot, Vibrancy};
use soji::watcher::{watch_step, WatchAction, WatchEvent, WatchPhase};

fn texts(s: &SqlStatement) -> Vec<String> {
    s.params
        .iter()
        .map(|p| match p {
            SqlValue::Int(i) => format!("#{}", i),
            SqlValue::Text(t) => t.clone(),
        })
        .collect()
}

#[test]
fn default_settings() {
    let s = AppSettings::default();
    assert_eq!(s.sticker_path, "");
    assert_eq!(s.recents_limit, 18);
    assert_eq!(s.theme, "acrylic");
    assert!(!s.disable_animations);
    assert_eq!(s.max_items, 200);
    assert!(s.run_on_startup);
    assert_eq!(settings_or_default(None).theme, "acrylic");
}

#[test]
fn recents_ignore_the_query() {
    let s = search_statement("Recents", 18);
    assert_eq!(s.sql, "SELECT id, name, path, thumbnail_path, format, pack, is_favorite, width, height FROM stickers WHERE use_count > 0 ORDER BY last_used DESC LIMIT ?1");
    assert_eq!(texts(&s), vec!["#18"]);
    let entries = vec![entry("a", "p", false), entry("b", "p", false)];
    assert_eq!(search_ranking("zzz", "Recents", &entries, 1), vec![0]);
}

#[test]
fn favorites_and_all_read_every_candidate() {
    let f = search_statement("Favorites", 200);
    assert!(f.sql.ends_with("WHERE is_favorite = 1 ORDER BY id"));
    assert!(texts(&f).is_empty());
    let a = search_statement("All", 5);
    assert!(a.sql.ends_with("FROM stickers ORDER BY id"));
    assert!(texts(&a).is_empty());
}

#[test]
fn other_tabs_are_packs() {
    let p = search_statement("Pepe", 10);
    assert!(p.sql.ends_with("WHERE pack = ?1 ORDER BY id"));
    assert_eq!(texts(&p), vec!["Pepe"]);
}

fn entry(name: &str, pack: &str, on_disk: bool) -> SearchEntry {
    SearchEntry { name: name.into(), pack: pack.into(), on_disk }
}

#[test]
fn all_tab_matches_pack_names() {
    let entries = vec![entry("happy", "Pepe", true)];
    assert_eq!(search_ranking("Pepe", "All", &entries, 10), vec![0]);
    assert_eq!(search_ranking("pepe", "All", &entries, 10), vec![0]);
    assert!(search_ranking("Pepe", "Pepe", &entries, 10).is_empty());
    assert!(search_ranking("sad", "All", &entries, 10).is_empty());
}

#[test]
fn search_ranks_by_match_quality() {
    let entries = vec![
        entry("xcatx", "p", true),   // contiguous: 4
        entry("c_a_t", "p", true),   // in order: 2
        entry("dog", "cat", true),   // pack exact: 7
        entry("catnip", "p", true),  // prefix: 6
        entry("Cat", "p", true),     // exact: 8
        entry("dog", "p", true),     // no match
        entry("cats", "q", true),    // prefix: 6
    ];
    assert_eq!(search_ranking("cat", "All", &entries, 10), vec![4, 2, 3, 6, 0, 1]);
    assert_eq!(search_ranking("cat", "All", &entries, 3), vec![4, 2, 3]);
    assert_eq!(search_ranking("cat", "q", &entries, 10), vec![4, 3, 6, 0, 1]);
    assert_eq!(search_ranking("", "All", &entries, 2), vec![0, 1]);
}

#[test]
fn favorites_drop_missing_files() {
    let entries = vec![entry("cat", "p", false), entry("cat2", "p", true)];
    assert_eq!(search_ranking("cat", "Favorites", &entries, 10), vec![1]);
    assert_eq!(search_ranking("cat", "All", &entries, 10), vec![0, 1]);
}

#[test]
fn rows_fall_back_to_defaults() {
    let s = sticker_from_row(StickerRow {
        id: 7,
        name: "cat".into(),
        path: "C:/s/cat.png".into(),
        thumbnail_path: None,
        format: "png".into(),
        pack: "s".into(),
        is_favorite: 2,
        width: None,
        height: Some(40),
    });
    assert_eq!(s.thumbnail_path, "C:/s/cat.png");
    assert!(!s.is_favorite);
    assert_eq!((s.width, s.height), (0, 40));
}

#[test]
fn toggling_twice_restores_the_flag() {
    let (first, now) = toggle_favorite_plan("a.png", Some(false));
    assert!(now);
    assert_eq!(texts(&first), vec!["#1", "a.png"]);
    let (second, again) = toggle_favorite_plan("a.png", Some(now));
    assert!(!again);
    assert_eq!(texts(&second), vec!["#0", "a.png"]);
    let (_, unknown) = toggle_favorite_plan("a.png", None);
    assert!(unknown);
}

#[test]
fn wipes_by_name() {
    assert_eq!(wipe_kind("history"), WipeKind::History);
    assert_eq!(wipe_kind("favorites"), WipeKind::Favorites);
    assert_eq!(wipe_kind("db"), WipeKind::Library);
    assert_eq!(wipe_kind("everything"), WipeKind::Nothing);
    let lib = wipe_statements(WipeKind::Library);
    assert_eq!(lib.len(), 2);
    assert_eq!(lib[0].sql, "DELETE FROM stickers");
    assert_eq!(lib[1].sql, "VACUUM");
    assert!(wipe_statements(WipeKind::Nothing).is_empty());
    assert!(!wipe_succeeded(WipeKind::History, false));
    assert!(wipe_succeeded(WipeKind::Library, false));
}

#[test]
fn edit_statement_numbers_its_placeholders() {
    let both = edit_statement("n.png", "t.webp", Some("n"), Some("P"), "o.png");
    assert_eq!(both.sql, "UPDATE stickers SET path = ?1, thumbnail_path = ?2, name = ?3, pack = ?4 WHERE path = ?5");
    assert_eq!(texts(&both), vec!["n.png", "t.webp", "n", "P", "o.png"]);
    let pack_only = edit_statement("n.png", "t.webp", None, Some("P"), "o.png");
    assert_eq!(pack_only.sql, "UPDATE stickers SET path = ?1, thumbnail_path = ?2, pack = ?3 WHERE path = ?4");
    let neither = edit_statement("n.png", "t.webp", None, None, "o.png");
    assert_eq!(neither.sql, "UPDATE stickers SET path = ?1, thumbnail_path = ?2 WHERE path = ?3");
}

#[test]
fn edited_names_are_sanitized_idempotently() {
    let once = sanitize_edit_name("my cat!.v2");
    assert_eq!(once, "my_cat__v2");
    assert_eq!(sanitize_edit_name(&once), once);
    assert_eq!(sanitize_edit_name("héllo-ok_1"), "héllo-ok_1");
}

#[test]
fn new_sticker_names_are_filtered_and_trimmed() {
    assert_eq!(commit_file_name("  hi there!! ", "png"), Ok("hi there.png".to_string()));
    assert_eq!(commit_file_name("a/b\\c", "gif"), Ok("abc.gif".to_string()));
    assert_eq!(commit_file_name("?!", "png"), Err("Invalid sticker name".to_string()));
    assert_eq!(renamed_file_name("new", "webp"), "new.webp");
}

#[test]
fn web_payloads_need_http() {
    assert!(is_web_payload("https://example.com/cat.gif"));
    assert!(is_web_payload("http://example.com/x"));
    assert!(!is_web_payload("ftp://example.com/cat.gif"));
    assert!(!is_web_payload("C:\\cat.gif"));
    assert!(!is_web_payload("https://"));
}

#[test]
fn address_extension_ignores_the_query() {
    assert_eq!(url_extension("https://x.com/a/b.MP4?v=1.2"), "mp4");
    assert_eq!(url_extension("https://x.com/noext"), "com/noext");
    assert!(url_names_video("https://cdn.example/clip.webm"));
    assert!(!url_names_video("https://cdn.example/clip.png?webm"));
}

#[test]
fn file_scheme_is_removed_everywhere() {
    assert_eq!(strip_file_scheme("file:///C:/a%20b.png"), "C:/a%20b.png");
    assert_eq!(strip_file_scheme("file://server/x/file://y"), "server/x/y");
    assert_eq!(strip_file_scheme("C:/plain.png"), "C:/plain.png");
    assert_eq!(local_drop_path("file:///C:/a%20b%zz.png"), Ok("C:/a b%zz.png".to_string()));
    assert!(local_drop_path("file:///C:/%ff.png").is_err());
    assert_eq!(local_drop_path("a+b%2"), Ok("a+b%2".to_string()));
    assert_eq!(local_drop_path("D:\\Stickers\\plain name.gif"), Ok("D:\\Stickers\\plain name.gif".to_string()));
}

#[test]
fn size_and_duration_checks() {
    assert_eq!(announced_length_ok(None), Ok(()));
    assert_eq!(
        announced_length_ok(Some(26_214_401)),
        Err("File too large! =^[ Limit is 25MB...".to_string())
    );
    assert_eq!(count_downloaded(26_214_000, 400), Ok(26_214_400));
    assert_eq!(
        count_downloaded(26_214_000, 401),
        Err("File exceeded size limit of 25MB".to_string())
    );
    assert_eq!(
        local_length_ok(30_000_000),
        Err("Local file too large. Limit is 25MB".to_string())
    );
    assert_eq!(video_precheck(None), Ok(()));
    assert!(video_precheck(Some(false)).is_err());
    assert_eq!(
        staged_video_check(None),
        Err("Failed to determine video duration.".to_string())
    );
    assert_eq!(staged_video_check(Some(true)), Ok(()));
}

#[test]
fn staged_files_are_inspected_by_content() {
    let png = [0x89u8, b'P', b'N', b'G', 0x0D, 0x0A, 0x1A, 0x0A, 0, 0, 0, 13, b'I', b'H', b'D', b'R'];
    let t = inspect_staged(&png).expect("png is an image");
    assert_eq!(t.mime, "image/png");
    assert_eq!(t.extension, "png");
    assert!(!t.is_video);
    let unknown = inspect_staged(b"just some words").err().expect("unknown type");
    assert_eq!(unknown.message, "Unknown file type. Could not detect image format.");
    assert!(!unknown.discard_staged);
    let pdf = inspect_staged(b"%PDF-1.7 rest of file").err().expect("not an image");
    assert_eq!(
        pdf.message,
        "Invalid file type: application/pdf. Only raster images and videos are supported."
    );
    assert!(pdf.discard_staged);
}

#[test]
fn moves_stay_in_the_library() {
    assert!(check_move_pack("Reactions").is_ok());
    assert!(check_move_pack("../outside").is_err());
    let root = vec!["C:".to_string(), "Stickers".to_string()];
    let inside = vec!["C:".to_string(), "Stickers".to_string(), "Pepe".to_string()];
    let outside = vec!["C:".to_string(), "Other".to_string()];
    assert!(check_move_target(&root, &inside).is_ok());
    assert_eq!(
        check_move_target(&root, &outside),
        Err("Security Violation: Cannot move sticker outside of library directory.".to_string())
    );
    assert_eq!(thumbnail_after_rename(false, "t".into(), "p".into()), "p");
    assert!(path_changes("a", "b"));
    assert!(!path_changes("a", "a"));
}

#[test]
fn index_removes_vanished_files_and_queues_new_ones() {
    let mut scan = IndexScan::new(vec!["a.png".into(), "b.png".into(), "c.gif".into()]);
    assert!(scan.is_known("a.png"));
    assert!(!scan.is_known("d.png"));
    scan.record("a.png".into(), true);
    scan.record("c.gif".into(), false);
    scan.record("d.png".into(), true);
    let (gone, todo) = scan.finish();
    assert_eq!(gone, vec!["b.png".to_string()]);
    let todo: Vec<(String, bool)> = todo.into_iter().map(|c| (c.path, c.is_new)).collect();
    assert_eq!(todo, vec![("c.gif".to_string(), false), ("d.png".to_string(), true)]);
}

#[test]
fn videos_need_a_known_short_duration() {
    assert!(entry_accepted(Some(MediaKind::Still), Some(u64::MAX), None));
    assert!(!entry_accepted(Some(MediaKind::Video), Some(30_000_000), Some(true)));
    assert!(!entry_accepted(Some(MediaKind::Video), None, None));
    assert!(entry_accepted(Some(MediaKind::Video), None, Some(true)));
    assert!(!entry_accepted(None, Some(1), Some(true)));
}

#[test]
fn heic_suffixes_are_dropped_from_names() {
    assert_eq!(sticker_name("cat.HEIC"), "cat");
    assert_eq!(sticker_name("cat.heic.heif"), "cat.heic");
    assert_eq!(sticker_name("cat.heif.heic"), "cat");
    assert_eq!(sticker_name("heic"), "heic");
}

#[test]
fn index_rows() {
    let rec = index_record("S/P/x.PNG".into(), "x", "P".into(), "PNG", "t.webp".into(), true);
    assert_eq!(rec.format, "png");
    let st = record_statement(&rec);
    assert!(st.sql.starts_with("INSERT INTO stickers"));
    assert_eq!(texts(&st), vec!["S/P/x.PNG", "x", "P", "png", "t.webp"]);
    let rec2 = index_record("S/P/x.PNG".into(), "x", "P".into(), "PNG", "t.webp".into(), false);
    assert_eq!(texts(&record_statement(&rec2)), vec!["t.webp", "S/P/x.PNG"]);
}

#[test]
fn backups_skip_gdi_formats_and_empty_data() {
    assert!(!is_raw_format(2));
    assert!(!is_raw_format(17));
    assert!(is_raw_format(13));
    let b = ClipboardBackup::from_reads(vec![
        (13, Some(vec![104, 105])),
        (2, Some(vec![1])),
        (1, Some(vec![])),
        (49161, None),
        (49300, Some(vec![9])),
    ])
    .expect("something kept");
    assert_eq!(b.into_entries(), vec![(13, vec![104, 105]), (49300, vec![9])]);
    assert!(ClipboardBackup::from_reads(vec![(2, Some(vec![1])), (1, None)]).is_none());
}

#[test]
fn pasting_chooses_file_drop_or_bitmap() {
    assert_eq!(copy_source("GIF", false, true, true), CopySource::FileDropThumbnail);
    assert_eq!(copy_source("gif", false, false, true), CopySource::FileDropSticker);
    assert_eq!(copy_source("webp", true, true, true), CopySource::FileDropSticker);
    assert_eq!(copy_source("webp", false, false, true), CopySource::BitmapThumbnail);
    assert_eq!(copy_source("png", true, true, false), CopySource::BitmapSticker);
    assert!(needs_head_probe("WebP"));
    assert!(!needs_head_probe("png"));
}

#[test]
fn watcher_reindexes_once_after_a_burst() {
    let mut phase = WatchPhase::Waiting;
    let mut actions = Vec::new();
    for e in [WatchEvent::Changed, WatchEvent::Changed, WatchEvent::Changed, WatchEvent::QuietPeriod] {
        let (p, a) = watch_step(phase, e);
        phase = p;
        actions.push(a);
    }
    assert_eq!(
        actions,
        vec![WatchAction::Listen, WatchAction::Listen, WatchAction::Listen, WatchAction::Reindex]
    );
    assert_eq!(phase, WatchPhase::Waiting);
    assert_eq!(watch_step(WatchPhase::Waiting, WatchEvent::Failed).1, WatchAction::ReportError);
    assert_eq!(watch_step(WatchPhase::Settling, WatchEvent::Failed).1, WatchAction::Stop);
    assert_eq!(watch_step(WatchPhase::Waiting, WatchEvent::Disconnected).1, WatchAction::Stop);
}

#[test]
fn popup_is_clamped_to_the_monitor() {
    let monitors = vec![
        Area { x: 0, y: 0, width: 1920, height: 1080 },
        Area { x: 1920, y: 0, width: 1280, height: 1024 },
    ];
    assert_eq!(monitor_for_point(&monitors, 2000, 10), Some(1));
    assert_eq!(monitor_for_point(&monitors, -5, 10), None);
    let m = Some(monitors[0]);
    assert!(popup_position_defined(100, 100, m, 450, 500));
    assert_eq!(popup_position(100, 100, m, 450, 500), (100, 120));
    assert_eq!(popup_position(1800, 100, m, 450, 500), (1470, 120));
    assert_eq!(popup_position(100, 900, m, 450, 500), (100, 390));
    assert_eq!(popup_position(100, 900, None, 450, 500), (100, 920));
    assert!(!popup_position_defined(0, i32::MAX, None, 450, 500));
    assert_eq!(popup_size(None), (450, 500));
    assert_eq!(popup_size(Some((600, 700))), (600, 700));
}

#[test]
fn shortcut_toggles_the_window() {
    assert_eq!(shortcut_action(false, true, true, false, None), ShortcutAction::Ignore);
    assert_eq!(shortcut_action(true, true, true, true, Some((1, 2))), ShortcutAction::Hide);
    assert_eq!(
        shortcut_action(true, true, true, false, Some((1, 2))),
        ShortcutAction::ShowNearCaret(1, 2)
    );
    assert_eq!(shortcut_action(true, true, true, false, None), ShortcutAction::ShowCentered);
}

#[test]
fn theme_and_root_choices() {
    assert_eq!(vibrancy_for_theme("mica"), Vibrancy::Mica);
    assert_eq!(vibrancy_for_theme("Mica"), Vibrancy::Acrylic);
    assert_eq!(vibrancy_for_theme("acrylic"), Vibrancy::Acrylic);
    assert_eq!(vibrancy_for_theme("none"), Vibrancy::NoEffect);
    match sticker_root("D:\\S", true, Some("C:\\Users\\me".into())) {
        StickerRoot::Configured(p) => assert_eq!(p, "D:\\S"),
        StickerRoot::Standard(_) => panic!("configured folder exists"),
    }
    match sticker_root("D:\\S", false, None) {
        StickerRoot::Standard(p) => assert_eq!(p, ".\\Stickers"),
        StickerRoot::Configured(_) => panic!("configured folder is missing"),
    }
    match sticker_root("", true, Some("C:\\Users\\me".into())) {
        StickerRoot::Standard(p) => assert_eq!(p, "C:\\Users\\me\\Stickers"),
        StickerRoot::Configured(_) => panic!("no folder is configured"),
    }
}

#[test]
fn second_index_run_changes_nothing() {
    let existing = vec!["a".to_string(), "gone".to_string()];
    let files = vec![("a".to_string(), false), ("b".to_string(), true)];
    let (stale, todo) = index_run(existing, &files);
    assert_eq!(stale, vec!["gone".to_string()]);
    let todo: Vec<(String, bool)> = todo.into_iter().map(|c| (c.path, c.is_new)).collect();
    assert_eq!(todo, vec![("a".to_string(), false), ("b".to_string(), true)]);

    let index = vec!["a".to_string(), "b".to_string()];
    let again = vec![("a".to_string(), true), ("b".to_string(), true)];
    let (stale, todo) = index_run(index, &again);
    assert!(stale.is_empty());
    assert!(todo.is_empty());
}

#[test]
fn second_run_with_missing_thumbnails_only_remakes_them() {
    let index = vec!["a".to_string(), "b".to_string()];
    let again = vec![("a".to_string(), false), ("b".to_string(), true)];
    let (stale, todo) = index_run(index, &again);
    assert!(stale.is_empty());
    let todo: Vec<(String, bool)> = todo.into_iter().map(|c| (c.path, c.is_new)).collect();
    assert_eq!(todo, vec![("a".to_string(), false)]);
}

#[test]
fn duration_fields_from_ffmpeg_report() {
    let report = b"Input #0, gif\n  Duration: 00:00:10.50, start: 0.000000, bitrate: 1 kb/s";
    let (h, m, s) = duration_fields(report).expect("duration present");
    assert_eq!((h.as_slice(), m.as_slice(), s.as_slice()), (&b"00"[..], &b"00"[..], &b"10.50"[..]));
    assert!(duration_fields(b"no duration here").is_none());
    assert!(duration_fields(b"Duration: 00:00").is_none());
    assert!(duration_fields(b"Duration: N/A, start: 0").is_none());
    assert!(duration_fields(b"Duration: 1:2:3:4:5:6 x Duration: 00:00:01.00").is_none());
}
