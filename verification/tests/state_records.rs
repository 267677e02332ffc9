use scrapstation::auth::webview_auth::{clear_auth_state, has_auth_webview, is_already_authenticated, mark_authenticated, AuthWebviews};
use scrapstation::dict::Dict;
use scrapstation::engine::download_tracker::{DownloadEntry, DownloadSignal, DownloadStatus, Downloads};
use scrapstation::engine::library_tracker::{
    current_timestamp, generate_game_slug, generate_library_game_id, timestamp_from_millis, to_hex, LibraryGame,
    LibraryGameStatus, LibraryGames,
};

fn entry(id: &str, status: DownloadStatus) -> DownloadEntry {
    DownloadEntry {
        id: id.to_string(),
        game_title: "Game".to_string(),
        file_name: "game.zip".to_string(),
        url: "https://h/x".to_string(),
        resolved_url: None,
        cookies: None,
        source_id: "src".to_string(),
        host_label: "Host".to_string(),
        host_color: "#fff".to_string(),
        status,
        downloaded_bytes: 0,
        total_bytes: 100,
        file_path: Some("/tmp/game.zip".to_string()),
        error: None,
        started_at: 1,
        completed_at: None,
        is_resumable: true,
    }
}

#[test]
fn dict_reads_back_what_was_written() {
    let mut d: Dict<u32> = Dict::new();
    d.insert("a".to_string(), 1);
    d.insert("b".to_string(), 2);
    d.insert("a".to_string(), 3);
    assert_eq!(d.len(), 2);
    assert_eq!(d.get("a"), Some(&3));
    assert_eq!(d.get("b"), Some(&2));
    assert_eq!(d.key_at(0), "a");
    assert_eq!(d.remove("a"), Some(3));
    assert_eq!(d.get("a"), None);
    assert_eq!(d.remove("zzz"), None);
}

#[test]
fn downloads_pause_resume_cancel() {
    let mut dl = Downloads::new();
    dl.add_download(entry("d1", DownloadStatus::Downloading));
    assert_eq!(dl.check_signal("d1"), DownloadSignal::Continue);
    dl.update_progress("d1", 40, 100);
    assert_eq!(dl.get_download("d1").unwrap().downloaded_bytes, 40);
    dl.pause_download("d1");
    assert_eq!(dl.check_signal("d1"), DownloadSignal::Pause);
    assert_eq!(dl.get_download("d1").unwrap().status, DownloadStatus::Paused);
    let resumed = dl.resume_download("d1").unwrap();
    assert_eq!(resumed.status, DownloadStatus::Pending);
    assert_eq!(dl.check_signal("d1"), DownloadSignal::Continue);
    assert_eq!(dl.resume_download("nope").unwrap_err(), "Download not found: nope");
    assert_eq!(dl.cancel_download("d1"), Some("/tmp/game.zip".to_string()));
    assert_eq!(dl.get_download("d1").unwrap().status, DownloadStatus::Cancelled);
    assert_eq!(dl.check_signal("d1"), DownloadSignal::Cancel);
}

#[test]
fn completing_and_clearing_downloads() {
    let mut dl = Downloads::new();
    dl.add_download(entry("a", DownloadStatus::Downloading));
    dl.add_download(entry("b", DownloadStatus::Downloading));
    dl.add_download(entry("c", DownloadStatus::Queued));
    assert!(dl.complete_download("a", "/games/a.zip", 100, 50));
    let a = dl.get_download("a").unwrap();
    assert_eq!(a.status, DownloadStatus::Completed);
    assert_eq!(a.completed_at, Some(50));
    assert_eq!(a.file_path, Some("/games/a.zip".to_string()));
    dl.fail_download("b", "boom");
    assert_eq!(dl.get_download("b").unwrap().error, Some("boom".to_string()));
    dl.clear_finished();
    let ids: Vec<String> = dl.get_all_downloads().into_iter().map(|e| e.id).collect();
    assert_eq!(ids, vec!["c".to_string()]);
    assert!(!dl.complete_download("zzz", "/x", 1, 1));
}

#[test]
fn cancelled_download_stays_cancelled_when_completed_late() {
    let mut dl = Downloads::new();
    dl.add_download(entry("a", DownloadStatus::Downloading));
    dl.cancel_download("a");
    assert!(!dl.complete_download("a", "/x", 1, 1));
    assert_eq!(dl.get_download("a").unwrap().status, DownloadStatus::Cancelled);
}

fn game(id: &str, slug: &str, gid: &str) -> LibraryGame {
    LibraryGame {
        id: id.to_string(),
        source_slug: slug.to_string(),
        source_game_id: gid.to_string(),
        title: "T".to_string(),
        cover_url: None,
        cover_path: None,
        install_path: "/lib/t".to_string(),
        install_size: 0,
        status: LibraryGameStatus::Ready,
        installed_at: 0,
        last_played: None,
        total_playtime: 0,
        executables: Vec::new(),
        primary_exe: None,
        archive_password: None,
        download_ids: Vec::new(),
    }
}

#[test]
fn library_records() {
    let mut lib = LibraryGames::new();
    lib.add_game(game("g1", "src", "42"));
    assert_eq!(lib.get_game("g1").unwrap().source_game_id, "42");
    assert_eq!(lib.find_by_source("src", "42").unwrap().id, "g1");
    assert!(lib.find_by_source("src", "43").is_none());
    assert!(lib.update_status("g1", LibraryGameStatus::Corrupted).is_ok());
    assert_eq!(lib.get_game("g1").unwrap().status, LibraryGameStatus::Corrupted);
    assert!(lib.update_status("nope", LibraryGameStatus::Ready).is_err());
    lib.update_playtime("g1", 30, 1000);
    lib.update_playtime("g1", 15, 2000);
    let g = lib.get_game("g1").unwrap();
    assert_eq!(g.total_playtime, 45);
    assert_eq!(g.last_played, Some(2000));
    lib.add_download_id("g1", "d1");
    lib.add_download_id("g1", "d1");
    assert_eq!(lib.get_game("g1").unwrap().download_ids, vec!["d1".to_string()]);
    assert_eq!(lib.find_by_download_id("d1").unwrap().id, "g1");
    assert_eq!(lib.remove_game("g1").unwrap().id, "g1");
    assert!(lib.get_game("g1").is_none());
}

#[test]
fn slugs_and_ids() {
    assert_eq!(generate_game_slug("The Witcher 3: Wild Hunt"), "the-witcher-3-wild-hunt");
    assert_eq!(generate_game_slug("  --Hello__World!! "), "hello-world");
    assert_eq!(to_hex(255), "ff");
    assert_eq!(to_hex(0), "0");
    let id = generate_library_game_id("src", "42");
    assert!(id.starts_with("src_"));
    assert_eq!(id, generate_library_game_id("src", "42"));
    assert_ne!(id, generate_library_game_id("src", "43"));
}

#[test]
fn timestamps() {
    assert_eq!(timestamp_from_millis(Some(1234)), 1234);
    assert_eq!(timestamp_from_millis(None), 0);
    assert_eq!(timestamp_from_millis(Some((1u128 << 64) + 5)), 5);
    assert!(current_timestamp() > 1_600_000_000_000);
}

#[test]
fn webview_auth_record() {
    let mut w = AuthWebviews::new();
    assert!(!has_auth_webview(&w, "s"));
    mark_authenticated(&mut w, "s");
    assert!(has_auth_webview(&w, "s"));
    assert!(is_already_authenticated(&w, "s"));
    clear_auth_state(&mut w, "s");
    assert!(!is_already_authenticated(&w, "s"));
    clear_auth_state(&mut w, "never");
}
