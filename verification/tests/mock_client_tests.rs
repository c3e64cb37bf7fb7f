use magpie::mock_client::{FileState, MockMethod};
use magpie::torrent_client::Torrent;

fn torrent(hash: &str, name: &str, state: &str) -> Torrent {
    Torrent {
        hash: hash.to_string(),
        name: name.to_string(),
        progress_bits: 0,
        dlspeed: 1000,
        state: state.to_string(),
        size: 5000,
        eta: 100,
        category: None,
        save_path: None,
        content_path: None,
        num_seeds: None,
        num_peers: None,
    }
}

#[test]
fn add_magnet_uses_info_hash_and_rejects_duplicates() {
    let mut st = FileState::new();
    let magnet = "magnet:?xt=urn:btih:aabbccddeeff00112233445566778899aabbccdd&dn=big_movie";
    assert_eq!(st.add_magnet(magnet, Some("movies")), Ok(true));
    let t = st.get_torrent("aabbccddeeff00112233445566778899aabbccdd").unwrap().unwrap();
    assert_eq!(t.name, "Mock Torrent");
    assert_eq!(t.category.as_deref(), Some("movies"));
    assert_eq!(t.state, "downloading");
    assert_eq!(t.size, 104857600);
    assert_eq!(t.dlspeed, 524288);
    assert_eq!(
        st.add_magnet(magnet, None),
        Err("409 Conflict: torrent already exists".to_string())
    );
    assert_eq!(st.all_torrents().len(), 1);
}

#[test]
fn add_without_hash_numbers_torrents() {
    let mut st = FileState::new();
    assert_eq!(st.add_magnet("magnet:?dn=nohash", None), Ok(true));
    assert_eq!(st.add_torrent(&vec![1, 2, 3], "ubuntu.torrent", None), Ok(true));
    let all = st.all_torrents();
    assert_eq!(all.len(), 2);
    assert_eq!(all[0].hash, "0000000000000000");
    assert_eq!(all[1].hash, "0000000000000001");
    assert_eq!(all[1].name, "ubuntu");
    assert_eq!(all[1].size, 209715200);
    assert_eq!(all[1].eta, 3600);
}

#[test]
fn torrent_file_name_loses_every_torrent_suffix() {
    let mut st = FileState::new();
    st.add_torrent(&vec![], "a.torrent.torrent", None).unwrap();
    assert_eq!(st.all_torrents()[0].name, "a");
}

#[test]
fn pause_resume_and_missing() {
    let mut st = FileState::new();
    st.seed_torrent(torrent("h1", "TestTorrent", "downloading"));
    assert_eq!(st.pause("h1"), Ok(()));
    assert_eq!(st.get_torrent("h1").unwrap().unwrap().state, "paused");
    assert_eq!(st.resume("h1"), Ok(()));
    assert_eq!(st.get_torrent("h1").unwrap().unwrap().state, "downloading");
    assert_eq!(st.pause("zz"), Err("Torrent not found: zz".to_string()));
}

#[test]
fn pause_all_and_resume_all() {
    let mut st = FileState::new();
    st.seed_torrent(torrent("a", "A", "downloading"));
    st.seed_torrent(torrent("b", "B", "completed"));
    st.pause_all().unwrap();
    assert!(st.all_torrents().iter().all(|t| t.state == "paused"));
    st.resume_all().unwrap();
    assert!(st.all_torrents().iter().all(|t| t.state == "downloading"));
}

#[test]
fn resume_all_only_touches_paused() {
    let mut st = FileState::new();
    st.seed_torrent(torrent("a", "A", "paused"));
    st.seed_torrent(torrent("b", "B", "completed"));
    st.resume_all().unwrap();
    let all = st.all_torrents();
    assert_eq!(all[0].state, "downloading");
    assert_eq!(all[1].state, "completed");
}

#[test]
fn injected_error_fires_once() {
    let mut st = FileState::new();
    st.seed_torrent(torrent("h", "T", "downloading"));
    st.set_next_error(MockMethod::Pause, "boom".to_string());
    assert_eq!(st.pause("h"), Err("boom".to_string()));
    assert_eq!(st.get_torrent("h").unwrap().unwrap().state, "downloading");
    assert_eq!(st.pause("h"), Ok(()));
}

#[test]
fn injected_errors_per_method() {
    let mut st = FileState::new();
    st.set_next_error(MockMethod::GetTorrents, "list down".to_string());
    st.set_next_error(MockMethod::CheckConnection, "offline".to_string());
    st.set_next_error(MockMethod::CheckConnection, "still offline".to_string());
    assert_eq!(st.check_connection(), Err("still offline".to_string()));
    assert_eq!(st.check_connection(), Ok("MockTorrentClient v1.0".to_string()));
    assert!(st.get_torrents(None, None).is_err());
    assert!(st.get_torrents(None, None).is_ok());
}

#[test]
fn delete_removes_only_that_torrent() {
    let mut st = FileState::new();
    st.seed_torrent(torrent("9999999999999999999999999999999999999999", "Trash", "completed"));
    st.seed_torrent(torrent("1111", "Keep", "completed"));
    assert_eq!(st.delete_one_no_data("9999999999999999999999999999999999999999"), Ok(()));
    assert!(st.get_torrent("9999999999999999999999999999999999999999").unwrap().is_none());
    assert!(st.get_torrent("1111").unwrap().is_some());
    assert_eq!(st.delete_one_data("missing"), Ok(()));
    assert_eq!(st.delete_all_data(), Ok(()));
    assert_eq!(st.all_torrents().len(), 0);
}

#[test]
fn toggle_speed_limit_flips() {
    let mut st = FileState::new();
    assert_eq!(st.get_speed_limit_mode(), Ok(false));
    assert_eq!(st.toggle_speed_limit(), Ok(true));
    assert_eq!(st.get_speed_limit_mode(), Ok(true));
    assert_eq!(st.toggle_speed_limit(), Ok(false));
}

#[test]
fn filters_by_hash_and_state() {
    let mut st = FileState::new();
    st.seed_torrent(torrent("b", "B", "paused"));
    st.seed_torrent(torrent("a", "A", "downloading"));
    st.seed_torrent(torrent("c", "C", "downloading"));
    let dl = st.get_torrents(None, Some("downloading")).unwrap();
    let hashes: Vec<String> = dl.iter().map(|t| t.hash.clone()).collect();
    assert_eq!(hashes, vec!["a".to_string(), "c".to_string()]);
    assert_eq!(st.get_torrents(Some("b"), None).unwrap().len(), 1);
    assert_eq!(st.get_torrents(Some("b"), Some("downloading")).unwrap().len(), 0);
}

#[test]
fn categories_of_torrents() {
    let mut st = FileState::new();
    st.seed_torrent(torrent("a", "A", "paused"));
    st.seed_torrent(torrent("b", "B", "paused"));
    st.set_torrents_category("tv", " a | zz|b").unwrap();
    assert_eq!(st.get_torrent("a").unwrap().unwrap().category.as_deref(), Some("tv"));
    assert_eq!(st.get_torrent("b").unwrap().unwrap().category.as_deref(), Some("tv"));
    assert_eq!(
        st.get_categories(),
        Ok(Some(vec!["movies".to_string(), "tv".to_string()]))
    );
    assert_eq!(st.export_torrent("a"), Err("Export not supported by mock client".to_string()));
}

// The command-line tool's scenarios, run on the state machine it drives.

fn sample_magnet(hash: &str, name: &str) -> String {
    format!("magnet:?xt=urn:btih:{}&dn={}", hash, name)
}

fn progress_pct(t: &Torrent) -> u32 {
    (f64::from_bits(t.progress_bits) * 100.0).round() as u32
}

#[test]
fn test_cli_ping() {
    let mut st = FileState::new();
    let v = st.check_connection().unwrap();
    assert!(v.contains("MockTorrentClient"));
}

#[test]
fn test_cli_add_and_list() {
    let mut st = FileState::new();
    let magnet = sample_magnet("aabbccddeeff00112233445566778899aabbccdd", "big_movie");
    assert_eq!(st.add_magnet(&magnet, Some("movies")), Ok(true));
    let list = st.get_torrents(None, None).unwrap();
    assert_eq!(list.len(), 1);
    assert_eq!(list[0].hash, "aabbccddeeff00112233445566778899aabbccdd");
    assert_eq!(list[0].category.as_deref(), Some("movies"));
}

#[test]
fn test_cli_info_and_pause_resume() {
    let mut st = FileState::new();
    let hash = "1122334455667788990011223344556677889900";
    let mut t = torrent(hash, "TestTorrent", "downloading");
    t.progress_bits = 0.25f64.to_bits();
    st.seed_torrent(t);

    let info = st.get_torrent(hash).unwrap().unwrap();
    assert_eq!(info.name, "TestTorrent");
    assert_eq!(progress_pct(&info), 25);

    assert_eq!(st.pause(hash), Ok(()));
    assert_eq!(st.get_torrent(hash).unwrap().unwrap().state, "paused");

    assert_eq!(st.resume(hash), Ok(()));
    assert_eq!(st.get_torrent(hash).unwrap().unwrap().state, "downloading");
}

#[test]
fn test_cli_delete() {
    let mut st = FileState::new();
    let hash = "9999999999999999999999999999999999999999";
    st.seed_torrent(torrent(hash, "Trash", "completed"));
    assert_eq!(st.delete_one_no_data(hash), Ok(()));
    assert_eq!(st.get_torrents(None, None).unwrap().len(), 0);
}

#[test]
fn test_cli_speed_limit() {
    let mut st = FileState::new();
    assert_eq!(st.toggle_speed_limit(), Ok(true));
    assert_eq!(st.get_speed_limit_mode(), Ok(true));
}
