use top_movers::storage::{AsyncStorageManager, StorageStep};
use top_movers::view::{handle_key_event, subtype_label, Key, KeyOutcome, ViewState};

#[test]
fn record_and_temporary_paths() {
    let s = AsyncStorageManager::new("/var/lib/movers/storage".to_string());
    assert_eq!(s.record_path("results"), "/var/lib/movers/storage/results.json");
    assert_eq!(s.temp_path("results"), "/var/lib/movers/storage/results.json.tmp");
}

#[test]
fn save_writes_temporary_file_then_renames() {
    let s = AsyncStorageManager::new("store".to_string());
    let steps = s.save_plan("klines", b"[1,2]".to_vec());
    assert_eq!(steps.len(), 2);
    match &steps[0] {
        StorageStep::Write { path, bytes } => {
            assert_eq!(path, "store/klines.json.tmp");
            assert_eq!(bytes, b"[1,2]");
        }
        other => panic!("unexpected first step {:?}", other),
    }
    match &steps[1] {
        StorageStep::Rename { from, to } => {
            assert_eq!(from, "store/klines.json.tmp");
            assert_eq!(to, "store/klines.json");
        }
        other => panic!("unexpected second step {:?}", other),
    }
}

#[test]
fn q_quits_and_f5_refreshes_once() {
    let mut v = ViewState::new(2);
    assert_eq!(handle_key_event(Key::Char('q'), &mut v), KeyOutcome::Quit);
    assert_eq!(handle_key_event(Key::F(5), &mut v), KeyOutcome::Refresh);
    assert!(v.is_refreshing);
    assert_eq!(handle_key_event(Key::F(5), &mut v), KeyOutcome::Continue);
    v.finish_refresh();
    assert!(!v.is_refreshing);
    assert_eq!(handle_key_event(Key::F(4), &mut v), KeyOutcome::Continue);
}

#[test]
fn arrows_cycle_through_indicators() {
    let mut v = ViewState::new(2);
    handle_key_event(Key::Up, &mut v);
    assert_eq!(v.selected, 1);
    handle_key_event(Key::Down, &mut v);
    assert_eq!(v.selected, 0);
    handle_key_event(Key::Down, &mut v);
    assert_eq!(v.selected, 1);
    let mut none = ViewState::new(0);
    handle_key_event(Key::Down, &mut none);
    handle_key_event(Key::Up, &mut none);
    assert_eq!(none.selected, 0);
}

#[test]
fn digits_select_existing_indicators() {
    let mut v = ViewState::new(2);
    handle_key_event(Key::Char('2'), &mut v);
    assert_eq!(v.selected, 1);
    handle_key_event(Key::Char('3'), &mut v);
    assert_eq!(v.selected, 1);
    handle_key_event(Key::Char('0'), &mut v);
    assert_eq!(v.selected, 1);
    handle_key_event(Key::Char('1'), &mut v);
    assert_eq!(v.selected, 0);
    assert_eq!(handle_key_event(Key::Char('x'), &mut v), KeyOutcome::Continue);
}

#[test]
fn subtype_labels() {
    assert_eq!(subtype_label(&vec![]), "N/A");
    assert_eq!(subtype_label(&vec!["PoW".to_string()]), "(PoW)");
    assert_eq!(subtype_label(&vec!["PoW".to_string(), "Layer-1".to_string()]), "(PoW, Layer-1)");
}
