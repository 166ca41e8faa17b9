use mailcode::store::{CodeStore, VerificationCode};

fn vc(code: &str, timestamp: i64) -> VerificationCode {
    VerificationCode {
        code: code.to_string(),
        timestamp,
        from: "no-reply@login.awsapps.com".to_string(),
        subject: "Your verification code".to_string(),
    }
}

#[test]
fn duplicate_insert_is_noop() {
    let mut store = CodeStore::new();
    store.insert(vc("148885", 1));
    assert_eq!(store.len(), 1);
    store.insert(vc("148885", 2));
    let all = store.get_all();
    assert_eq!(all.len(), 1);
    assert_eq!(all[0].code, "148885");
    // the existing entry is neither refreshed nor moved
    assert_eq!(all[0].timestamp, 1);
}

#[test]
fn duplicate_keeps_position() {
    let mut store = CodeStore::new();
    store.insert(vc("111111", 1));
    store.insert(vc("222222", 2));
    store.insert(vc("111111", 3));
    let all = store.get_all();
    assert_eq!(all.len(), 2);
    assert_eq!(all[0].code, "222222");
    assert_eq!(all[1].code, "111111");
    assert_eq!(all[1].timestamp, 1);
}

#[test]
fn newest_first_order() {
    let mut store = CodeStore::new();
    store.insert(vc("111111", 1));
    store.insert(vc("222222", 2));
    store.insert(vc("333333", 3));
    let all = store.get_all();
    assert_eq!(all[0].code, "333333");
    assert_eq!(all[1].code, "222222");
    assert_eq!(all[2].code, "111111");
}

#[test]
fn eleventh_insert_evicts_oldest() {
    let mut store = CodeStore::new();
    let codes = [
        "100001", "100002", "100003", "100004", "100005", "100006", "100007", "100008", "100009",
        "100010", "100011",
    ];
    for (i, c) in codes.iter().enumerate() {
        store.insert(vc(c, i as i64));
    }
    assert_eq!(store.len(), 10);
    let all = store.get_all();
    // the first-inserted code is gone, whatever its timestamp field said
    assert!(all.iter().all(|e| e.code != "100001"));
    assert_eq!(all[0].code, "100011");
    assert_eq!(all[9].code, "100002");
}

#[test]
fn contains_code_reports_membership() {
    let mut store = CodeStore::new();
    store.insert(vc("148885", 1));
    assert!(store.contains_code(&"148885".to_string()));
    assert!(!store.contains_code(&"999999".to_string()));
}
