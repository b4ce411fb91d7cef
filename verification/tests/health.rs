use jencrm::status::{health_check, root};

#[test]
fn root_is_static() {
    let r = root();
    assert_eq!(r.message, "JenCRM API работает!");
    assert_eq!(r.db_status, "Не проверено");
}

#[test]
fn health_reports_probe_outcome() {
    let ok = health_check(true, String::new());
    assert_eq!(ok.message, "Проверка здоровья");
    assert_eq!(ok.db_status, "Подключено");

    let bad = health_check(false, "connection refused".to_string());
    assert_eq!(bad.message, "Проверка здоровья");
    assert_eq!(bad.db_status, "Ошибка: connection refused");
}
