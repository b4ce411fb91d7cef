use vstd::prelude::*;
use vstd::string::StringExecFns;

verus! {

/// The liveness payload served at the root and health endpoints.
#[derive(Debug)]
pub struct StatusMessage {
    pub message: String,
    pub db_status: String,
}

/// The static landing payload; no persistence round trip is made for
/// it, so the database status reads as unchecked.
pub fn root() -> (r: StatusMessage)
    ensures
        r.message@ == "JenCRM API работает!"@,
        r.db_status@ == "Не проверено"@,
{
    StatusMessage {
        message: String::from_str("JenCRM API работает!"),
        db_status: String::from_str("Не проверено"),
    }
}

/// Maps the persistence gateway's health probe outcome to the liveness
/// payload: a fixed marker when the round trip succeeded, the probe's
/// error text behind the error prefix when it failed.
pub fn health_check(db_ok: bool, db_error: String) -> (r: StatusMessage)
    ensures
        r.message@ == "Проверка здоровья"@,
        db_ok ==> r.db_status@ == "Подключено"@,
        !db_ok ==> r.db_status@ == "Ошибка: "@ + db_error@,
{
    let db_status = if db_ok {
        String::from_str("Подключено")
    } else {
        String::from_str("Ошибка: ").concat(db_error.as_str())
    };
    StatusMessage { message: String::from_str("Проверка здоровья"), db_status }
}

} // verus!
