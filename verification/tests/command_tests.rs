use sqlite_pages::command::{resolve_command, Command};
use sqlite_pages::error::DbError;

#[test]
fn command_dbinfo() {
    assert_eq!(resolve_command(&b".dbinfo".to_vec()), Ok(Command::Info));
}

#[test]
fn command_tables() {
    assert_eq!(resolve_command(&b".tables".to_vec()), Ok(Command::ListTables));
}

#[test]
fn command_count_carries_table_name() {
    assert_eq!(
        resolve_command(&b"SELECT COUNT(*) FROM apples".to_vec()),
        Ok(Command::CountRows(b"apples".to_vec()))
    );
}

#[test]
fn command_count_without_name_is_unsupported() {
    assert_eq!(
        resolve_command(&b"SELECT COUNT(*) FROM ".to_vec()),
        Err(DbError::UnsupportedCommand)
    );
}

#[test]
fn command_unknown_text_is_unsupported() {
    assert_eq!(resolve_command(&b".schema".to_vec()), Err(DbError::UnsupportedCommand));
    assert_eq!(resolve_command(&b"".to_vec()), Err(DbError::UnsupportedCommand));
    assert_eq!(
        resolve_command(&b"select count(*) from t".to_vec()),
        Err(DbError::UnsupportedCommand)
    );
}
