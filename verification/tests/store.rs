use haul::store::{
    check_todo, clear_list, clear_todo, create_todo, created, first_name, removal, select_all,
    select_query, NewTask, Removal,
};
use haul::task::{Task, TaskError};
use rusqlite::{Connection, Row};

fn task_of_row(row: &Row<'_>) -> rusqlite::Result<Task> {
    Ok(Task {
        id: row.get(0)?,
        name: row.get(1)?,
        done: row.get(2)?,
        list: row.get(3)?,
        date: row.get(4)?,
    })
}

fn rows_where(conn: &Connection, clause: &str) -> Vec<Task> {
    let mut statement = conn.prepare(&format!("SELECT * FROM Todo {}", clause)).unwrap();
    let found = statement.query_map([], task_of_row).unwrap();
    found.map(|row| row.unwrap()).collect()
}

fn store_with_one_task() -> Connection {
    let conn = Connection::open_in_memory().unwrap();
    conn.execute_batch(
        "CREATE TABLE Todo (
            id INTEGER PRIMARY KEY AUTOINCREMENT,
            name TEXT NOT NULL,
            done INTEGER NOT NULL DEFAULT 0,
            list TEXT NOT NULL,
            date TEXT
        );",
    )
    .unwrap();
    let new = create_todo("home", "pay rent", Some("5/6/2024".to_string()), "%d/%m/%Y").unwrap();
    let rows = conn
        .execute(
            "INSERT INTO Todo(name, done, list, date) VALUES (?,?,?,?)",
            (&new.name, 0, &new.list, &new.date),
        )
        .unwrap();
    assert_eq!(created(rows, "home", "pay rent"), Ok("Task pay rent added to list home".to_string()));
    conn
}

fn task(id: i64, name: &str, list: &str) -> Task {
    Task { id, name: name.to_string(), done: false, list: list.to_string(), date: None }
}

#[test]
fn create_todo_without_a_date() {
    assert_eq!(
        create_todo("home", "water plants", None, "%d/%m/%Y"),
        Ok(NewTask { name: "water plants".to_string(), list: "home".to_string(), date: None })
    );
}

#[test]
fn create_todo_stores_the_date_in_the_storage_format() {
    assert_eq!(
        create_todo("home", "pay rent", Some("2024/6/5".to_string()), "%Y/%m/%d"),
        Ok(NewTask {
            name: "pay rent".to_string(),
            list: "home".to_string(),
            date: Some("05/06/2024".to_string())
        })
    );
    assert_eq!(
        create_todo("home", "pay rent", Some("05/06/24".to_string()), "%d/%m/%y"),
        Ok(NewTask {
            name: "pay rent".to_string(),
            list: "home".to_string(),
            date: Some("05/06/2024".to_string())
        })
    );
}

#[test]
fn create_todo_refuses_a_date_it_cannot_read() {
    for entered in ["soon", "2024-06-05", "31/02/2024", ""] {
        assert_eq!(
            create_todo("home", "pay rent", Some(entered.to_string()), "%d/%m/%Y"),
            Err(TaskError::InvalidDate)
        );
    }
    assert_eq!(
        create_todo("home", "pay rent", Some("05/06".to_string()), "%d/%m"),
        Err(TaskError::InvalidDate)
    );
}

#[test]
fn created_reports_the_task_or_the_missing_list() {
    assert_eq!(created(1, "home", "pay rent"), Ok("Task pay rent added to list home".to_string()));
    assert_eq!(created(2, "a", "b"), Ok("Task b added to list a".to_string()));
    assert_eq!(created(0, "home", "pay rent"), Err(TaskError::ListNotFound {
        list: "home".to_string()
    }));
}

#[test]
fn check_todo_needs_a_row() {
    assert_eq!(check_todo(4, 1), Ok(()));
    assert_eq!(check_todo(4, 0), Err(TaskError::NoSuchTask { id: 4 }));
}

#[test]
fn clear_todo_gives_the_name_of_what_was_removed() {
    assert_eq!(clear_todo(4, 1, "pay rent".to_string()), Ok("pay rent".to_string()));
    assert_eq!(clear_todo(4, 0, "pay rent".to_string()), Err(TaskError::NoSuchTask { id: 4 }));
}

#[test]
fn clear_list_needs_a_row() {
    assert_eq!(clear_list("home", 3), Ok(()));
    assert_eq!(clear_list("home", 0), Err(TaskError::NoSuchList { list: "home".to_string() }));
}

#[test]
fn select_query_hands_the_rows_on() {
    let rows = vec![task(1, "a", "x"), task(2, "b", "x")];
    assert_eq!(select_query("list", "x", rows.clone()), Ok(rows));
}

#[test]
fn removing_a_missing_id_is_refused_before_anything_is_removed() {
    let found = select_query("id", "42", Vec::new());
    assert_eq!(found, Err(TaskError::NoMatch { by: "id".to_string(), elem: "42".to_string() }));
    assert_eq!(found.unwrap_err().message(), "no such task where id = 42");
    assert_eq!(clear_todo(42, 0, String::new()), Err(TaskError::NoSuchTask { id: 42 }));
}

#[test]
fn select_all_needs_a_task() {
    let rows = vec![task(1, "a", "x")];
    assert_eq!(select_all(rows.clone()), Ok(rows));
    assert_eq!(select_all(Vec::new()), Err(TaskError::NoTaskAvailable));
}

#[test]
fn first_name_is_that_of_the_first_task() {
    assert_eq!(first_name(&vec![task(1, "a", "x"), task(2, "b", "x")]), Some("a".to_string()));
    assert_eq!(first_name(&Vec::new()), None);
}

#[test]
fn task_error_messages() {
    assert_eq!(TaskError::InvalidDate.message(), "invalid date format");
    assert_eq!(TaskError::UnreadableDate { reason: "trailing input".to_string() }.message(), "trailing input");
    assert_eq!(
        TaskError::UnprintableDate { format: "%Q".to_string() }.message(),
        "cannot show a date in the format %Q"
    );
    assert_eq!(TaskError::ListNotFound { list: "home".to_string() }.message(), "list home not found");
    assert_eq!(TaskError::NoSuchTask { id: -3 }.message(), "no such task with id -3");
    assert_eq!(TaskError::NoSuchTask { id: 120 }.message(), "no such task with id 120");
    assert_eq!(
        TaskError::NoSuchList { list: "home".to_string() }.message(),
        "no such list named \"home\""
    );
    assert_eq!(
        TaskError::NoMatch { by: "list".to_string(), elem: "home".to_string() }.message(),
        "no such task where list = home"
    );
    assert_eq!(TaskError::NoTaskAvailable.message(), "no task available");
}

#[test]
fn removal_names_exactly_one_thing() {
    assert_eq!(removal(Some("home".to_string()), None), Some(Removal::List {
        list: "home".to_string()
    }));
    assert_eq!(removal(None, Some(4)), Some(Removal::Task { id: 4 }));
    assert_eq!(removal(Some("home".to_string()), Some(4)), None);
    assert_eq!(removal(None, None), None);
}

#[test]
fn removing_a_missing_id_leaves_the_store_as_it_was() {
    let conn = store_with_one_task();
    let before = rows_where(&conn, "");
    assert_eq!(before, vec![Task {
        id: 1,
        name: "pay rent".to_string(),
        done: false,
        list: "home".to_string(),
        date: Some("05/06/2024".to_string())
    }]);
    let found = select_query("id", "42", rows_where(&conn, "WHERE id = 42"));
    assert_eq!(found, Err(TaskError::NoMatch { by: "id".to_string(), elem: "42".to_string() }));
    assert_eq!(rows_where(&conn, ""), before);
    let touched = conn.execute("DELETE FROM Todo WHERE id = ?", [42]).unwrap();
    assert_eq!(clear_todo(42, touched, String::new()), Err(TaskError::NoSuchTask { id: 42 }));
    assert_eq!(rows_where(&conn, ""), before);
}

#[test]
fn removing_a_task_that_is_there_gives_its_name() {
    let conn = store_with_one_task();
    let found = select_query("id", "1", rows_where(&conn, "WHERE id = 1")).unwrap();
    let name = first_name(&found).unwrap();
    let touched = conn.execute("DELETE FROM Todo WHERE id = ?", [1]).unwrap();
    assert_eq!(clear_todo(1, touched, name), Ok("pay rent".to_string()));
    assert_eq!(select_all(rows_where(&conn, "")), Err(TaskError::NoTaskAvailable));
}

#[test]
fn marking_and_removing_by_list() {
    let conn = store_with_one_task();
    let touched = conn.execute("UPDATE Todo SET done = 1 WHERE id = ?", [7]).unwrap();
    assert_eq!(check_todo(7, touched), Err(TaskError::NoSuchTask { id: 7 }));
    let touched = conn.execute("UPDATE Todo SET done = 1 WHERE id = ?", [1]).unwrap();
    assert_eq!(check_todo(1, touched), Ok(()));
    assert!(rows_where(&conn, "")[0].done);
    let touched = conn.execute("DELETE FROM Todo WHERE list = ?", ["work"]).unwrap();
    assert_eq!(clear_list("work", touched), Err(TaskError::NoSuchList { list: "work".to_string() }));
    let touched = conn.execute("DELETE FROM Todo WHERE list = ?", ["home"]).unwrap();
    assert_eq!(clear_list("home", touched), Ok(()));
}
