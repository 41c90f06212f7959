use webapp::replies::{create_reply, delete_reply, get_reply, list_reply, patch_target, update_reply, Rejection, ReplyBody};
use webapp::routes::{location_path, route, Method, Route};
use webapp::statements::{
    create_table_statement, delete_person_statement, first_person, id_after,
    insert_person_statement, max_id_query, select_all_query, select_person_query,
    update_person_statement,
};
use webapp::text::{format_i32, parse_i32_text};
use webapp::{MockRepository, Person, PersonNoId, PersonPatch, PersonRepository, WebappError};

fn person(id: i32, name: &str, age: i32) -> Person {
    Person { id, name: name.to_string(), age, address: "here".to_string(), work: "there".to_string() }
}

fn submission(name: &str, age: i32) -> PersonNoId {
    PersonNoId { name: name.to_string(), age, address: "here".to_string(), work: "there".to_string() }
}

#[test]
fn format_i32_matches_display() {
    for x in [0, 7, 10, 42, 1000, -1, -305, i32::MAX, i32::MIN] {
        assert_eq!(format_i32(x), x.to_string());
    }
    assert_eq!(format_i32(-2147483648), "-2147483648");
}

#[test]
fn parse_i32_text_matches_from_str() {
    let cases = ["0", "12", "+12", "-12", "007", "-0", "", "-", "+", "1a", " 1", "2147483647",
        "2147483648", "-2147483648", "-2147483649", "99999999999999999999", "１"];
    for c in cases {
        assert_eq!(parse_i32_text(c), c.parse::<i32>().ok(), "case {:?}", c);
    }
    assert_eq!(parse_i32_text("-2147483648"), Some(i32::MIN));
    assert_eq!(parse_i32_text("2147483648"), None);
}

#[test]
fn format_then_parse_gives_back_the_number() {
    for x in [0, 1, -1, 123456, i32::MAX, i32::MIN] {
        assert_eq!(parse_i32_text(&format_i32(x)), Some(x));
    }
}

#[test]
fn routes_of_the_service() {
    assert_eq!(route(Method::Get, "/api/v1/persons"), Some(Route::List));
    assert_eq!(route(Method::Get, "/api/v1/persons/"), Some(Route::List));
    assert_eq!(route(Method::Post, "/api/v1/persons"), Some(Route::Create));
    assert_eq!(route(Method::Get, "/api/v1/persons/5"), Some(Route::Get(5)));
    assert_eq!(route(Method::Get, "/api/v1/persons/5/"), Some(Route::Get(5)));
    assert_eq!(route(Method::Get, "/api/v1/persons/+5"), Some(Route::Get(5)));
    assert_eq!(route(Method::Get, "/api/v1/persons/-5"), Some(Route::Get(-5)));
    assert_eq!(route(Method::Delete, "/api/v1/persons/9"), Some(Route::Delete(9)));
    assert_eq!(route(Method::Patch, "/api/v1/persons/9"), Some(Route::Patch(9)));
    assert_eq!(route(Method::Post, "/api/v1/persons/9"), None);
    assert_eq!(route(Method::Delete, "/api/v1/persons"), None);
    assert_eq!(route(Method::Other, "/api/v1/persons"), None);
    assert_eq!(route(Method::Get, "/api/v1/persons/x"), None);
    assert_eq!(route(Method::Get, "/api/v1/persons//"), None);
    assert_eq!(route(Method::Get, "/api/v1/persons/5/6"), None);
    assert_eq!(route(Method::Get, "/api/v1/persons/2147483648"), None);
    assert_eq!(route(Method::Get, "/api/v2/persons"), None);
    assert_eq!(route(Method::Get, "/api//v1/persons"), None);
    assert_eq!(route(Method::Get, "api/v1/persons"), Some(Route::List));
    assert_eq!(route(Method::Get, "/"), None);
    assert_eq!(route(Method::Get, ""), None);
}

#[test]
fn location_routes_back_to_the_person() {
    for id in [1, 42, -3, i32::MAX, i32::MIN] {
        let path = location_path(id);
        assert_eq!(path, format!("/api/v1/persons/{}", id));
        assert_eq!(route(Method::Get, &path), Some(Route::Get(id)));
        assert_eq!(route(Method::Delete, &path), Some(Route::Delete(id)));
        assert_eq!(route(Method::Patch, &path), Some(Route::Patch(id)));
    }
}

#[test]
fn mock_get_id_is_one_more_than_the_greatest() {
    let mut repo = MockRepository::new();
    assert_eq!(repo.get_id(), 1);
    assert_eq!(repo.create(submission("a", 1)), Ok(1));
    assert_eq!(repo.create(submission("b", 2)), Ok(2));
    assert_eq!(repo.create(submission("c", 3)), Ok(3));
    assert_eq!(repo.get_id(), 4);
    repo.delete(3).unwrap();
    assert_eq!(repo.get_id(), 3);
    repo.delete(1).unwrap();
    assert_eq!(repo.get_id(), 3);
    assert_eq!(repo.create(submission("d", 4)), Ok(3));
    let ids: Vec<i32> = repo.list().unwrap().iter().map(|p| p.id).collect();
    assert_eq!(ids, vec![2, 3]);
}

#[test]
fn mock_read_after_create_and_update() {
    let mut repo = MockRepository::new();
    assert_eq!(repo.init(), Ok(()));
    let id = repo.create(submission("ann", 30)).unwrap();
    assert_eq!(repo.get(id), Ok(person(id, "ann", 30)));
    assert_eq!(repo.get(id + 1), Err(WebappError::NotFoundError));
    assert_eq!(repo.update(person(id, "anne", 31)), Ok(person(id, "anne", 31)));
    assert_eq!(repo.get(id), Ok(person(id, "anne", 31)));
    assert_eq!(repo.list(), Ok(vec![person(id, "anne", 31)]));
}

#[test]
fn mock_delete_is_idempotent_and_ignores_absent_ids() {
    let mut repo = MockRepository::new();
    repo.create(submission("a", 1)).unwrap();
    repo.create(submission("b", 2)).unwrap();
    assert_eq!(repo.delete(5), Ok(()));
    assert_eq!(repo.list().unwrap().len(), 2);
    assert_eq!(repo.delete(1), Ok(()));
    assert_eq!(repo.delete(1), Ok(()));
    assert_eq!(repo.list(), Ok(vec![person(2, "b", 2)]));
    assert_eq!(repo.get(1), Err(WebappError::NotFoundError));
}

#[test]
fn patch_applies_present_fields_only() {
    let p = person(4, "old", 10);
    let patch = PersonPatch { name: Some("new".to_string()), age: None, address: None, work: Some("w".to_string()) };
    let q = patch.clone().apply_to(p.clone());
    assert_eq!(q, Person { id: 4, name: "new".to_string(), age: 10, address: "here".to_string(), work: "w".to_string() });
    assert_eq!(patch.apply_to(q.clone()), q);
    let empty = PersonPatch { name: None, age: None, address: None, work: None };
    assert_eq!(empty.apply_to(p.clone()), p);
}

#[test]
fn replies_to_failures_are_not_found() {
    assert_eq!(list_reply::<()>(Err(())), Err(Rejection::NotFound));
    assert_eq!(get_reply::<()>(Err(())), Err(Rejection::NotFound));
    assert_eq!(create_reply::<()>(Err(())), Err(Rejection::NotFound));
    assert_eq!(delete_reply::<()>(Err(())), Err(Rejection::NotFound));
    assert_eq!(update_reply::<()>(Err(())), Err(Rejection::NotFound));
    let patch = PersonPatch { name: None, age: Some(5), address: None, work: None };
    assert_eq!(patch_target::<()>(Err(()), patch), Err(Rejection::NotFound));
}

#[test]
fn replies_to_successes() {
    let r = create_reply::<()>(Ok(12)).unwrap();
    assert_eq!(r.status, 201);
    assert_eq!(r.body, ReplyBody::Message("Created person".to_string()));
    assert_eq!(r.location.as_deref(), Some("/api/v1/persons/12"));
    let r = delete_reply::<()>(Ok(())).unwrap();
    assert_eq!(r.status, 204);
    assert_eq!(r.body, ReplyBody::Message("Deleted person".to_string()));
    let r = get_reply::<()>(Ok(person(1, "x", 2))).unwrap();
    assert_eq!(r.status, 200);
    assert_eq!(r.body, ReplyBody::Person(person(1, "x", 2)));
    let r = list_reply::<()>(Ok(vec![])).unwrap();
    assert_eq!(r.body, ReplyBody::People(vec![]));
    let patch = PersonPatch { name: None, age: Some(5), address: None, work: None };
    assert_eq!(patch_target::<()>(Ok(person(1, "x", 2)), patch), Ok(person(1, "x", 5)));
}

#[test]
fn statements_text() {
    assert_eq!(select_person_query(7), "\n            SELECT * FROM person WHERE id = 7\n        ");
    assert_eq!(delete_person_statement(-7), "\n            DELETE FROM person WHERE id = -7\n        ");
    assert_eq!(
        insert_person_statement(3, &PersonNoId { name: "john".to_string(), age: 32, address: "somewhere".to_string(), work: "somehow".to_string() }),
        "\n            INSERT INTO person VALUES\n                (3, 'john', 32, 'somewhere', 'somehow')\n        "
    );
    assert_eq!(
        update_person_statement(&Person { id: 3, name: "john".to_string(), age: 33, address: "a".to_string(), work: "w".to_string() }),
        "\n            UPDATE person SET\n                name = 'john',\n                age = 33,\n                address = 'a',\n                work = 'w'\n            WHERE id = 3 \n        "
    );
    assert!(create_table_statement().contains("CREATE TABLE IF NOT EXISTS person ("));
    assert!(max_id_query().contains("SELECT case when min(id) = 0 then 0 else max(id) end FROM person;"));
    assert_eq!(select_all_query(), "\n            SELECT * FROM person\n        ");
}

#[test]
fn next_id_and_first_row() {
    assert_eq!(id_after(None), 1);
    assert_eq!(id_after(Some(0)), 1);
    assert_eq!(id_after(Some(41)), 42);
    assert_eq!(first_person(vec![]), Err(WebappError::NotFoundError));
    assert_eq!(first_person(vec![person(2, "b", 1), person(3, "c", 1)]), Ok(person(2, "b", 1)));
}

#[test]
fn error_messages() {
    assert_eq!(WebappError::NotFoundError.message(), "Person was not found");
    assert_eq!(WebappError::AlreadyExistsError.message(), "Person already exists");
}
