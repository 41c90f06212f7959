use serde_json::Value;
use webapp::replies::{
    create_reply, delete_reply, get_reply, list_reply, patch_target, update_reply, Rejection,
    Reply, ReplyBody,
};
use webapp::routes::{route, Method, Route};
use webapp::{MockRepository, Person, PersonNoId, PersonPatch, PersonRepository};

/// What a client sees of an answer: status, location header and body.
struct Response {
    status: u16,
    location: Option<String>,
    body: String,
}

fn text_field(v: &Value, key: &str) -> Option<String> {
    v.get(key).and_then(|x| x.as_str()).map(|s| s.to_string())
}

fn int_field(v: &Value, key: &str) -> Option<i32> {
    v.get(key).and_then(|x| x.as_i64()).map(|n| n as i32)
}

fn person_json(p: &Person) -> Value {
    let mut m = serde_json::Map::new();
    m.insert("id".to_string(), Value::from(p.id));
    m.insert("name".to_string(), Value::from(p.name.clone()));
    m.insert("age".to_string(), Value::from(p.age));
    m.insert("address".to_string(), Value::from(p.address.clone()));
    m.insert("work".to_string(), Value::from(p.work.clone()));
    Value::Object(m)
}

fn respond(r: Result<Reply, Rejection>) -> Response {
    match r {
        Ok(reply) => {
            let body = match reply.body {
                ReplyBody::Person(p) => serde_json::to_string(&person_json(&p)).unwrap(),
                ReplyBody::People(v) => {
                    serde_json::to_string(&Value::Array(v.iter().map(person_json).collect())).unwrap()
                }
                ReplyBody::Message(m) => m,
            };
            Response { status: reply.status, location: reply.location, body }
        }
        Err(Rejection::NotFound) => Response { status: 404, location: None, body: String::new() },
    }
}

/// Serves one request against the in-memory repository, the way the
/// service does.
fn request(repo: &mut MockRepository, method: Method, path: &str, body: &str) -> Response {
    match route(method, path) {
        None => respond(Err(Rejection::NotFound)),
        Some(Route::List) => respond(list_reply(repo.list())),
        Some(Route::Get(id)) => respond(get_reply(repo.get(id))),
        Some(Route::Delete(id)) => respond(delete_reply(repo.delete(id))),
        Some(Route::Create) => {
            let v: Value = serde_json::from_str(body).unwrap();
            let person = PersonNoId {
                name: text_field(&v, "name").unwrap(),
                age: int_field(&v, "age").unwrap(),
                address: text_field(&v, "address").unwrap(),
                work: text_field(&v, "work").unwrap(),
            };
            respond(create_reply(repo.create(person)))
        }
        Some(Route::Patch(id)) => {
            let v: Value = serde_json::from_str(body).unwrap();
            let patch = PersonPatch {
                name: text_field(&v, "name"),
                age: int_field(&v, "age"),
                address: text_field(&v, "address"),
                work: text_field(&v, "work"),
            };
            match patch_target(repo.get(id), patch) {
                Ok(target) => respond(update_reply(repo.update(target))),
                Err(e) => respond(Err(e)),
            }
        }
    }
}

const JOHN: &str = "{\"name\": \"john\", \"age\": 32, \"address\": \"somewhere\", \"work\": \"somehow\"}";

#[test]
fn create_person() {
    let mut repository = MockRepository::new();
    let res = request(&mut repository, Method::Post, "/api/v1/persons", JOHN);
    assert_eq!(res.status, 201);
    let resource_path = res.location.unwrap();
    let res = request(&mut repository, Method::Get, &resource_path, "");
    assert_eq!(res.status, 200);
    assert_eq!(res.body, "{\"id\":1,\"name\":\"john\",\"age\":32,\"address\":\"somewhere\",\"work\":\"somehow\"}");
}

#[test]
fn list_persons() {
    let mut repository = MockRepository::new();
    let res = request(&mut repository, Method::Post, "/api/v1/persons", JOHN);
    assert_eq!(res.status, 201);
    let res = request(&mut repository, Method::Get, "/api/v1/persons", "");
    assert_eq!(res.status, 200);
    assert_eq!(res.body, "[{\"id\":1,\"name\":\"john\",\"age\":32,\"address\":\"somewhere\",\"work\":\"somehow\"}]");
}

#[test]
fn delete_persons() {
    let mut repository = MockRepository::new();
    let res = request(&mut repository, Method::Post, "/api/v1/persons", JOHN);
    assert_eq!(res.status, 201);
    let resource_path = res.location.unwrap();
    let res = request(&mut repository, Method::Get, "/api/v1/persons", "");
    assert_eq!(res.status, 200);
    assert_eq!(res.body, "[{\"id\":1,\"name\":\"john\",\"age\":32,\"address\":\"somewhere\",\"work\":\"somehow\"}]");
    let res = request(&mut repository, Method::Delete, &resource_path, "");
    assert_eq!(res.status, 204);
    let res = request(&mut repository, Method::Get, "/api/v1/persons", "");
    assert_eq!(res.status, 200);
    assert_eq!(res.body, "[]");
}

#[test]
fn update_persons() {
    let mut repository = MockRepository::new();
    let res = request(&mut repository, Method::Post, "/api/v1/persons", JOHN);
    assert_eq!(res.status, 201);
    let resource_path = res.location.unwrap();
    let res = request(&mut repository, Method::Patch, &resource_path, "{\"name\": \"johny\", \"age\": 33}");
    assert_eq!(res.status, 200);
    let res = request(&mut repository, Method::Get, "/api/v1/persons", "");
    assert_eq!(res.status, 200);
    assert_eq!(res.body, "[{\"id\":1,\"name\":\"johny\",\"age\":33,\"address\":\"somewhere\",\"work\":\"somehow\"}]");
}

#[test]
fn location_of_second_person_and_missing_person() {
    let mut repository = MockRepository::new();
    request(&mut repository, Method::Post, "/api/v1/persons", JOHN);
    let res = request(&mut repository, Method::Post, "/api/v1/persons", JOHN);
    assert_eq!(res.status, 201);
    assert_eq!(res.body, "Created person");
    assert_eq!(res.location.as_deref(), Some("/api/v1/persons/2"));
    let res = request(&mut repository, Method::Get, "/api/v1/persons/7", "");
    assert_eq!(res.status, 404);
    let res = request(&mut repository, Method::Patch, "/api/v1/persons/7", "{\"age\": 1}");
    assert_eq!(res.status, 404);
    let res = request(&mut repository, Method::Delete, "/api/v1/persons/2", "");
    assert_eq!(res.status, 204);
    assert_eq!(res.body, "Deleted person");
    let res = request(&mut repository, Method::Get, "/api/v1/persons/", "");
    assert_eq!(res.status, 200);
    assert_eq!(res.body, "[{\"id\":1,\"name\":\"john\",\"age\":32,\"address\":\"somewhere\",\"work\":\"somehow\"}]");
}
