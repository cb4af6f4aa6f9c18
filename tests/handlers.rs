use message_store::handlers::{
    delete, delete_by_id, get, get_by_id, list, post, update, update_by_id, ApiError,
};
use message_store::store::{Message, Store};
use uuid::Uuid;

fn text_of(id: u128) -> String {
    Uuid::from_u128(id).to_string()
}

#[test]
fn crud_scenario() {
    let mut s = Store::new();
    let created = post(&mut s, Some(String::from("hello"))).unwrap();
    assert_eq!(created.message, "hello");
    let path = text_of(created.id);
    assert_eq!(get(&s, &path), Ok(created.clone()));
    let updated = update(&mut s, &path, Some(String::from("world"))).unwrap();
    assert_eq!(updated, Message { id: created.id, message: String::from("world") });
    assert_eq!(get(&s, &path), Ok(updated));
    assert_eq!(delete(&mut s, &path), Ok(()));
    assert_eq!(get(&s, &path), Err(ApiError::NotFound));
    assert_eq!(ApiError::NotFound.status(), 404);
}

#[test]
fn create_then_get_returns_same_record() {
    let mut s = Store::new();
    for text in ["", "a", "hello world", "ünïcödé ✓"] {
        let created = post(&mut s, Some(String::from(text))).unwrap();
        let got = get(&s, &text_of(created.id)).unwrap();
        assert_eq!(got.id, created.id);
        assert_eq!(got.message, text);
    }
}

#[test]
fn delete_twice_gives_ok_then_not_found() {
    let mut s = Store::new();
    let created = post(&mut s, Some(String::from("x"))).unwrap();
    let path = text_of(created.id);
    assert_eq!(delete(&mut s, &path), Ok(()));
    assert_eq!(delete(&mut s, &path), Err(ApiError::NotFound));
    assert!(list(&s).is_empty());
}

#[test]
fn update_unknown_is_not_found_and_creates_nothing() {
    let mut s = Store::new();
    let path = text_of(0x1234);
    assert_eq!(update(&mut s, &path, Some(String::from("y"))), Err(ApiError::NotFound));
    assert_eq!(update_by_id(&mut s, 99, String::from("y")), Err(ApiError::NotFound));
    assert!(list(&s).is_empty());
    assert_eq!(get_by_id(&s, 0x1234), Err(ApiError::NotFound));
}

#[test]
fn list_after_creates_and_deletes() {
    let mut s = Store::new();
    let mut ids = Vec::new();
    for i in 0..10 {
        ids.push(post(&mut s, Some(format!("m{}", i))).unwrap().id);
    }
    update_by_id(&mut s, ids[4], String::from("changed")).unwrap();
    for id in &ids[0..3] {
        assert_eq!(delete_by_id(&mut s, *id), Ok(()));
    }
    let all = list(&s);
    assert_eq!(all.len(), 7);
    for m in &all {
        let i = ids.iter().position(|x| *x == m.id).unwrap();
        assert!(i >= 3);
        if i == 4 {
            assert_eq!(m.message, "changed");
        } else {
            assert_eq!(m.message, format!("m{}", i));
        }
    }
}

#[test]
fn many_creates_give_distinct_retrievable_ids() {
    let mut s = Store::new();
    let mut ids = Vec::new();
    for i in 0..200 {
        ids.push(post(&mut s, Some(format!("{}", i))).unwrap().id);
    }
    let mut sorted = ids.clone();
    sorted.sort();
    sorted.dedup();
    assert_eq!(sorted.len(), 200);
    for (i, id) in ids.iter().enumerate() {
        assert_eq!(get_by_id(&s, *id).unwrap().message, format!("{}", i));
    }
    assert_eq!(list(&s).len(), 200);
}

#[test]
fn created_ids_are_version_four() {
    let mut s = Store::new();
    let created = post(&mut s, Some(String::from("v"))).unwrap();
    let u = Uuid::from_u128(created.id);
    assert_eq!(u.get_version_num(), 4);
    assert_eq!(u.get_variant(), uuid::Variant::RFC4122);
}

#[test]
fn malformed_id_is_bad_request() {
    let mut s = Store::new();
    post(&mut s, Some(String::from("keep"))).unwrap();
    for bad in ["", "not-a-uuid", "123", "zzzzzzzz-zzzz-zzzz-zzzz-zzzzzzzzzzzz"] {
        assert_eq!(get(&s, bad), Err(ApiError::BadRequest));
        assert_eq!(update(&mut s, bad, Some(String::from("n"))), Err(ApiError::BadRequest));
        assert_eq!(delete(&mut s, bad), Err(ApiError::BadRequest));
    }
    assert_eq!(list(&s).len(), 1);
    assert_eq!(ApiError::BadRequest.status(), 400);
}

#[test]
fn malformed_id_is_reported_before_malformed_body() {
    let mut s = Store::new();
    assert_eq!(update(&mut s, "nope", None), Err(ApiError::BadRequest));
    assert_eq!(update(&mut s, &text_of(5), None), Err(ApiError::Validation));
}

#[test]
fn missing_body_is_validation_error() {
    let mut s = Store::new();
    assert_eq!(post(&mut s, None), Err(ApiError::Validation));
    assert!(list(&s).is_empty());
    let created = post(&mut s, Some(String::from("a"))).unwrap();
    assert_eq!(update(&mut s, &text_of(created.id), None), Err(ApiError::Validation));
    assert_eq!(get_by_id(&s, created.id).unwrap().message, "a");
    assert_eq!(ApiError::Validation.status(), 422);
}

#[test]
fn path_id_is_read_in_every_uuid_form() {
    let mut s = Store::new();
    let id: u128 = 0x67e5_5044_10b1_426f_9247_bb68_0e5f_e0c8;
    s.insert(id, String::from("found"));
    for form in [
        "67e55044-10b1-426f-9247-bb680e5fe0c8",
        "67E55044-10B1-426F-9247-BB680E5FE0C8",
        "67e5504410b1426f9247bb680e5fe0c8",
        "{67e55044-10b1-426f-9247-bb680e5fe0c8}",
        "urn:uuid:67e55044-10b1-426f-9247-bb680e5fe0c8",
    ] {
        assert_eq!(get(&s, form).unwrap(), Message { id, message: String::from("found") });
    }
}
