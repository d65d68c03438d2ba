use gd_back::errors::{map_err, DbFailure, ErrorBody, ErrorReply};
use gd_back::handlers::{login_outcome, signup_outcome, user_response};
use gd_back::invite::{format_invite_code, generate_invite_code, join_invite_code, push_decimal};
use gd_back::models::{CustomResponse, CustomResponseData, User};
use gd_back::referrals::{build_referral_map, ReferralMap};

fn user(id: i32, name: &str, referral: &str, own: &str) -> User {
    User {
        id,
        username: name.to_string(),
        referral_code: referral.to_string(),
        personal_invite_code: own.to_string(),
    }
}

fn names_of(map: &ReferralMap, code: &str) -> Option<Vec<String>> {
    map.get(&code.to_string()).cloned()
}

fn strings(items: &[&str]) -> Vec<String> {
    items.iter().map(|s| s.to_string()).collect()
}

fn json_body(reply: &ErrorReply) -> (String, String) {
    match &reply.body {
        ErrorBody::Json { message, origin } => (message.clone(), origin.clone()),
        ErrorBody::Text(t) => panic!("expected a JSON body, got text {:?}", t),
    }
}

fn text_body(reply: &ErrorReply) -> String {
    match &reply.body {
        ErrorBody::Text(t) => t.clone(),
        ErrorBody::Json { message, .. } => panic!("expected a text body, got JSON {:?}", message),
    }
}

#[test]
fn custom_response_new_keeps_its_parts() {
    let r = CustomResponse::new(true, Some("hi".to_string()), Some(CustomResponseData::Item(7u32)));
    assert!(r.status);
    assert_eq!(r.message.as_deref(), Some("hi"));
    match r.data {
        Some(CustomResponseData::Item(v)) => assert_eq!(v, 7),
        None => panic!("data lost"),
    }
    let empty: CustomResponse<u32> = CustomResponse::new(false, None, None);
    assert!(!empty.status);
    assert!(empty.message.is_none());
    assert!(empty.data.is_none());
}

#[test]
fn decimal_digits() {
    let mut s = String::new();
    push_decimal(&mut s, 0);
    assert_eq!(s, "0");
    let mut s = "x".to_string();
    push_decimal(&mut s, 4294967295);
    assert_eq!(s, "x4294967295");
    let mut s = String::new();
    push_decimal(&mut s, 1000);
    assert_eq!(s, "1000");
}

#[test]
fn invite_code_from_username_and_numbers() {
    assert_eq!(format_invite_code("alice", 1234, 56789), "ALI-1234-56789");
    assert_eq!(format_invite_code("bo", 1000, 10000), "BO-1000-10000");
    assert_eq!(format_invite_code("", 9999, 99999), "-9999-99999");
    assert_eq!(format_invite_code("MiXeD", 4000, 40000), "MIX-4000-40000");
}

#[test]
fn invite_code_uppercases_unicode() {
    // Only the first three characters are kept, then upper-cased.
    assert_eq!(format_invite_code("ßäöü", 1111, 22222), "SSÄÖ-1111-22222");
    assert_eq!(format_invite_code("élan", 1234, 12345), "ÉLA-1234-12345");
}

#[test]
fn generated_invite_code_has_the_shape() {
    for _ in 0..200 {
        let code = generate_invite_code("carol");
        let parts: Vec<&str> = code.split('-').collect();
        assert_eq!(parts.len(), 3, "{}", code);
        assert_eq!(parts[0], "CAR");
        let first: u32 = parts[1].parse().unwrap();
        let second: u32 = parts[2].parse().unwrap();
        assert!((1000..10000).contains(&first), "{}", code);
        assert!((10000..100000).contains(&second), "{}", code);
        assert_eq!(parts[1].len(), 4);
        assert_eq!(parts[2].len(), 5);
    }
}

#[test]
fn referral_map_of_no_users_is_empty() {
    let m = build_referral_map(&Vec::new());
    assert_eq!(m.len(), 0);
    assert!(names_of(&m, "").is_none());
}

#[test]
fn referral_map_lists_referred_users_in_order() {
    let users = vec![
        user(1, "genesis", "", "GEN-1000-10000"),
        user(2, "alice", "GEN-1000-10000", "ALI-1234-12345"),
        user(3, "bob", "ALI-1234-12345", "BOB-2222-22222"),
        user(4, "carol", "GEN-1000-10000", "CAR-3333-33333"),
    ];
    let m = build_referral_map(&users);
    assert_eq!(m.len(), 5);
    assert_eq!(names_of(&m, "GEN-1000-10000").unwrap(), strings(&["alice", "carol"]));
    assert_eq!(names_of(&m, "ALI-1234-12345").unwrap(), strings(&["bob"]));
    assert_eq!(names_of(&m, "BOB-2222-22222").unwrap(), strings(&[]));
    assert_eq!(names_of(&m, "CAR-3333-33333").unwrap(), strings(&[]));
    assert_eq!(names_of(&m, "").unwrap(), strings(&["genesis"]));
    assert!(names_of(&m, "NOPE").is_none());
    // Keys come in order of first occurrence.
    let keys: Vec<String> = (0..m.len()).map(|i| m.key(i).clone()).collect();
    assert_eq!(keys, strings(&["GEN-1000-10000", "", "ALI-1234-12345", "BOB-2222-22222", "CAR-3333-33333"]));
    for i in 0..m.len() {
        assert_eq!(Some(m.names(i).clone()), names_of(&m, m.key(i)));
    }
}

#[test]
fn referral_map_with_unknown_referral_code() {
    let users = vec![user(1, "dave", "GHOST", "DAV-1234-12345")];
    let m = build_referral_map(&users);
    assert_eq!(m.len(), 2);
    assert_eq!(names_of(&m, "GHOST").unwrap(), strings(&["dave"]));
    assert_eq!(names_of(&m, "DAV-1234-12345").unwrap(), strings(&[]));
}

#[test]
fn referral_map_own_code_equal_to_referral_code() {
    let users = vec![user(1, "eve", "EVE-1", "EVE-1"), user(2, "fay", "EVE-1", "FAY-1")];
    let m = build_referral_map(&users);
    assert_eq!(m.len(), 2);
    assert_eq!(names_of(&m, "EVE-1").unwrap(), strings(&["eve", "fay"]));
}

#[test]
fn signing_up_extends_the_referral_map() {
    let mut users = vec![
        user(1, "genesis", "", "GEN"),
        user(2, "alice", "GEN", "ALI"),
    ];
    let before = build_referral_map(&users);
    users.push(user(3, "bob", "GEN", "BOB"));
    let after = build_referral_map(&users);
    assert_eq!(after.len(), before.len() + 1);
    let mut expected = names_of(&before, "GEN").unwrap();
    expected.push("bob".to_string());
    assert_eq!(names_of(&after, "GEN").unwrap(), expected);
    assert_eq!(names_of(&after, "BOB").unwrap(), strings(&[]));
    assert_eq!(names_of(&after, "ALI"), names_of(&before, "ALI"));
    assert_eq!(names_of(&after, ""), names_of(&before, ""));
}

#[test]
fn invalid_referral_code_is_a_bad_request() {
    let r = map_err(DbFailure::Database { code: Some("23503".to_string()) });
    assert_eq!(r.status, 400);
    assert_eq!(json_body(&r), ("`referral_code` is invalid".to_string(), "Postgres error".to_string()));
}

#[test]
fn existing_user_is_a_conflict() {
    let r = map_err(DbFailure::Database { code: Some("23505".to_string()) });
    assert_eq!(r.status, 409);
    assert_eq!(json_body(&r), ("User already exists".to_string(), "Postgres error".to_string()));
}

#[test]
fn other_database_errors_are_internal() {
    for code in [Some("42P01".to_string()), Some(String::new()), None] {
        let r = map_err(DbFailure::Database { code });
        assert_eq!(r.status, 500);
        assert_eq!(text_body(&r), "An error occurred while logging you in");
    }
}

#[test]
fn missing_row_is_not_found() {
    let r = map_err(DbFailure::RowNotFound);
    assert_eq!(r.status, 404);
    assert_eq!(json_body(&r), ("User not found".to_string(), "Postgres error".to_string()));
}

#[test]
fn other_failures_are_internal() {
    let r = map_err(DbFailure::Other);
    assert_eq!(r.status, 500);
    assert_eq!(text_body(&r), "An error occurred while logging you in");
}

#[test]
fn signup_success_and_failure() {
    let ok = signup_outcome(Ok(user(5, "gus", "GEN", "GUS-1234-12345")));
    let resp = match ok {
        Ok(resp) => resp,
        Err(_) => panic!("expected success"),
    };
    assert!(resp.status);
    assert_eq!(resp.message.as_deref(), Some("Registration successful"));
    match resp.data {
        Some(CustomResponseData::Item(u)) => {
            assert_eq!(u.id, 5);
            assert_eq!(u.username, "gus");
            assert_eq!(u.personal_invite_code, "GUS-1234-12345");
        }
        None => panic!("no user in the answer"),
    }
    match signup_outcome(Err(DbFailure::Database { code: Some("23505".to_string()) })) {
        Err(reply) => assert_eq!(reply.status, 409),
        Ok(_) => panic!("expected a conflict"),
    }
    match signup_outcome(Err(DbFailure::Database { code: Some("23503".to_string()) })) {
        Err(reply) => assert_eq!(reply.status, 400),
        Ok(_) => panic!("expected a bad request"),
    }
}

#[test]
fn login_success_and_failure() {
    match login_outcome(Ok(user(6, "hal", "", "HAL-1111-11111"))) {
        Ok(resp) => {
            assert!(resp.status);
            assert_eq!(resp.message.as_deref(), Some("Login successful"));
            assert!(matches!(resp.data, Some(CustomResponseData::Item(ref u)) if u.username == "hal"));
        }
        Err(_) => panic!("expected success"),
    }
    match login_outcome(Err(DbFailure::RowNotFound)) {
        Err(reply) => {
            assert_eq!(reply.status, 404);
            assert_eq!(json_body(&reply).0, "User not found");
        }
        Ok(_) => panic!("expected not found"),
    }
    match login_outcome(Err(DbFailure::Other)) {
        Err(reply) => assert_eq!(reply.status, 500),
        Ok(_) => panic!("expected an internal error"),
    }
}

#[test]
fn user_response_carries_the_message() {
    let r = user_response(user(7, "ida", "", "IDA"), "hello");
    assert!(r.status);
    assert_eq!(r.message.as_deref(), Some("hello"));
}

#[test]
fn joining_an_invite_code() {
    assert_eq!(join_invite_code("ABC".to_string(), 1000, 99999), "ABC-1000-99999");
    assert_eq!(join_invite_code(String::new(), 7, 0), "-7-0");
}

#[test]
fn referral_map_ignores_the_order_of_users() {
    let users = vec![
        user(1, "genesis", "", "GEN"),
        user(2, "alice", "GEN", "ALI"),
        user(3, "bob", "ALI", "BOB"),
        user(4, "carol", "GEN", "CAR"),
        user(5, "dan", "GEN", "DAN"),
    ];
    let mut reordered = users.clone();
    reordered.reverse();
    reordered.swap(0, 2);
    let a = build_referral_map(&users);
    let b = build_referral_map(&reordered);
    assert_eq!(a.len(), b.len());
    for i in 0..a.len() {
        let mut x = a.names(i).clone();
        let mut y = names_of(&b, a.key(i)).expect("same keys");
        x.sort();
        y.sort();
        assert_eq!(x, y);
    }
    // The order under a key follows the order of the users.
    assert_eq!(names_of(&a, "GEN").unwrap(), strings(&["alice", "carol", "dan"]));
    assert_ne!(names_of(&b, "GEN").unwrap(), strings(&["alice", "carol", "dan"]));
}
