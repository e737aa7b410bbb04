//! The value store and the gated database interface.

use aci_server::database::Database;
use aci_server::interface::DatabaseInterface;
use aci_server::json::{Entry, JsonValue, Number};
use aci_server::permissions::UserAuthentication;

fn s(x: &str) -> JsonValue {
    JsonValue::Str(x.to_string())
}

fn n(u: u64) -> JsonValue {
    JsonValue::Num(Number::Unsigned(u))
}

fn arr(items: Vec<JsonValue>) -> JsonValue {
    JsonValue::Array(items)
}

fn obj(pairs: Vec<(&str, JsonValue)>) -> JsonValue {
    JsonValue::Object(
        pairs.into_iter().map(|(key, value)| Entry { key: key.to_string(), value }).collect(),
    )
}

fn authed_user() -> UserAuthentication {
    UserAuthentication { is_authed: true, name: "user".to_string(), domain: "a_auth".to_string() }
}

#[test]
pub fn test_database_creation() {
    let db0 = Database::new("Database 0");
    let db1 = Database::new("");
    let db2 = Database::new("This is a very very very long database name, nobody in their right mind would actually create a database with a title like this as it would take a large amount of bandwidth just to send such a name. However, this is not actually going to be used in a serious setting, and is only being used to test if the database can handle very long names");
    let db3 = Database::new("ði ıntəˈnæʃənəl fəˈnɛtık əsoʊsiˈeıʃn");

    assert_eq!(db0.get_name().as_str(), "Database 0");
    assert_eq!(db1.get_name().as_str(), "");
    assert_eq!(db2.get_name().as_str(), "This is a very very very long database name, nobody in their right mind would actually create a database with a title like this as it would take a large amount of bandwidth just to send such a name. However, this is not actually going to be used in a serious setting, and is only being used to test if the database can handle very long names");
    assert_eq!(db3.get_name().as_str(), "ði ıntəˈnæʃənəl fəˈnɛtık əsoʊsiˈeıʃn");

    assert_eq!(db0.get_number_of_keys(), 0);
    assert_eq!(db1.get_number_of_keys(), 0);
    assert_eq!(db2.get_number_of_keys(), 0);
    assert_eq!(db3.get_number_of_keys(), 0);
}

#[test]
pub fn test_database_read_write() {
    let mut db = Database::new("Database");

    let d0 = n(0);
    let d1 = obj(vec![("a", n(0)), ("b", n(1)), ("c", n(2))]);
    let d2 = arr(vec![n(0), n(1), n(2), s("3"), s("4")]);

    assert!(db.read("key").is_err());
    assert!(db.read("other").is_err());
    assert!(db.read("another").is_err());

    db.write("key", d0.clone()).unwrap();
    db.write("other", d1.clone()).unwrap();
    db.write("another", d2.clone()).unwrap();

    assert_eq!(db.read("key"), Ok(d0.clone()));
    assert_eq!(db.read("other"), Ok(d1.clone()));
    assert_eq!(db.read("another"), Ok(d2.clone()));

    db.write("key", d2.clone()).unwrap();
    db.write("other", d0.clone()).unwrap();
    db.write("another", d1.clone()).unwrap();

    assert_eq!(db.read("key"), Ok(d2.clone()));
    assert_eq!(db.read("other"), Ok(d0.clone()));
    assert_eq!(db.read("another"), Ok(d1.clone()));

    db.write("other", d1.clone()).unwrap();

    assert_eq!(db.read("key"), Ok(d2.clone()));
    assert_eq!(db.read("other"), Ok(d1.clone()));
    assert_eq!(db.read("another"), Ok(d1.clone()));
}

#[test]
pub fn test_database_read_write_index() {
    let mut db = Database::new("Database");

    let nonlst = obj(vec![("a", n(0)), ("b", n(1)), ("c", n(2))]);
    let lst = arr(vec![n(0), n(1), n(2), s("3"), s("4")]);

    db.write("key", lst.clone()).unwrap();
    db.write("nonlst", nonlst.clone()).unwrap();

    assert!(db.read_index("nonlst", 0).is_err());

    assert_eq!(db.read_index("key", 0), Ok(n(0)));
    assert_eq!(db.read_index("key", 1), Ok(n(1)));
    assert_eq!(db.read_index("key", 2), Ok(n(2)));
    assert_eq!(db.read_index("key", 3), Ok(s("3")));
    assert_eq!(db.read_index("key", 4), Ok(s("4")));
    assert!(db.read_index("key", 5).is_err());

    db.write_index("key", 0, s("0")).unwrap();
    db.write_index("key", 1, s("1")).unwrap();
    db.write_index("key", 2, s("2")).unwrap();
    db.write_index("key", 3, n(3)).unwrap();
    db.write_index("key", 4, n(4)).unwrap();

    assert_eq!(db.read_index("key", 0), Ok(s("0")));
    assert_eq!(db.read_index("key", 1), Ok(s("1")));
    assert_eq!(db.read_index("key", 2), Ok(s("2")));
    assert_eq!(db.read_index("key", 3), Ok(n(3)));
    assert_eq!(db.read_index("key", 4), Ok(n(4)));
    assert!(db.read_index("key", 5).is_err());

    db.write_index("key", 5, n(5)).unwrap();

    assert_eq!(db.read_index("key", 0), Ok(s("0")));
    assert_eq!(db.read_index("key", 1), Ok(s("1")));
    assert_eq!(db.read_index("key", 2), Ok(s("2")));
    assert_eq!(db.read_index("key", 3), Ok(n(3)));
    assert_eq!(db.read_index("key", 4), Ok(n(4)));
    assert_eq!(db.read_index("key", 5), Ok(n(5)));
    assert!(db.read_index("key", 6).is_err());

    db.write_index("key", 8, n(8)).unwrap();

    assert_eq!(db.read_index("key", 0), Ok(s("0")));
    assert_eq!(db.read_index("key", 1), Ok(s("1")));
    assert_eq!(db.read_index("key", 2), Ok(s("2")));
    assert_eq!(db.read_index("key", 3), Ok(n(3)));
    assert_eq!(db.read_index("key", 4), Ok(n(4)));
    assert_eq!(db.read_index("key", 5), Ok(n(5)));
    assert_eq!(db.read_index("key", 6), Ok(JsonValue::Null));
    assert_eq!(db.read_index("key", 7), Ok(JsonValue::Null));
    assert_eq!(db.read_index("key", 8), Ok(n(8)));
    assert!(db.read_index("key", 9).is_err());
}

#[test]
pub fn test_database_get_length() {
    let mut db = Database::new("Database");

    assert_eq!(db.get_number_of_keys(), 0);

    db.write("key", s("0")).unwrap();
    assert_eq!(db.get_number_of_keys(), 1);

    db.write("key_1", s("42")).unwrap();
    assert_eq!(db.get_number_of_keys(), 2);

    db.write("key_2", s("-834")).unwrap();
    assert_eq!(db.get_number_of_keys(), 3);

    db.write("key", s("8")).unwrap();
    assert_eq!(db.get_number_of_keys(), 3);

    db.write("key_3", s("21")).unwrap();
    assert_eq!(db.get_number_of_keys(), 4);

    db.write("key_1", s("3621")).unwrap();
    assert_eq!(db.get_number_of_keys(), 4);
}

#[test]
pub fn test_database_get_length_index() {
    let mut db = Database::new("Database");

    db.write("key", arr(vec![])).unwrap();
    assert_eq!(db.get_length("key"), Ok(0));

    db.write("key", arr(vec![n(0), n(5), s("hello world")])).unwrap();
    assert_eq!(db.get_length("key"), Ok(3));

    db.write(
        "key",
        arr(vec![
            n(0),
            n(5),
            n(8),
            n(23),
            JsonValue::Num(Number::FloatBits((-190246.456f64).to_bits())),
            n(9235),
        ]),
    ).unwrap();
    assert_eq!(db.get_length("key"), Ok(6));
}

#[test]
pub fn test_database_append() {
    let mut db = Database::new("Database");

    db.write("key", arr(vec![])).unwrap();
    assert_eq!(db.get_length("key"), Ok(0));
    assert!(db.read_index("key", 0).is_err());

    db.append("key", s("0")).unwrap();
    assert_eq!(db.get_length("key"), Ok(1));
    assert_eq!(db.read_index("key", 0), Ok(s("0")));
    assert!(db.read_index("key", 1).is_err());

    db.append("key", s("3")).unwrap();
    assert_eq!(db.get_length("key"), Ok(2));
    assert_eq!(db.read_index("key", 0), Ok(s("0")));
    assert_eq!(db.read_index("key", 1), Ok(s("3")));
    assert!(db.read_index("key", 2).is_err());

    db.append("key", s("\"Hello World\"")).unwrap();
    assert_eq!(db.get_length("key"), Ok(3));
    assert_eq!(db.read_index("key", 0), Ok(s("0")));
    assert_eq!(db.read_index("key", 1), Ok(s("3")));
    assert_eq!(db.read_index("key", 2), Ok(s("\"Hello World\"")));
    assert!(db.read_index("key", 3).is_err());
}

#[test]
pub fn test_database_get_last_n() {
    let mut db = Database::new("Database");

    db.write("key", arr(vec![n(0), n(1), n(2), n(3), n(4), n(5), n(6), n(7), n(8), n(9), n(10)]))
        .unwrap();
    db.write("key2", arr(vec![n(0), n(1), n(2)])).unwrap();

    assert_eq!(db.get_last_n("key", 4), Ok(arr(vec![n(7), n(8), n(9), n(10)])));
    assert_eq!(db.get_last_n("key2", 4), Ok(arr(vec![n(0), n(1), n(2)])));

    assert_eq!(
        db.get_last_n("key", 8),
        Ok(arr(vec![n(3), n(4), n(5), n(6), n(7), n(8), n(9), n(10)]))
    );
    assert_eq!(db.get_last_n("key2", 8), Ok(arr(vec![n(0), n(1), n(2)])));

    assert_eq!(
        db.get_last_n("key", 15),
        Ok(arr(vec![n(0), n(1), n(2), n(3), n(4), n(5), n(6), n(7), n(8), n(9), n(10)]))
    );
    assert_eq!(db.get_last_n("key2", 15), Ok(arr(vec![n(0), n(1), n(2)])));
}

#[test]
pub fn test_database_all_keys_sorted() {
    let mut db = Database::new("Database");

    db.write("zeta", n(1)).unwrap();
    db.write("alpha", n(2)).unwrap();
    db.write("mid", n(3)).unwrap();
    db.write("Alpha", n(4)).unwrap();

    let keys = db.get_all_keys().unwrap();
    assert_eq!(keys, vec![
        "Alpha".to_string(),
        "alpha".to_string(),
        "mid".to_string(),
        "zeta".to_string(),
    ]);
}

#[test]
pub fn integration_test_database_read_write() {
    let mut db = DatabaseInterface::new(Database::new("Database0"), chashmap::CHashMap::new());
    let user = authed_user();

    assert!(db.read_from_key("key", &user).is_err());
    db.write_to_key("key", n(0), &user).unwrap();
    assert_eq!(db.read_from_key("key", &user), Ok(n(0)));

    assert!(db.read_from_key("obj", &user).is_err());
    db.write_to_key("obj", obj(vec![("a", s("b")), ("c", n(5))]), &user).unwrap();
    assert_eq!(db.read_from_key("obj", &user), Ok(obj(vec![("a", s("b")), ("c", n(5))])));
}

#[test]
pub fn integration_test_database_read_write_lists() {
    let mut db = DatabaseInterface::new(Database::new("Database0"), chashmap::CHashMap::new());
    let user = authed_user();

    assert!(db.read_from_key("list", &user).is_err());
    db.write_to_key(
        "list",
        arr(vec![n(0), n(1), s("2"), s("3"), obj(vec![("a", s("b")), ("c", n(5))])]),
        &user,
    ).unwrap();

    assert_eq!(db.read_from_key_index("list", 0, &user), Ok(n(0)));
    assert_eq!(db.read_from_key_index("list", 1, &user), Ok(n(1)));
    assert_eq!(db.read_from_key_index("list", 2, &user), Ok(s("2")));
    assert_eq!(db.read_from_key_index("list", 3, &user), Ok(s("3")));
    assert_eq!(
        db.read_from_key_index("list", 4, &user),
        Ok(obj(vec![("a", s("b")), ("c", n(5))]))
    );

    assert!(db.read_from_key_index("list", 5, &user).is_err());
}

#[test]
pub fn integration_test_database_append_lists() {
    let mut db = DatabaseInterface::new(Database::new("Database0"), chashmap::CHashMap::new());
    let user = authed_user();

    assert!(db.read_from_key("list", &user).is_err());
    db.write_to_key("list", arr(vec![n(0), n(1), s("2")]), &user).unwrap();

    assert_eq!(db.read_from_key_index("list", 0, &user), Ok(n(0)));
    assert_eq!(db.read_from_key_index("list", 1, &user), Ok(n(1)));
    assert_eq!(db.read_from_key_index("list", 2, &user), Ok(s("2")));
    assert!(db.read_from_key_index("list", 3, &user).is_err());

    db.append_to_key("list", s("Hello World!"), &user).unwrap();

    assert_eq!(db.read_from_key_index("list", 0, &user), Ok(n(0)));
    assert_eq!(db.read_from_key_index("list", 1, &user), Ok(n(1)));
    assert_eq!(db.read_from_key_index("list", 2, &user), Ok(s("2")));
    assert_eq!(db.read_from_key_index("list", 3, &user), Ok(s("Hello World!")));
    assert!(db.read_from_key_index("list", 4, &user).is_err());
}

#[test]
pub fn integration_test_database_list_length() {
    let mut db = DatabaseInterface::new(Database::new("Database0"), chashmap::CHashMap::new());
    let user = authed_user();

    assert!(db.read_from_key("list", &user).is_err());
    db.write_to_key("list", arr(vec![n(0), n(1), s("2")]), &user).unwrap();

    assert_eq!(db.get_length_from_key("list", &user), Ok(3));

    db.append_to_key("list", s("Hello World!"), &user).unwrap();

    assert_eq!(db.get_length_from_key("list", &user), Ok(4));
}

#[test]
pub fn integration_test_database_last_n_list() {
    let mut db = DatabaseInterface::new(Database::new("Database0"), chashmap::CHashMap::new());
    let user = authed_user();

    assert!(db.read_from_key("list", &user).is_err());
    db.write_to_key("list", arr(vec![n(0), n(1), s("2"), s("3"), n(4), n(5), s("6")]), &user)
        .unwrap();

    assert_eq!(db.read_last_n_from_key("list", 0, &user), Ok(arr(vec![])));
    assert_eq!(db.read_last_n_from_key("list", 1, &user), Ok(arr(vec![s("6")])));
    assert_eq!(db.read_last_n_from_key("list", 2, &user), Ok(arr(vec![n(5), s("6")])));
    assert_eq!(db.read_last_n_from_key("list", 3, &user), Ok(arr(vec![n(4), n(5), s("6")])));
    assert_eq!(
        db.read_last_n_from_key("list", 4, &user),
        Ok(arr(vec![s("3"), n(4), n(5), s("6")]))
    );
    assert_eq!(
        db.read_last_n_from_key("list", 5, &user),
        Ok(arr(vec![s("2"), s("3"), n(4), n(5), s("6")]))
    );
    assert_eq!(
        db.read_last_n_from_key("list", 6, &user),
        Ok(arr(vec![n(1), s("2"), s("3"), n(4), n(5), s("6")]))
    );
    assert_eq!(
        db.read_last_n_from_key("list", 7, &user),
        Ok(arr(vec![n(0), n(1), s("2"), s("3"), n(4), n(5), s("6")]))
    );
    assert_eq!(
        db.read_last_n_from_key("list", 8, &user),
        Ok(arr(vec![n(0), n(1), s("2"), s("3"), n(4), n(5), s("6")]))
    );
}

#[test]
pub fn test_interface_denies_without_permission() {
    let perms = chashmap::CHashMap::new();
    perms.insert(
        "guarded".to_string(),
        aci_server::permissions::Permission {
            read_a_users: vec!["alice".to_string()],
            read_g_users: vec![],
            write_a_users: vec![],
            write_g_users: vec![],
        },
    );
    let mut db = DatabaseInterface::new(Database::new("Database0"), perms);
    let alice = UserAuthentication {
        is_authed: true,
        name: "alice".to_string(),
        domain: "a_auth".to_string(),
    };
    let bob = UserAuthentication {
        is_authed: true,
        name: "bob".to_string(),
        domain: "a_auth".to_string(),
    };

    // the record admits alice but the key holds no value yet
    assert!(db.read_from_key("guarded", &alice).is_err());
    // writes to the key are denied for everyone, so the value cannot change
    assert!(db.write_to_key("guarded", n(1), &alice).is_err());
    // a key with no record at all denies reads outright
    assert!(db.read_from_key("unknown", &bob).is_err());
}
