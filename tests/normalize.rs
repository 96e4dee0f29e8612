use web_middleware::json::{normalize, Json};
use web_middleware::text::{process_key, upcase_first};

fn num(n: u64) -> Json {
    Json::Number(serde_json::Number::from(n))
}

fn s(t: &str) -> Json {
    Json::Str(t.to_string())
}

fn obj(members: Vec<(&str, Json)>) -> Json {
    Json::Object(members.into_iter().map(|(k, v)| (k.to_string(), v)).collect())
}

fn keys(j: &Json) -> Vec<String> {
    match j {
        Json::Object(m) => m.iter().map(|(k, _)| k.clone()).collect(),
        _ => panic!("not an object"),
    }
}

fn same(a: &Json, b: &Json) -> bool {
    match (a, b) {
        (Json::Null, Json::Null) => true,
        (Json::Bool(x), Json::Bool(y)) => x == y,
        (Json::Number(x), Json::Number(y)) => x == y,
        (Json::Str(x), Json::Str(y)) => x == y,
        (Json::Array(x), Json::Array(y)) => {
            x.len() == y.len() && x.iter().zip(y.iter()).all(|(p, q)| same(p, q))
        }
        (Json::Object(x), Json::Object(y)) => {
            x.len() == y.len()
                && x.iter().zip(y.iter()).all(|(p, q)| p.0 == q.0 && same(&p.1, &q.1))
        }
        _ => false,
    }
}

fn sample() -> Json {
    obj(vec![
        ("name", s("x")),
        ("ssn", s("123")),
        ("items", Json::Array(vec![Json::Null, obj(vec![("innerKey", num(1))]), Json::Null])),
        ("Flag", Json::Bool(true)),
    ])
}

#[test]
fn upcase_first_uppercases_only_the_first_character() {
    assert_eq!(upcase_first("hello world"), "Hello world");
    assert_eq!(upcase_first("camelCase"), "CamelCase");
    assert_eq!(upcase_first(""), "");
    assert_eq!(upcase_first("éa"), "Éa");
    assert_eq!(upcase_first("ßx"), "SSx");
    assert_eq!(upcase_first("1abc"), "1abc");
}

#[test]
fn process_key_maps_any_casing_of_ssn_to_upper() {
    assert_eq!(process_key("ssn"), "SSN");
    assert_eq!(process_key("Ssn"), "SSN");
    assert_eq!(process_key("sSn"), "SSN");
    assert_eq!(process_key("SSN"), "SSN");
}

#[test]
fn process_key_upcases_other_keys() {
    assert_eq!(process_key("name"), "Name");
    assert_eq!(process_key("Name"), "Name");
    assert_eq!(process_key("ssnx"), "Ssnx");
    assert_eq!(process_key("masterPasswordHash"), "MasterPasswordHash");
    assert_eq!(process_key(""), "");
}

#[test]
fn normalize_rewrites_keys_at_every_depth() {
    let r = normalize(sample());
    assert_eq!(keys(&r), vec!["Name", "SSN", "Items", "Flag"]);
    match &r {
        Json::Object(m) => match &m[2].1 {
            Json::Array(a) => {
                assert_eq!(a.len(), 3);
                assert!(matches!(a[0], Json::Null));
                assert_eq!(keys(&a[1]), vec!["InnerKey"]);
                assert!(matches!(a[2], Json::Null));
            }
            _ => panic!("items should stay an array"),
        },
        _ => panic!("not an object"),
    }
}

#[test]
fn normalize_keeps_array_length_and_order() {
    let a = Json::Array(vec![num(3), Json::Null, s("a"), num(1), obj(vec![("k", Json::Null)])]);
    let r = normalize(a);
    match r {
        Json::Array(v) => {
            assert_eq!(v.len(), 5);
            assert!(same(&v[0], &num(3)));
            assert!(matches!(v[1], Json::Null));
            assert!(same(&v[2], &s("a")));
            assert!(same(&v[3], &num(1)));
            assert_eq!(keys(&v[4]), vec!["K"]);
        }
        _ => panic!("not an array"),
    }
}

#[test]
fn normalize_passes_scalars_through() {
    assert!(same(&normalize(s("lower")), &s("lower")));
    assert!(same(&normalize(num(7)), &num(7)));
    assert!(same(&normalize(Json::Bool(false)), &Json::Bool(false)));
    assert!(matches!(normalize(Json::Null), Json::Null));
}

#[test]
fn normalize_twice_equals_once() {
    let once = normalize(sample());
    let twice = normalize(normalize(sample()));
    assert!(same(&once, &twice));
}

#[test]
fn normalize_colliding_keys_keep_the_later_value_in_first_place() {
    let r = normalize(obj(vec![("a", num(1)), ("b", num(2)), ("A", num(3))]));
    match r {
        Json::Object(m) => {
            assert_eq!(m.len(), 2);
            assert_eq!(m[0].0, "A");
            assert!(same(&m[0].1, &num(3)));
            assert_eq!(m[1].0, "B");
        }
        _ => panic!("not an object"),
    }
}
