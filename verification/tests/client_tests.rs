use educlient::decode::Outcome;
use educlient::edupage_types::Error;
use educlient::json::{JsonMember, JsonNumber, JsonValue};
use educlient::Educlient;

#[test]
fn new_client_is_logged_out() {
    let c = Educlient::new("school".to_string());
    assert!(!c.logged_in);
    assert_eq!(c.domain, "school");
    assert!(c.json.is_null());
    assert!(matches!(c.data(), Err(Error::NotLoggedIn)));
    assert!(matches!(c.read_data(), Outcome::Fails(Error::NotLoggedIn)));
}

#[test]
fn urls_of_the_school_site() {
    let c = Educlient::new("gymnazium".to_string());
    assert_eq!(c.login_url(), "https://gymnazium.edupage.org/login/edubarlogin.php");
    assert!(matches!(c.grades_url(), Err(Error::NotLoggedIn)));
    let mut c = c;
    c.logged_in = true;
    assert_eq!(c.grades_url().unwrap(), "https://gymnazium.edupage.org/znamky/?");
}

#[test]
fn refused_login_logs_out() {
    let mut c = Educlient::new("s".to_string());
    c.logged_in = true;
    let r = c.login_response("https://s.edupage.org/login/?bad=1", "whatever");
    assert!(matches!(r, Err(Error::LoginFailed)));
    assert!(!c.logged_in);
}

#[test]
fn login_answer_payload() {
    let mut c = Educlient::new("s".to_string());
    let body = "<script>\n\t$j(document).ready(function() {\r\n userhome({\"a\":\n1});\n\t});\n</script>";
    let r = c.login_response("https://s.edupage.org/user/", body).unwrap();
    assert_eq!(r, "{\"a\":1}");
    assert!(!c.logged_in);
    let expected = body.replace(['\t', '\r', '\n'], "");
    let expected = expected.split("userhome(").collect::<Vec<_>>()[1].split(");").collect::<Vec<_>>()[0].to_string();
    assert_eq!(r, expected);
}

#[test]
fn accepting_login_data() {
    let mut c = Educlient::new("s".to_string());
    assert!(matches!(c.accept_login_data(JsonValue::Null), Err(Error::NoResponse)));
    assert!(!c.logged_in);
    let data = JsonValue::Object(vec![JsonMember { key: "userrow".to_string(), value: JsonValue::Null }]);
    assert!(c.accept_login_data(data).is_ok());
    assert!(c.logged_in);
    assert!(!c.json.is_null());
    // Logged in with data that lacks the user's row: no account kind.
    assert!(matches!(c.read_data(), Outcome::Fails(Error::ParseError)));
    // A student id that is no number cannot be read at all.
    let row = JsonValue::Object(vec![JsonMember {
        key: "StudentID".to_string(),
        value: JsonValue::String("abc".to_string()),
    }]);
    c.json = JsonValue::Object(vec![JsonMember { key: "userrow".to_string(), value: row }]);
    assert!(matches!(c.read_data(), Outcome::Unreadable));
}

#[test]
fn logged_in_without_data_is_not_found() {
    let mut c = Educlient::new("s".to_string());
    c.logged_in = true;
    assert!(matches!(c.data(), Err(Error::NotFound)));
}

#[test]
fn grades_payload_from_page() {
    let page = "x.znamkyStudentViewer({\"grades\":[1,2]});\r\n\t\t});\r\n\t\t</script>rest";
    assert_eq!(Educlient::grades_payload(page), "{\"grades\":[1,2]}");
    let page2 = "a.znamkyStudentViewer(b.znamkyStudentViewer(c";
    assert_eq!(Educlient::grades_payload(page2), "b");
}

#[test]
fn client_clone_keeps_state() {
    let mut c = Educlient::new("s".to_string());
    c.logged_in = true;
    let d = c.clone();
    assert!(d.logged_in);
    assert_eq!(d.domain, "s");
}

#[test]
fn grades_read_from_page() {
    let page = "x.znamkyStudentViewer({\"grades\":[1,-2,2.5],\"b\":true});\r\n\t\t});\r\n\t\t</script>rest";
    let v = Educlient::grades_from_page(page).unwrap();
    match v.index("grades") {
        JsonValue::Array(items) => {
            assert_eq!(items.len(), 3);
            assert_eq!(items[0].as_i64(), Some(1));
            assert_eq!(items[1].as_i64(), Some(-2));
            assert!(matches!(&items[2], JsonValue::Number(JsonNumber::Float(t)) if t == "2.5"));
        }
        _ => panic!("grades are no array"),
    }
    assert_eq!(v.index("b").as_bool(), Some(true));
    assert!(v.index("missing").is_null());
}

#[test]
fn grades_that_are_no_json() {
    let page = "x.znamkyStudentViewer({grades);\r\n\t\t});\r\n\t\t</script>";
    assert!(matches!(Educlient::grades_from_page(page), Err(Error::ParseError)));
}

#[test]
fn login_answer_refused() {
    let mut c = Educlient::new("s".to_string());
    c.logged_in = true;
    assert!(matches!(c.login_answer("https://s.edupage.org/login/?bad=1", ""), Outcome::Fails(Error::LoginFailed)));
    assert!(!c.logged_in);
}

#[test]
fn login_answer_keeps_user_data() {
    let mut c = Educlient::new("s".to_string());
    let body = "<script>\n\tuserhome({\"userrow\":\n{\"p_meno\":\"Jana\"}});\n</script>";
    assert!(matches!(c.login_answer("https://s.edupage.org/user/", body), Outcome::Done(())));
    assert!(c.logged_in);
    assert_eq!(c.json.index("userrow").index("p_meno").as_str(), Some("Jana"));
}

#[test]
fn login_answer_null_data() {
    let mut c = Educlient::new("s".to_string());
    c.logged_in = true;
    let body = "userhome(null);";
    assert!(matches!(c.login_answer("https://s.edupage.org/user/", body), Outcome::Fails(Error::NoResponse)));
    assert!(!c.logged_in);
    assert!(c.json.is_null());
}

#[test]
fn login_answer_unreadable_pages() {
    let mut c = Educlient::new("s".to_string());
    assert!(matches!(c.login_answer("https://s.edupage.org/user/", "no data here"), Outcome::Unreadable));
    assert!(matches!(c.login_answer("https://s.edupage.org/user/", "userhome({oops);"), Outcome::Unreadable));
    assert!(!c.logged_in);
    assert!(c.json.is_null());
}

#[test]
fn import_json_text() {
    let mut c = Educlient::new("s".to_string());
    assert!(!c.import_json("{not json"));
    assert!(c.json.is_null());
    assert!(c.import_json("{\"a\": [1, 2], \"b\": \"x\"}"));
    assert!(!c.logged_in);
    assert_eq!(c.json.index("b").as_str(), Some("x"));
    assert!(matches!(c.read_data(), Outcome::Fails(Error::ParseError)));
}
