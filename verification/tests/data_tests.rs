use educlient::decode::Outcome;
use educlient::edupage_data::Data;
use educlient::edupage_types::{AccountType, Error, Gender};
use educlient::json::{JsonMember, JsonNumber, JsonValue};
use educlient::Educlient;

fn to_json(v: &serde_json::Value) -> JsonValue {
    match v {
        serde_json::Value::Null => JsonValue::Null,
        serde_json::Value::Bool(b) => JsonValue::Bool(*b),
        serde_json::Value::Number(n) => {
            if let Some(u) = n.as_u64() {
                JsonValue::Number(JsonNumber::PosInt(u))
            } else if let Some(i) = n.as_i64() {
                JsonValue::Number(JsonNumber::NegInt(i))
            } else {
                JsonValue::Number(JsonNumber::Float(n.to_string()))
            }
        }
        serde_json::Value::String(s) => JsonValue::String(s.clone()),
        serde_json::Value::Array(a) => JsonValue::Array(a.iter().map(to_json).collect()),
        serde_json::Value::Object(m) => JsonValue::Object(
            m.iter().map(|(k, v)| JsonMember { key: k.clone(), value: to_json(v) }).collect(),
        ),
    }
}

const SAMPLE: &str = r#"{
  "userrow": {"StudentID": "101", "TriedaID": "5", "p_meno": "Jana", "p_priezvisko": "Kova",
              "p_mail": "jana@example.org", "p_pohlavie": "2", "p_www_login": "janak"},
  "zvonenia": [{"id": "1", "starttime": "8:00", "endtime": "8:45"},
               {"id": "2", "starttime": "8:55", "endtime": "9:40"}],
  "dp": {"year": 2023,
         "dates": {"2023-09-04": {"plan": [
                       {"periodorbreak": "01", "subjectid": "30", "groupsubjectids": ["70"], "period": "1"},
                       {"periodorbreak": "ZZZ"},
                       {"periodorbreak": "02", "subjectid": "", "groupsubjectids": [null], "period": "2"},
                       {"periodorbreak": "03", "subjectid": "31", "groupsubjectids": []}]},
                   "2023-09-05": {"plan": []}}},
  "meninyDnes": "Rozália", "meninyZajtra": "Regína",
  "dbi": {
    "classes": {"5": {"id": "5", "grade": "3", "name": "III.A", "short": "3A",
                      "teacherid": "20", "teacher2id": "", "classroomid": "40"}},
    "classrooms": {"40": {"id": "40", "name": "Room 40", "short": "40"}},
    "parents": {"60": {"id": "60", "firstname": "Eva", "lastname": "Kova", "gender": "F"}},
    "plans": {"70": {"planid": "70", "predmetMeno": "Math", "predmetid": "30",
                     "ucitelids": ["20", "21"], "triedy": ["5", 6], "students": ["101", 102, null, "x"]}},
    "students": {"101": {"id": "101", "classid": "5", "firstname": "Jana", "lastname": "Kova",
                         "parent1id": "60", "parent2id": "", "gender": "F",
                         "datefrom": "2020-09-01", "numberinclass": "7"}},
    "subjects": {"30": {"id": "30", "name": "Mathematics", "short": "MAT"},
                 "31": {"id": "31", "name": "Physics", "short": "FYZ"}},
    "teachers": {"20": {"id": "20", "firstname": "Peter", "lastname": "Novak", "gender": "M",
                        "short": "PN", "datefrom": "2001-01-01", "classroomid": "40"}},
    "homeworksEnabled": true, "jeZUS": false},
  "items": [{"timelineid": "900", "cas_pridania": "2023-09-01 10:00", "cas_udalosti": null,
             "vlastnik": "Ucitel-20", "user": "Student-101", "text": "Hello", "data": {"k": [1, 2.5]}},
            {"timelineid": "901", "cas_pridania": "2023-09-02 11:00", "cas_udalosti": "2023-09-03",
             "vlastnik": "Admin", "user": "Trieda-5", "text": "", "data": null}]
}"#;

fn client_with(doc: &str) -> Educlient {
    let value: serde_json::Value = serde_json::from_str(doc).unwrap();
    let mut c = Educlient::new("school".to_string());
    c.accept_login_data(to_json(&value)).unwrap();
    c
}

fn sample_data() -> Data {
    client_with(SAMPLE).data().unwrap()
}

#[test]
fn user_is_decoded() {
    let d = sample_data();
    assert!(matches!(d.user.user, AccountType::Student(101)));
    assert_eq!(d.user.class_id, Some(5));
    assert_eq!(d.user.name(), "Jana Kova");
    assert_eq!(d.user.mail, "jana@example.org");
    assert_eq!(d.user.gender, Gender::Female);
    assert_eq!(d.user.login, "janak");
    assert_eq!(d.year, 2023);
    assert_eq!(d.nameday_today, "Rozália");
    assert_eq!(d.nameday_tomorrow, "Regína");
}

#[test]
fn ringing_is_decoded_in_order() {
    let d = sample_data();
    assert_eq!(d.ringing.len(), 2);
    assert_eq!(d.ringing[1].start, "8:55");
    let r = d.ringing_from_id(2).unwrap();
    assert_eq!(r.end, "9:40");
    assert!(d.ringing_from_id(3).is_none());
}

#[test]
fn day_plans_skip_breaks_and_missing_periods() {
    let d = sample_data();
    assert_eq!(d.day_plans.len(), 2);
    let day = d.day_plan_from_date("2023-09-04".to_string()).unwrap();
    assert_eq!(day.lessons.len(), 2);
    assert_eq!(day.lessons[0].subject_id, Some(30));
    assert_eq!(day.lessons[0].plan_id, Some(70));
    assert_eq!(day.lessons[0].period, 1);
    assert_eq!(day.lessons[1].subject_id, None);
    assert_eq!(day.lessons[1].plan_id, None);
    assert_eq!(day.lessons[1].period, 2);
    assert!(d.day_plan_from_date("2023-09-05".to_string()).unwrap().lessons.is_empty());
    assert!(d.day_plan_from_date("2023-09-06".to_string()).is_none());
}

#[test]
fn database_is_decoded() {
    let d = sample_data();
    let class = d.dbi.class_from_id(5).unwrap();
    assert_eq!(class.grade, 3);
    assert_eq!(class.name, "III.A");
    assert_eq!(class.teacher_id, Some(20));
    assert_eq!(class.teacher2_id, None);
    assert_eq!(class.classroom_id, Some(40));
    assert_eq!(d.dbi.classroom_from_id(40).unwrap().name_short, "40");
    let parent = d.dbi.parent_from_id(60).unwrap();
    assert_eq!(parent.name(), "Eva Kova");
    assert_eq!(parent.gender, Gender::Female);
    let plan = d.dbi.plan_from_id(70).unwrap();
    assert_eq!(plan.name, "Math");
    assert_eq!(plan.teachers, vec![20, 21]);
    assert_eq!(plan.class_ids, vec![5, 6]);
    assert_eq!(plan.students, vec![101, 102]);
    let student = d.dbi.student_from_id(101).unwrap();
    assert_eq!(student.parents, vec![60]);
    assert_eq!(student.class_position, 7);
    assert_eq!(student.name(), "Jana Kova");
    assert_eq!(d.dbi.subject_from_id(31).unwrap().name, "Physics");
    let teacher = d.dbi.teacher_from_id(20).unwrap();
    assert_eq!(teacher.name(), "Peter Novak");
    assert_eq!(teacher.short_name, "PN");
    assert_eq!(teacher.gender, Gender::Male);
    assert!(d.dbi.homeworks_enabled);
    assert!(!d.dbi.art_school);
    assert!(d.dbi.teacher_from_id(21).is_none());
}

#[test]
fn timeline_is_decoded() {
    let d = sample_data();
    assert_eq!(d.timeline.len(), 2);
    let first = d.timeline_from_id(900).unwrap();
    assert!(first.time.is_none());
    assert!(matches!(first.author, AccountType::Teacher(20)));
    assert!(matches!(first.recipient, AccountType::Student(101)));
    assert_eq!(first.text, "Hello");
    assert!(first.data.index("k").as_array().unwrap().len() == 2);
    let second = d.timeline_from_id(901).unwrap();
    assert_eq!(second.time.as_deref(), Some("2023-09-03"));
    assert!(matches!(second.author, AccountType::Admin));
    assert!(matches!(second.recipient, AccountType::Other(ref s) if s == "Trieda-5"));
    assert!(second.data.is_null());
}

#[test]
fn lookups_find_the_first_match() {
    let mut d = sample_data();
    let mut extra = d.ringing[1].clone();
    extra.id = 1;
    extra.start = "later".to_string();
    d.ringing.push(extra);
    assert_eq!(d.ringing_from_id(1).unwrap().start, "8:00");
}

#[test]
fn copies_keep_everything() {
    let d = sample_data();
    let e = d.clone();
    assert_eq!(e.dbi.plans[0].students, vec![101, 102]);
    assert_eq!(e.timeline[0].text, "Hello");
    assert_eq!(e.day_plans[0].lessons.len(), 2);
}

fn edited(from: &str, to: &str) -> Educlient {
    assert!(SAMPLE.contains(from));
    client_with(&SAMPLE.replacen(from, to, 1))
}

#[test]
fn unknown_user_gender_is_refused() {
    let c = edited(r#""p_pohlavie": "2""#, r#""p_pohlavie": "3""#);
    assert!(matches!(c.data(), Err(Error::ParseError)));
}

#[test]
fn missing_account_kind_is_refused() {
    let c = edited(r#""StudentID": "101""#, r#""OtherID": "101""#);
    assert!(matches!(c.data(), Err(Error::ParseError)));
}

#[test]
fn teacher_id_comes_before_student_id() {
    let c = edited(r#""StudentID": "101""#, r#""StudentID": "101", "UcitelID": "20""#);
    assert!(matches!(c.data().unwrap().user.user, AccountType::Teacher(20)));
}

#[test]
fn unknown_parent_gender_is_refused() {
    let c = edited(r#""lastname": "Kova", "gender": "F"}"#, r#""lastname": "Kova", "gender": "X"}"#);
    assert!(matches!(c.data(), Err(Error::ParseError)));
}

#[test]
fn plan_class_of_wrong_kind_is_refused() {
    let c = edited(r#""triedy": ["5", 6]"#, r#""triedy": ["5", true]"#);
    assert!(matches!(c.data(), Err(Error::ParseError)));
}

#[test]
fn plans_that_are_no_object_give_no_plans() {
    let c = edited(r#""plans": {"70""#, r#""plans": [], "unused": {"70""#);
    let d = c.data().unwrap();
    assert!(d.dbi.plans.is_empty());
    assert!(d.dbi.plan_from_id(70).is_none());
}

#[test]
fn year_is_cut_to_32_bits() {
    let c = edited(r#""year": 2023"#, r#""year": 4294969319"#);
    assert_eq!(c.data().unwrap().year, 2023);
}

#[test]
fn missing_required_field_is_unreadable() {
    let c = edited(r#""p_mail": "jana@example.org", "#, "");
    assert!(matches!(c.read_data(), Outcome::Unreadable));
    let c = edited(r#""numberinclass": "7""#, r#""numberinclass": "seventh""#);
    assert!(matches!(c.read_data(), Outcome::Unreadable));
    let c = edited(r#""vlastnik": "Ucitel-20""#, r#""vlastnik": "Ucitel""#);
    assert!(matches!(c.read_data(), Outcome::Unreadable));
}

#[test]
fn refusal_wins_over_a_later_unreadable_field() {
    let doc = SAMPLE
        .replacen(r#""p_pohlavie": "2""#, r#""p_pohlavie": "9""#, 1)
        .replacen(r#""numberinclass": "7""#, r#""numberinclass": "x""#, 1);
    assert!(matches!(client_with(&doc).data(), Err(Error::ParseError)));
}

#[test]
fn json_member_lookup() {
    let value: serde_json::Value = serde_json::from_str(r#"{"a": {"b": 3}, "s": "t", "n": -4, "f": 1.5, "big": 18446744073709551615}"#).unwrap();
    let j = to_json(&value);
    assert_eq!(j.index("a").index("b").as_i64(), Some(3));
    assert!(j.index("missing").is_null());
    assert!(j.index("s").index("x").is_null());
    assert_eq!(j.index("s").as_str(), Some("t"));
    assert!(j.index("s").is_string());
    assert_eq!(j.index("n").as_i64(), Some(-4));
    assert_eq!(j.index("f").as_i64(), None);
    assert_eq!(j.index("big").as_i64(), None);
    assert!(!j.index("big").is_i64());
    assert!(j.index("a").is_object());
    assert_eq!(j.index("a").as_object().unwrap().len(), 1);
    assert_eq!(j.as_bool(), None);
    let dup = JsonValue::Object(vec![
        JsonMember { key: "k".to_string(), value: JsonValue::Bool(true) },
        JsonMember { key: "k".to_string(), value: JsonValue::Bool(false) },
    ]);
    assert_eq!(dup.index("k").as_bool(), Some(true));
}
