use educlient::edupage_data::{Data, DayPlan, Lesson, Plan, Subject, Teacher, TimelineEvent, User, DBI};
use educlient::edupage_types::{AccountType, Gender};
use educlient::json::JsonValue;

fn subject(id: i32, name: &str) -> Subject {
    Subject { id, name: name.to_string(), name_short: String::new() }
}

fn plan(plan_id: i32, teachers: Vec<i32>) -> Plan {
    Plan { plan_id, name: String::new(), subject_id: 0, teachers, class_ids: vec![], students: vec![] }
}

fn teacher(id: i32, first: &str, last: &str) -> Teacher {
    Teacher {
        first_name: first.to_string(),
        last_name: last.to_string(),
        gender: Gender::Male,
        id,
        short_name: String::new(),
        since: String::new(),
        classroom_id: None,
    }
}

fn dbi() -> DBI {
    DBI {
        classes: vec![],
        classrooms: vec![],
        parents: vec![],
        plans: vec![plan(70, vec![20, 21]), plan(71, vec![]), plan(72, vec![99]), plan(70, vec![21])],
        students: vec![],
        subjects: vec![subject(30, "Mathematics"), subject(31, "Physics"), subject(30, "Other")],
        teachers: vec![teacher(20, "Peter", "Novak"), teacher(21, "Anna", "Mala")],
        homeworks_enabled: false,
        art_school: false,
    }
}

fn lesson(subject_id: Option<i32>, plan_id: Option<i32>, period: i32) -> Lesson {
    Lesson { subject_id, plan_id, period }
}

#[test]
fn lesson_line_names_first_teacher_and_subject() {
    let d = dbi();
    assert_eq!(d.lesson_line(&lesson(Some(30), Some(70), 1)).unwrap(), "1. Peter Novak - Mathematics");
}

#[test]
fn lesson_line_unknown_teacher_cases() {
    let d = dbi();
    // no plan
    assert_eq!(d.lesson_line(&lesson(Some(31), None, 2)).unwrap(), "2. Unknown Teacher - Physics");
    // plan not found
    assert_eq!(d.lesson_line(&lesson(Some(31), Some(5), 3)).unwrap(), "3. Unknown Teacher - Physics");
    // plan without teachers
    assert_eq!(d.lesson_line(&lesson(Some(31), Some(71), 4)).unwrap(), "4. Unknown Teacher - Physics");
    // first teacher not found
    assert_eq!(d.lesson_line(&lesson(Some(31), Some(72), -5)).unwrap(), "-5. Unknown Teacher - Physics");
}

#[test]
fn lesson_line_subject_missing_or_absent() {
    let d = dbi();
    assert_eq!(d.lesson_line(&lesson(Some(32), Some(70), 6)).unwrap(), "6. Unknown Teacher - Subject not found");
    assert!(d.lesson_line(&lesson(None, Some(70), 7)).is_none());
}

#[test]
fn lesson_lines_skip_lessons_without_subject() {
    let d = dbi();
    let day = DayPlan {
        date: "2023-09-04".to_string(),
        lessons: vec![lesson(Some(30), Some(70), 1), lesson(None, None, 2), lesson(Some(31), None, 3)],
    };
    assert_eq!(d.lesson_lines(&day), vec!["1. Peter Novak - Mathematics", "3. Unknown Teacher - Physics"]);
    let empty = DayPlan { date: String::new(), lessons: vec![] };
    assert!(d.lesson_lines(&empty).is_empty());
}

fn event(id: i32, author: AccountType, text: &str) -> TimelineEvent {
    TimelineEvent {
        id,
        added: String::new(),
        time: None,
        author,
        recipient: AccountType::Admin,
        text: text.to_string(),
        data: JsonValue::Null,
    }
}

fn client_with_timeline(events: Vec<TimelineEvent>) -> Data {
    Data {
        ringing: vec![],
        user: User {
            user: AccountType::Student(1),
            class_id: None,
            first_name: "A".to_string(),
            last_name: "B".to_string(),
            mail: String::new(),
            gender: Gender::Male,
            login: String::new(),
        },
        dbi: dbi(),
        nameday_today: String::new(),
        nameday_tomorrow: String::new(),
        day_plans: vec![],
        year: 2023,
        timeline: events,
    }
}

#[test]
fn latest_messages_skip_empty_and_keep_six() {
    let mut events = vec![event(1, AccountType::Teacher(20), "Hello"), event(2, AccountType::Admin, "")];
    for i in 0..8 {
        events.push(event(10 + i, AccountType::Student(i), &format!("m{}", i)));
    }
    let d = client_with_timeline(events);
    let lines = d.latest_messages();
    assert_eq!(lines.len(), 6);
    assert_eq!(lines[0], "Teacher 20: Hello");
    assert_eq!(lines[1], "Student 0: m0");
    assert_eq!(lines[5], "Student 4: m4");
}

#[test]
fn latest_messages_fewer_than_six() {
    let d = client_with_timeline(vec![
        event(1, AccountType::Other("Trieda-5".to_string()), "Hi"),
        event(2, AccountType::Parent(3), ""),
    ]);
    assert_eq!(d.latest_messages(), vec!["Trieda-5: Hi"]);
    let none = client_with_timeline(vec![]);
    assert!(none.latest_messages().is_empty());
}
