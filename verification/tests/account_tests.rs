use educlient::edupage_types::{AccountType, Error, Gender};
use educlient::Educlient;

fn read(name: &str) -> AccountType {
    Educlient::account_from_string(name.to_string())
}

#[test]
fn account_kinds_from_names() {
    assert!(matches!(read("Student-12"), AccountType::Student(12)));
    assert!(matches!(read("Student 5"), AccountType::Student(5)));
    assert!(matches!(read("Rodic-7"), AccountType::Parent(7)));
    assert!(matches!(read("Ucitel-3"), AccountType::Teacher(3)));
    assert!(matches!(read("Admin"), AccountType::Admin));
    assert!(matches!(read("Admin-1"), AccountType::Admin));
}

#[test]
fn account_names_without_a_number_are_kept() {
    match read("Student-x") {
        AccountType::Other(s) => assert_eq!(s, "Student-x"),
        other => panic!("unexpected {:?}", other),
    }
    match read("Rodic-") {
        AccountType::Other(s) => assert_eq!(s, "Rodic-"),
        other => panic!("unexpected {:?}", other),
    }
    match read("Ucitel-99999999999") {
        AccountType::Other(s) => assert_eq!(s, "Ucitel-99999999999"),
        other => panic!("unexpected {:?}", other),
    }
    match read("Trieda-4") {
        AccountType::Other(s) => assert_eq!(s, "Trieda-4"),
        other => panic!("unexpected {:?}", other),
    }
    match read("") {
        AccountType::Other(s) => assert_eq!(s, ""),
        other => panic!("unexpected {:?}", other),
    }
}

#[test]
fn account_display_forms() {
    assert_eq!(AccountType::Student(42).to_string(), "Student 42");
    assert_eq!(AccountType::Parent(-1).to_string(), "Parent -1");
    assert_eq!(AccountType::Teacher(0).to_string(), "Teacher 0");
    assert_eq!(AccountType::Admin.to_string(), "Admin");
    assert_eq!(AccountType::Other("Zamestnanec".to_string()).to_string(), "Zamestnanec");
}

#[test]
fn account_display_round_trip() {
    for n in [0, 5, -3, i32::MAX, i32::MIN] {
        let shown = AccountType::Student(n).to_string();
        assert!(matches!(read(&shown), AccountType::Student(m) if m == n));
    }
    assert!(matches!(read(&AccountType::Admin.to_string()), AccountType::Admin));
    match read(&AccountType::Other("Zamestnanec-1".to_string()).to_string()) {
        AccountType::Other(s) => assert_eq!(s, "Zamestnanec-1"),
        other => panic!("unexpected {:?}", other),
    }
    // A teacher's displayed form is not read back as a teacher.
    assert!(matches!(read(&AccountType::Teacher(5).to_string()), AccountType::Other(_)));
}

#[test]
fn clones_are_equal() {
    assert_eq!(Gender::Female.clone(), Gender::Female);
    assert_eq!(Error::NotFound.clone(), Error::NotFound);
    assert!(matches!(AccountType::Teacher(9).clone(), AccountType::Teacher(9)));
}
