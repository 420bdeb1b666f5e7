//! The day plans, the user, the school's database and the whole document.
use vstd::prelude::*;

use crate::decode::fields::{
    gender_at, gender_field, mapped_id_at, mapped_id_field, optional_id_at, optional_id_field,
    text_at, text_field,
};
use crate::decode::items::{
    array_at, array_of, lifted, lifted_value, null_position, object_at, object_of, ClassItem,
    ClassroomItem, EventItem, IdItem, ItemDecoder, NumberItem, ParentItem, PlanItem, RingingItem,
    StudentItem, SubjectItem, TeacherItem, member_id, member_text,
};
use crate::decode::outcome::{
    collect_with, keep, lemma_collect_item, lemma_collect_kept, lemma_collect_parse_errors, lemma_collect_step,
    list_view, only_parse_errors, stop, Outcome,
};
use crate::edupage_data::{
    views, Data, DataView, DayPlan, DayPlanView, DBI, DbiView, Lesson, Plan, PlanView, User,
    UserView,
};
use crate::edupage_types::{AccountType, AccountView, Error, Gender};
use crate::json::{member_models, models, JsonMember, JsonModel, JsonValue};
use crate::text::{decimal, lemma_parse_decimal, parse_i32, parse_i32_spec, str_eq};

verus! {

// ---------------------------------------------------------------------
// Day plans
// ---------------------------------------------------------------------

/// The plan id of a lesson: the first of its group's subject ids, none when
/// the list is empty or starts with `null`; outermost `None` when it cannot
/// be read.
pub open spec fn group_plan_field(j: JsonModel) -> Option<Option<i32>> {
    match j.index("groupsubjectids"@).as_array() {
        Some(items) => if items.len() == 0 || items[0].is_null() {
            Some(None)
        } else {
            match items[0].as_str() {
                Some(s) => match parse_i32_spec(s) {
                    Some(n) => Some(Some(n)),
                    None => None,
                },
                None => None,
            }
        },
        None => None,
    }
}

/// One entry of a day's plan: breaks (`ZZZ`) and entries without a period
/// are left out.
pub open spec fn lesson_outcome(j: JsonModel) -> Outcome<Option<Lesson>> {
    match text_field(j, "periodorbreak"@) {
        Some(kind) => if kind == "ZZZ"@ {
            Outcome::Done(None)
        } else {
            match (optional_id_field(j, "subjectid"@), group_plan_field(j)) {
                (Some(subject_id), Some(plan_id)) => match text_field(j, "period"@) {
                    Some(p) => match parse_i32_spec(p) {
                        Some(period) => Outcome::Done(Some(Lesson { subject_id, plan_id, period })),
                        None => Outcome::Unreadable,
                    },
                    None => Outcome::Done(None),
                },
                _ => Outcome::Unreadable,
            }
        },
        None => Outcome::Unreadable,
    }
}

pub open spec fn lesson_reader() -> spec_fn(JsonModel) -> Outcome<Option<Lesson>> {
    |j: JsonModel| lesson_outcome(j)
}

/// The plan of one date, from the date and its entry.
pub open spec fn day_plan_outcome(date: Seq<char>, j: JsonModel) -> Outcome<DayPlanView> {
    match j.index("plan"@).as_array() {
        Some(items) => match collect_with(items, lesson_reader()) {
            Outcome::Done(lessons) => Outcome::Done(DayPlanView { date, lessons }),
            other => stop(other),
        },
        None => Outcome::Unreadable,
    }
}

pub open spec fn day_plan_reader() -> spec_fn((Seq<char>, JsonModel)) -> Outcome<
    Option<DayPlanView>,
> {
    |m: (Seq<char>, JsonModel)| keep(day_plan_outcome(m.0, m.1))
}

/// The plans of all dates, in the order of the object's members.
pub open spec fn day_plans_outcome(v: JsonModel) -> Outcome<Seq<DayPlanView>> {
    match v.as_object() {
        Some(ms) => collect_with(ms, day_plan_reader()),
        None => Outcome::Unreadable,
    }
}

fn decode_lesson(j: &JsonValue) -> (r: Outcome<Option<Lesson>>)
    ensures
        r == lesson_outcome(j.model()),
{
    let kind = match j.index("periodorbreak").as_str() {
        Some(k) => k,
        None => {
            return Outcome::Unreadable;
        },
    };
    if str_eq(kind, "ZZZ") {
        return Outcome::Done(None);
    }
    let subject_id = match optional_id_at(j, "subjectid") {
        Some(s) => s,
        None => {
            return Outcome::Unreadable;
        },
    };
    let group = match j.index("groupsubjectids").as_array() {
        Some(g) => g,
        None => {
            return Outcome::Unreadable;
        },
    };
    let plan_id = if group.len() == 0 {
        None
    } else if group[0].is_null() {
        None
    } else {
        proof {
            assert(models(group@)[0] == group@[0].model());
        }
        match group[0].as_str() {
            Some(s) => match parse_i32(s) {
                Some(n) => Some(n),
                None => {
                    return Outcome::Unreadable;
                },
            },
            None => {
                return Outcome::Unreadable;
            },
        }
    };
    proof {
        if group@.len() > 0 {
            assert(models(group@)[0] == group@[0].model());
        }
    }
    match j.index("period").as_str() {
        Some(p) => match parse_i32(p) {
            Some(period) => Outcome::Done(Some(Lesson { subject_id, plan_id, period })),
            None => Outcome::Unreadable,
        },
        None => Outcome::Done(None),
    }
}

fn decode_lessons(items: &Vec<JsonValue>) -> (r: Outcome<Vec<Lesson>>)
    ensures
        match r {
            Outcome::Done(v) => collect_with(models(items@), lesson_reader()) == Outcome::Done(v@),
            Outcome::Fails(e) => collect_with(models(items@), lesson_reader()) == Outcome::<Seq<Lesson>>::Fails(e),
            Outcome::Unreadable => collect_with(models(items@), lesson_reader()) is Unreadable,
        },
{
    let ghost all = models(items@);
    let ghost f = lesson_reader();
    let mut out: Vec<Lesson> = Vec::new();
    let mut i: usize = 0;
    assert(all.take(0) =~= Seq::<JsonModel>::empty());
    assert(out@ =~= Seq::<Lesson>::empty());
    while i < items.len()
        invariant
            i <= items@.len(),
            all == models(items@),
            f == lesson_reader(),
            collect_with(all.take(i as int), f) == Outcome::Done(out@),
        decreases items@.len() - i,
    {
        proof {
            lemma_collect_item(all, f, i as int);
            lemma_collect_step(all, f, i as int);
            assert(all[i as int] == items@[i as int].model());
        }
        match decode_lesson(&items[i]) {
            Outcome::Done(Some(lesson)) => {
                out.push(lesson);
            },
            Outcome::Done(None) => {},
            Outcome::Fails(e) => {
                return Outcome::Fails(e);
            },
            Outcome::Unreadable => {
                return Outcome::Unreadable;
            },
        }
        i = i + 1;
    }
    assert(all.take(items@.len() as int) =~= all);
    Outcome::Done(out)
}

fn decode_day_plans(ms: &Vec<JsonMember>) -> (r: Outcome<Vec<DayPlan>>)
    ensures
        list_view(r) == collect_with(member_models(ms@), day_plan_reader()),
{
    let ghost all = member_models(ms@);
    let ghost f = day_plan_reader();
    let mut out: Vec<DayPlan> = Vec::new();
    let mut i: usize = 0;
    assert(all.take(0) =~= Seq::<(Seq<char>, JsonModel)>::empty());
    assert(views(out@) =~= Seq::<DayPlanView>::empty());
    while i < ms.len()
        invariant
            i <= ms@.len(),
            all == member_models(ms@),
            f == day_plan_reader(),
            collect_with(all.take(i as int), f) == Outcome::Done(views(out@)),
        decreases ms@.len() - i,
    {
        proof {
            lemma_collect_item(all, f, i as int);
            lemma_collect_step(all, f, i as int);
            assert(all[i as int] == (ms@[i as int].key@, ms@[i as int].value.model()));
        }
        let items = match ms[i].value.index("plan").as_array() {
            Some(items) => items,
            None => {
                return Outcome::Unreadable;
            },
        };
        let lessons = match decode_lessons(items) {
            Outcome::Done(l) => l,
            Outcome::Fails(e) => {
                return Outcome::Fails(e);
            },
            Outcome::Unreadable => {
                return Outcome::Unreadable;
            },
        };
        let plan = DayPlan { date: ms[i].key.clone(), lessons };
        let ghost before = out@;
        out.push(plan);
        assert(views(out@) =~= views(before).push(plan@));
        i = i + 1;
    }
    assert(all.take(ms@.len() as int) =~= all);
    Outcome::Done(out)
}

// ---------------------------------------------------------------------
// The user, the school's database, and the whole document
// ---------------------------------------------------------------------

/// The kind of the user's account: a teacher, student or parent id, in
/// that order of preference; none of them is refused.
pub open spec fn account_kind(u: JsonModel) -> Outcome<AccountView> {
    match text_field(u, "UcitelID"@) {
        Some(s) => match parse_i32_spec(s) {
            Some(n) => Outcome::Done(AccountView::Teacher(n)),
            None => Outcome::Unreadable,
        },
        None => match text_field(u, "StudentID"@) {
            Some(s) => match parse_i32_spec(s) {
                Some(n) => Outcome::Done(AccountView::Student(n)),
                None => Outcome::Unreadable,
            },
            None => match text_field(u, "RodicID"@) {
                Some(s) => match parse_i32_spec(s) {
                    Some(n) => Outcome::Done(AccountView::Parent(n)),
                    None => Outcome::Unreadable,
                },
                None => Outcome::Fails(Error::ParseError),
            },
        },
    }
}

/// The logged-in user, from the `userrow` of the document; a gender other
/// than `1` or `2` is refused.
pub open spec fn user_outcome(u: JsonModel) -> Outcome<UserView> {
    match account_kind(u) {
        Outcome::Done(user) => match (
            mapped_id_field(u, "TriedaID"@),
            text_field(u, "p_meno"@),
            text_field(u, "p_priezvisko"@),
            text_field(u, "p_mail"@),
        ) {
            (Some(class_id), Some(first_name), Some(last_name), Some(mail)) => match gender_field(
                u,
                "p_pohlavie"@,
                "1"@,
                "2"@,
            ) {
                Some(Some(gender)) => match text_field(u, "p_www_login"@) {
                    Some(login) => Outcome::Done(
                        UserView { user, class_id, first_name, last_name, mail, gender, login },
                    ),
                    None => Outcome::Unreadable,
                },
                Some(None) => Outcome::Fails(Error::ParseError),
                None => Outcome::Unreadable,
            },
            _ => Outcome::Unreadable,
        },
        other => stop(other),
    }
}

fn decode_account_kind(u: &JsonValue) -> (r: Outcome<AccountType>)
    ensures
        r@ == account_kind(u.model()),
{
    if let Some(id) = u.index("UcitelID").as_str() {
        return match parse_i32(id) {
            Some(n) => Outcome::Done(AccountType::Teacher(n)),
            None => Outcome::Unreadable,
        };
    }
    if let Some(id) = u.index("StudentID").as_str() {
        return match parse_i32(id) {
            Some(n) => Outcome::Done(AccountType::Student(n)),
            None => Outcome::Unreadable,
        };
    }
    if let Some(id) = u.index("RodicID").as_str() {
        return match parse_i32(id) {
            Some(n) => Outcome::Done(AccountType::Parent(n)),
            None => Outcome::Unreadable,
        };
    }
    Outcome::Fails(Error::ParseError)
}

fn decode_user(u: &JsonValue) -> (r: Outcome<User>)
    ensures
        r@ == user_outcome(u.model()),
{
    let user = match decode_account_kind(u) {
        Outcome::Done(a) => a,
        Outcome::Fails(e) => {
            return Outcome::Fails(e);
        },
        Outcome::Unreadable => {
            return Outcome::Unreadable;
        },
    };
    let (class_id, first_name, last_name, mail) = match (
        mapped_id_at(u, "TriedaID"),
        text_at(u, "p_meno"),
        text_at(u, "p_priezvisko"),
        text_at(u, "p_mail"),
    ) {
        (Some(c), Some(f), Some(l), Some(m)) => (c, f, l, m),
        _ => {
            return Outcome::Unreadable;
        },
    };
    let gender = match gender_at(u, "p_pohlavie", "1", "2") {
        Some(Some(g)) => g,
        Some(None) => {
            return Outcome::Fails(Error::ParseError);
        },
        None => {
            return Outcome::Unreadable;
        },
    };
    match text_at(u, "p_www_login") {
        Some(login) => {
            let r = User { user, class_id, first_name, last_name, mail, gender, login };
            assert(user_outcome(u.model()) == Outcome::Done(r@));
            Outcome::Done(r)
        },
        None => Outcome::Unreadable,
    }
}

/// The school's database, from the `dbi` of the document. Plans are read
/// only when `plans` is an object; otherwise there are none.
pub open spec fn dbi_outcome(d: JsonModel) -> Outcome<DbiView> {
    let classes = object_of::<ClassItem>(d.index("classes"@));
    let classrooms = object_of::<ClassroomItem>(d.index("classrooms"@));
    let parents = object_of::<ParentItem>(d.index("parents"@));
    let plans = if d.index("plans"@).as_object() is Some {
        object_of::<PlanItem>(d.index("plans"@))
    } else {
        Outcome::Done(Seq::empty())
    };
    let students = object_of::<StudentItem>(d.index("students"@));
    let subjects = object_of::<SubjectItem>(d.index("subjects"@));
    let teachers = object_of::<TeacherItem>(d.index("teachers"@));
    let homeworks_enabled = d.index("homeworksEnabled"@).as_bool();
    let art_school = d.index("jeZUS"@).as_bool();
    if !(classes is Done) {
        stop(classes)
    } else if !(classrooms is Done) {
        stop(classrooms)
    } else if !(parents is Done) {
        stop(parents)
    } else if !(plans is Done) {
        stop(plans)
    } else if !(students is Done) {
        stop(students)
    } else if !(subjects is Done) {
        stop(subjects)
    } else if !(teachers is Done) {
        stop(teachers)
    } else if homeworks_enabled is None || art_school is None {
        Outcome::Unreadable
    } else {
        Outcome::Done(
            DbiView {
                classes: classes->Done_0,
                classrooms: classrooms->Done_0,
                parents: parents->Done_0,
                plans: plans->Done_0,
                students: students->Done_0,
                subjects: subjects->Done_0,
                teachers: teachers->Done_0,
                homeworks_enabled: homeworks_enabled->0,
                art_school: art_school->0,
            },
        )
    }
}

fn decode_dbi(d: &JsonValue) -> (r: Outcome<DBI>)
    ensures
        r@ == dbi_outcome(d.model()),
{
    let classes = match object_at::<ClassItem>(d, "classes") {
        Outcome::Done(v) => v,
        Outcome::Fails(e) => {
            return Outcome::Fails(e);
        },
        Outcome::Unreadable => {
            return Outcome::Unreadable;
        },
    };
    let classrooms = match object_at::<ClassroomItem>(d, "classrooms") {
        Outcome::Done(v) => v,
        Outcome::Fails(e) => {
            return Outcome::Fails(e);
        },
        Outcome::Unreadable => {
            return Outcome::Unreadable;
        },
    };
    let parents = match object_at::<ParentItem>(d, "parents") {
        Outcome::Done(v) => v,
        Outcome::Fails(e) => {
            return Outcome::Fails(e);
        },
        Outcome::Unreadable => {
            return Outcome::Unreadable;
        },
    };
    let plans = if d.index("plans").is_object() {
        match object_at::<PlanItem>(d, "plans") {
            Outcome::Done(v) => v,
            Outcome::Fails(e) => {
                return Outcome::Fails(e);
            },
            Outcome::Unreadable => {
                return Outcome::Unreadable;
            },
        }
    } else {
        let empty: Vec<Plan> = Vec::new();
        assert(views(empty@) =~= Seq::<PlanView>::empty());
        empty
    };
    let students = match object_at::<StudentItem>(d, "students") {
        Outcome::Done(v) => v,
        Outcome::Fails(e) => {
            return Outcome::Fails(e);
        },
        Outcome::Unreadable => {
            return Outcome::Unreadable;
        },
    };
    let subjects = match object_at::<SubjectItem>(d, "subjects") {
        Outcome::Done(v) => v,
        Outcome::Fails(e) => {
            return Outcome::Fails(e);
        },
        Outcome::Unreadable => {
            return Outcome::Unreadable;
        },
    };
    let teachers = match object_at::<TeacherItem>(d, "teachers") {
        Outcome::Done(v) => v,
        Outcome::Fails(e) => {
            return Outcome::Fails(e);
        },
        Outcome::Unreadable => {
            return Outcome::Unreadable;
        },
    };
    match (d.index("homeworksEnabled").as_bool(), d.index("jeZUS").as_bool()) {
        (Some(homeworks_enabled), Some(art_school)) => {
            let r = DBI {
                classes,
                classrooms,
                parents,
                plans,
                students,
                subjects,
                teachers,
                homeworks_enabled,
                art_school,
            };
            assert(dbi_outcome(d.model()) == Outcome::Done(r@));
            Outcome::Done(r)
        },
        _ => Outcome::Unreadable,
    }
}

/// What reading the whole document gives: with no document, `NotLoggedIn`
/// or (after a login) `NotFound`; otherwise the user, the lesson periods,
/// the school year (cut to 32 bits), the name days, the school's database,
/// the day plans and the timeline, read in that order.
pub open spec fn data_outcome(json: JsonModel, logged_in: bool) -> Outcome<DataView> {
    if json.is_null() {
        Outcome::Fails(
            if logged_in {
                Error::NotFound
            } else {
                Error::NotLoggedIn
            },
        )
    } else {
        let user = user_outcome(json.index("userrow"@));
        let ringing = array_of::<RingingItem>(json.index("zvonenia"@));
        let year = json.index("dp"@).index("year"@).as_i64();
        let nameday_today = text_field(json, "meninyDnes"@);
        let nameday_tomorrow = text_field(json, "meninyZajtra"@);
        let dbi = dbi_outcome(json.index("dbi"@));
        let day_plans = day_plans_outcome(json.index("dp"@).index("dates"@));
        let timeline = array_of::<EventItem>(json.index("items"@));
        if !(user is Done) {
            stop(user)
        } else if !(ringing is Done) {
            stop(ringing)
        } else if year is None || nameday_today is None || nameday_tomorrow is None {
            Outcome::Unreadable
        } else if !(dbi is Done) {
            stop(dbi)
        } else if !(day_plans is Done) {
            stop(day_plans)
        } else if !(timeline is Done) {
            stop(timeline)
        } else {
            Outcome::Done(
                DataView {
                    ringing: ringing->Done_0,
                    user: user->Done_0,
                    dbi: dbi->Done_0,
                    nameday_today: nameday_today->0,
                    nameday_tomorrow: nameday_tomorrow->0,
                    day_plans: day_plans->Done_0,
                    year: (year->0) as i32,
                    timeline: timeline->Done_0,
                },
            )
        }
    }
}

/// Decodes the whole document.
pub fn decode_data(json: &JsonValue, logged_in: bool) -> (r: Outcome<Data>)
    ensures
        r@ == data_outcome(json.model(), logged_in),
{
    if json.is_null() {
        if logged_in {
            return Outcome::Fails(Error::NotFound);
        } else {
            return Outcome::Fails(Error::NotLoggedIn);
        }
    }
    let user = match decode_user(json.index("userrow")) {
        Outcome::Done(v) => v,
        Outcome::Fails(e) => {
            return Outcome::Fails(e);
        },
        Outcome::Unreadable => {
            return Outcome::Unreadable;
        },
    };
    let ringing = match array_at::<RingingItem>(json, "zvonenia") {
        Outcome::Done(v) => v,
        Outcome::Fails(e) => {
            return Outcome::Fails(e);
        },
        Outcome::Unreadable => {
            return Outcome::Unreadable;
        },
    };
    let (year, nameday_today, nameday_tomorrow) = match (
        json.index("dp").index("year").as_i64(),
        text_at(json, "meninyDnes"),
        text_at(json, "meninyZajtra"),
    ) {
        (Some(y), Some(t), Some(m)) => (y as i32, t, m),
        _ => {
            return Outcome::Unreadable;
        },
    };
    let dbi = match decode_dbi(json.index("dbi")) {
        Outcome::Done(v) => v,
        Outcome::Fails(e) => {
            return Outcome::Fails(e);
        },
        Outcome::Unreadable => {
            return Outcome::Unreadable;
        },
    };
    let day_plans = match json.index("dp").index("dates").as_object() {
        Some(dates) => match decode_day_plans(dates) {
            Outcome::Done(v) => v,
            Outcome::Fails(e) => {
                return Outcome::Fails(e);
            },
            Outcome::Unreadable => {
                return Outcome::Unreadable;
            },
        },
        None => {
            return Outcome::Unreadable;
        },
    };
    let timeline = match array_at::<EventItem>(json, "items") {
        Outcome::Done(v) => v,
        Outcome::Fails(e) => {
            return Outcome::Fails(e);
        },
        Outcome::Unreadable => {
            return Outcome::Unreadable;
        },
    };
    let r = Data { ringing, user, dbi, nameday_today, nameday_tomorrow, day_plans, year, timeline };
    assert(data_outcome(json.model(), logged_in) == Outcome::Done(r@));
    Outcome::Done(r)
}

proof fn lemma_lists_parse_errors<D: ItemDecoder>()
    requires
        forall|j: JsonModel| only_parse_errors(#[trigger] D::outcome(j)),
    ensures
        forall|v: JsonModel| only_parse_errors(#[trigger] array_of::<D>(v)),
        forall|v: JsonModel| only_parse_errors(#[trigger] object_of::<D>(v)),
{
    assert forall|j: JsonModel| only_parse_errors(#[trigger] lifted::<D>()(j)) by {
        assert(only_parse_errors(D::outcome(j)));
    }
    assert forall|m: (Seq<char>, JsonModel)| only_parse_errors(#[trigger] lifted_value::<D>()(m)) by {
        assert(only_parse_errors(D::outcome(m.1)));
    }
    assert forall|v: JsonModel| only_parse_errors(#[trigger] array_of::<D>(v)) by {
        if let Some(items) = v.as_array() {
            lemma_collect_parse_errors(items, lifted::<D>());
        }
    }
    assert forall|v: JsonModel| only_parse_errors(#[trigger] object_of::<D>(v)) by {
        if let Some(ms) = v.as_object() {
            lemma_collect_parse_errors(ms, lifted_value::<D>());
        }
    }
}

proof fn lemma_plan_parse_errors(j: JsonModel)
    ensures
        only_parse_errors(PlanItem::outcome(j)),
{
    assert forall|k: JsonModel| only_parse_errors(#[trigger] NumberItem::outcome(k)) by {}
    assert forall|k: JsonModel| only_parse_errors(#[trigger] IdItem::outcome(k)) by {}
    lemma_lists_parse_errors::<NumberItem>();
    lemma_lists_parse_errors::<IdItem>();
    assert(only_parse_errors(array_of::<NumberItem>(j.index("triedy"@))));
    let v = j.index("students"@);
    if let Some(items) = v.as_array() {
        assert forall|k: JsonModel| only_parse_errors(#[trigger] lifted::<NumberItem>()(k)) by {
            assert(only_parse_errors(NumberItem::outcome(k)));
        }
        lemma_collect_parse_errors(items.take(null_position(items, 0)), lifted::<NumberItem>());
    }
}

proof fn lemma_dbi_parse_errors(d: JsonModel)
    ensures
        only_parse_errors(dbi_outcome(d)),
{
    assert forall|k: JsonModel| only_parse_errors(#[trigger] ClassItem::outcome(k)) by {}
    assert forall|k: JsonModel| only_parse_errors(#[trigger] ClassroomItem::outcome(k)) by {}
    assert forall|k: JsonModel| only_parse_errors(#[trigger] ParentItem::outcome(k)) by {}
    assert forall|k: JsonModel| only_parse_errors(#[trigger] PlanItem::outcome(k)) by {
        lemma_plan_parse_errors(k);
    }
    assert forall|k: JsonModel| only_parse_errors(#[trigger] StudentItem::outcome(k)) by {}
    assert forall|k: JsonModel| only_parse_errors(#[trigger] SubjectItem::outcome(k)) by {}
    assert forall|k: JsonModel| only_parse_errors(#[trigger] TeacherItem::outcome(k)) by {}
    lemma_lists_parse_errors::<ClassItem>();
    lemma_lists_parse_errors::<ClassroomItem>();
    lemma_lists_parse_errors::<ParentItem>();
    lemma_lists_parse_errors::<PlanItem>();
    lemma_lists_parse_errors::<StudentItem>();
    lemma_lists_parse_errors::<SubjectItem>();
    lemma_lists_parse_errors::<TeacherItem>();
    assert(only_parse_errors(object_of::<ClassItem>(d.index("classes"@))));
    assert(only_parse_errors(object_of::<ClassroomItem>(d.index("classrooms"@))));
    assert(only_parse_errors(object_of::<ParentItem>(d.index("parents"@))));
    assert(only_parse_errors(object_of::<PlanItem>(d.index("plans"@))));
    assert(only_parse_errors(object_of::<StudentItem>(d.index("students"@))));
    assert(only_parse_errors(object_of::<SubjectItem>(d.index("subjects"@))));
    assert(only_parse_errors(object_of::<TeacherItem>(d.index("teachers"@))));
}

proof fn lemma_day_plans_parse_errors(v: JsonModel)
    ensures
        only_parse_errors(day_plans_outcome(v)),
{
    assert forall|k: JsonModel| only_parse_errors(#[trigger] lesson_reader()(k)) by {}
    assert forall|m: (Seq<char>, JsonModel)| only_parse_errors(#[trigger] day_plan_reader()(m)) by {
        if let Some(items) = m.1.index("plan"@).as_array() {
            lemma_collect_parse_errors(items, lesson_reader());
        }
    }
    if let Some(ms) = v.as_object() {
        lemma_collect_parse_errors(ms, day_plan_reader());
    }
}

/// Without a document, reading the data says so: `NotFound` after a login,
/// `NotLoggedIn` before one. With a document, the only error is
/// `ParseError`: the data never claims to be missing.
pub proof fn lemma_data_errors(json: JsonModel, logged_in: bool)
    ensures
        json.is_null() ==> data_outcome(json, logged_in) == Outcome::<DataView>::Fails(
            if logged_in {
                Error::NotFound
            } else {
                Error::NotLoggedIn
            },
        ),
        !json.is_null() ==> only_parse_errors(data_outcome(json, logged_in)),
{
    if !json.is_null() {
        assert forall|k: JsonModel| only_parse_errors(#[trigger] RingingItem::outcome(k)) by {}
        assert forall|k: JsonModel| only_parse_errors(#[trigger] EventItem::outcome(k)) by {}
        lemma_lists_parse_errors::<RingingItem>();
        lemma_lists_parse_errors::<EventItem>();
        lemma_dbi_parse_errors(json.index("dbi"@));
        lemma_day_plans_parse_errors(json.index("dp"@).index("dates"@));
        assert(only_parse_errors(array_of::<RingingItem>(json.index("zvonenia"@))));
        assert(only_parse_errors(array_of::<EventItem>(json.index("items"@))));
    }
}

// ---------------------------------------------------------------------
// What the decoding promises of single fields
// ---------------------------------------------------------------------

/// The plan of a lesson is the first of its group's subject ids: when
/// `groupsubjectids` is a list whose first element is the decimal text of
/// `n`, a lesson read from the entry has plan `n`, whatever follows.
pub proof fn lemma_lesson_plan_is_first_group(j: JsonModel, items: Seq<JsonModel>, n: i32)
    requires
        j.index("groupsubjectids"@) == JsonModel::Array(items),
        items.len() > 0,
        items[0] == JsonModel::String(decimal(n as int)),
    ensures
        lesson_outcome(j) matches Outcome::Done(Some(l)) ==> l.plan_id == Some(n),
{
    lemma_parse_decimal(n);
}

/// A lesson whose `groupsubjectids` is empty or starts with `null` has no plan.
pub proof fn lemma_lesson_without_plan(j: JsonModel, items: Seq<JsonModel>)
    requires
        j.index("groupsubjectids"@) == JsonModel::Array(items),
        items.len() == 0 || items[0] == JsonModel::Null,
    ensures
        lesson_outcome(j) matches Outcome::Done(Some(l)) ==> l.plan_id is None,
{
}

/// An entry of a day's plan that is no break, has no subject, names its
/// plan by the decimal text of `n` first in `groupsubjectids`, and whose
/// period is the decimal text of `p`, is read as that lesson.
pub proof fn lemma_lesson_read(j: JsonModel, kind: Seq<char>, items: Seq<JsonModel>, n: i32, p: i32)
    requires
        j.index("periodorbreak"@) == JsonModel::String(kind),
        kind != "ZZZ"@,
        j.index("subjectid"@) == JsonModel::Null,
        j.index("groupsubjectids"@) == JsonModel::Array(items),
        items.len() > 0,
        items[0] == JsonModel::String(decimal(n as int)),
        j.index("period"@) == JsonModel::String(decimal(p as int)),
    ensures
        lesson_outcome(j) == Outcome::<Option<Lesson>>::Done(
            Some(Lesson { subject_id: None, plan_id: Some(n), period: p }),
        ),
{
    lemma_parse_decimal(n);
    lemma_parse_decimal(p);
}

/// The kind of account of a user row: the decimal text of `n` as
/// `UcitelID` makes a teacher `n`; otherwise as `StudentID` a student `n`;
/// otherwise as `RodicID` a parent `n`; a row with none of the three is
/// refused.
pub proof fn lemma_account_kind_by_id(u: JsonModel, n: i32)
    ensures
        u.index("UcitelID"@) == JsonModel::String(decimal(n as int)) ==> account_kind(u)
            == Outcome::<AccountView>::Done(AccountView::Teacher(n)),
        u.index("UcitelID"@).as_str() is None && u.index("StudentID"@) == JsonModel::String(
            decimal(n as int),
        ) ==> account_kind(u) == Outcome::<AccountView>::Done(AccountView::Student(n)),
        u.index("UcitelID"@).as_str() is None && u.index("StudentID"@).as_str() is None && u.index(
            "RodicID"@,
        ) == JsonModel::String(decimal(n as int)) ==> account_kind(u) == Outcome::<
            AccountView,
        >::Done(AccountView::Parent(n)),
        u.index("UcitelID"@).as_str() is None && u.index("StudentID"@).as_str() is None && u.index(
            "RodicID"@,
        ).as_str() is None ==> account_kind(u) == Outcome::<AccountView>::Fails(Error::ParseError),
{
    lemma_parse_decimal(n);
}

/// The user read from a row whose only id is the parent id `n` (as decimal
/// text) is the parent `n`.
pub proof fn lemma_parent_user(u: JsonModel, n: i32)
    requires
        u.index("UcitelID"@).as_str() is None,
        u.index("StudentID"@).as_str() is None,
        u.index("RodicID"@) == JsonModel::String(decimal(n as int)),
    ensures
        user_outcome(u) matches Outcome::Done(user) ==> user.user == AccountView::Parent(n),
{
    lemma_account_kind_by_id(u, n);
}

/// The user's gender: `p_pohlavie` `1` is male and `2` female.
pub proof fn lemma_user_gender(u: JsonModel)
    ensures
        user_outcome(u) matches Outcome::Done(user) ==> {
            &&& (u.index("p_pohlavie"@) == JsonModel::String("1"@) <==> user.gender == Gender::Male)
            &&& (u.index("p_pohlavie"@) == JsonModel::String("2"@) <==> user.gender
                == Gender::Female)
        },
{
    reveal_strlit("1");
    reveal_strlit("2");
    assert("1"@[0] != "2"@[0]);
    assert(JsonModel::String("1"@) != JsonModel::String("2"@));
}

/// The user of decoded data is read from `userrow`: a row whose only id
/// is the parent id `n` (as decimal text) makes the user the parent `n`.
pub proof fn lemma_data_parent_user(json: JsonModel, logged_in: bool, d: DataView, n: i32)
    requires
        data_outcome(json, logged_in) == Outcome::<DataView>::Done(d),
        json.index("userrow"@).index("UcitelID"@).as_str() is None,
        json.index("userrow"@).index("StudentID"@).as_str() is None,
        json.index("userrow"@).index("RodicID"@) == JsonModel::String(decimal(n as int)),
    ensures
        d.user.user == AccountView::Parent(n),
{
    lemma_parent_user(json.index("userrow"@), n);
}

/// The students of decoded data are the members of `dbi.students`, one
/// for one and in order; the `i`-th is male exactly when that member's
/// `gender` is `M`, and female exactly when it is `F`.
pub proof fn lemma_data_student_gender(json: JsonModel, logged_in: bool, d: DataView, i: int)
    requires
        data_outcome(json, logged_in) == Outcome::<DataView>::Done(d),
        0 <= i < d.dbi.students.len(),
    ensures
        json.index("dbi"@).index("students"@).as_object() is Some,
        ({
            let ms = json.index("dbi"@).index("students"@).as_object().unwrap();
            &&& ms.len() == d.dbi.students.len()
            &&& (ms[i].1.index("gender"@) == JsonModel::String("M"@) <==> d.dbi.students[i].gender
                == Gender::Male)
            &&& (ms[i].1.index("gender"@) == JsonModel::String("F"@) <==> d.dbi.students[i].gender
                == Gender::Female)
        }),
{
    let db = json.index("dbi"@);
    let v = db.index("students"@);
    assert(dbi_outcome(db) == Outcome::<DbiView>::Done(d.dbi));
    assert(object_of::<StudentItem>(v) == Outcome::Done(d.dbi.students));
    let ms = v.as_object().unwrap();
    let g = |m: (Seq<char>, JsonModel)| StudentItem::outcome(m.1);
    lemma_collect_kept(ms, lifted_value::<StudentItem>(), g);
    assert(g(ms[i]) == Outcome::Done(d.dbi.students[i]));
    crate::decode::items::lemma_student_gender(ms[i].1);
}

/// A lesson's subject comes from `subjectid` (none when it is empty or no
/// text) and its period from `period`.
pub proof fn lemma_lesson_fields(j: JsonModel)
    ensures
        lesson_outcome(j) matches Outcome::Done(Some(l)) ==> {
            &&& member_id(j, "period"@, l.period)
            &&& (l.subject_id matches Some(sid) ==> member_id(j, "subjectid"@, sid))
            &&& (j.index("subjectid"@) == JsonModel::String(Seq::empty()) ==> l.subject_id is None)
            &&& (j.index("subjectid"@).as_str() is None ==> l.subject_id is None)
        },
        j.index("periodorbreak"@) == JsonModel::String("ZZZ"@) ==> lesson_outcome(j)
            == Outcome::<Option<Lesson>>::Done(None),
{
}

/// The plan of a date carries that date.
pub proof fn lemma_day_plan_date(date: Seq<char>, j: JsonModel)
    ensures
        day_plan_outcome(date, j) matches Outcome::Done(p) ==> p.date == date,
{
}

/// The user is read from `p_meno`, `p_priezvisko`, `p_mail` and
/// `p_www_login`, the class from `TriedaID`.
pub proof fn lemma_user_fields(u: JsonModel)
    ensures
        user_outcome(u) matches Outcome::Done(user) ==> {
            &&& member_text(u, "p_meno"@, user.first_name)
            &&& member_text(u, "p_priezvisko"@, user.last_name)
            &&& member_text(u, "p_mail"@, user.mail)
            &&& member_text(u, "p_www_login"@, user.login)
            &&& (user.class_id matches Some(c) ==> member_id(u, "TriedaID"@, c))
            &&& (u.index("TriedaID"@).as_str() is None ==> user.class_id is None)
        },
{
}

/// The name days come from `meninyDnes` and `meninyZajtra`, the year from
/// `dp.year`, and the school's two flags from `homeworksEnabled` and `jeZUS`.
pub proof fn lemma_data_fields(json: JsonModel, logged_in: bool)
    ensures
        data_outcome(json, logged_in) matches Outcome::Done(d) ==> {
            &&& member_text(json, "meninyDnes"@, d.nameday_today)
            &&& member_text(json, "meninyZajtra"@, d.nameday_tomorrow)
            &&& (json.index("dp"@).index("year"@).as_i64() matches Some(y) && d.year == y as i32)
            &&& json.index("dbi"@).index("homeworksEnabled"@) == JsonModel::Bool(d.dbi.homeworks_enabled)
            &&& json.index("dbi"@).index("jeZUS"@) == JsonModel::Bool(d.dbi.art_school)
        },
{
    if let Outcome::Done(d) = data_outcome(json, logged_in) {
        assert(dbi_outcome(json.index("dbi"@)) == Outcome::<DbiView>::Done(d.dbi));
    }
}

} // verus!
