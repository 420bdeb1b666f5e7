//! Lists of items, and the records that the school's database lists.
use vstd::prelude::*;

use crate::decode::fields::{
    account_at, account_field, gender_at, gender_field, id_at, id_field, optional_id_at,
    optional_id_field, text_at, text_field,
};
use crate::decode::outcome::{
    collect_with, keep, lemma_collect_item, lemma_collect_step, list_view, stop, Outcome,
};
use crate::edupage_data::{
    views, Class, ClassView, Classroom, ClassroomView, Parent, ParentView, Plan, PlanView, Ringing,
    RingingView, Student, StudentView, Subject, SubjectView, Teacher, TeacherView, TimelineEvent,
    TimelineEventView,
};
use crate::edupage_types::{account_from_chars, Error, Gender};
use crate::json::{member_models, models, JsonMember, JsonModel, JsonValue};
use crate::text::{parse_i32, parse_i32_spec};

verus! {

// ---------------------------------------------------------------------
// Items of lists
// ---------------------------------------------------------------------

/// A kind of item that lists and objects of the data hold.
pub trait ItemDecoder {
    type Item: View;

    /// What reading one item gives.
    spec fn outcome(j: JsonModel) -> Outcome<<Self::Item as View>::V>;

    fn decode(j: &JsonValue) -> (r: Outcome<Self::Item>)
        ensures
            r@ == Self::outcome(j.model()),
    ;
}

/// Reading an item of a list, every item kept.
pub open spec fn lifted<D: ItemDecoder>() -> spec_fn(JsonModel) -> Outcome<
    Option<<D::Item as View>::V>,
> {
    |j: JsonModel| keep(D::outcome(j))
}

/// Reading the value of an object's member, every value kept.
pub open spec fn lifted_value<D: ItemDecoder>() -> spec_fn((Seq<char>, JsonModel)) -> Outcome<
    Option<<D::Item as View>::V>,
> {
    |m: (Seq<char>, JsonModel)| keep(D::outcome(m.1))
}

/// The items of an array, each read as `D`; `Unreadable` for a non-array.
pub open spec fn array_of<D: ItemDecoder>(v: JsonModel) -> Outcome<Seq<<D::Item as View>::V>> {
    match v.as_array() {
        Some(items) => collect_with(items, lifted::<D>()),
        None => Outcome::Unreadable,
    }
}

/// The member values of an object, in order, each read as `D`;
/// `Unreadable` for a non-object.
pub open spec fn object_of<D: ItemDecoder>(v: JsonModel) -> Outcome<Seq<<D::Item as View>::V>> {
    match v.as_object() {
        Some(ms) => collect_with(ms, lifted_value::<D>()),
        None => Outcome::Unreadable,
    }
}

/// Reads the first `n` items of a list.
pub fn decode_prefix<D: ItemDecoder>(items: &Vec<JsonValue>, n: usize) -> (r: Outcome<Vec<D::Item>>)
    requires
        n <= items@.len(),
    ensures
        list_view(r) == collect_with(models(items@).take(n as int), lifted::<D>()),
{
    let ghost all = models(items@).take(n as int);
    let ghost f = lifted::<D>();
    let mut out: Vec<D::Item> = Vec::new();
    let mut i: usize = 0;
    assert(all.take(0) =~= Seq::<JsonModel>::empty());
    assert(views(out@) =~= Seq::<<D::Item as View>::V>::empty());
    while i < n
        invariant
            n <= items@.len(),
            i <= n,
            all == models(items@).take(n as int),
            f == lifted::<D>(),
            collect_with(all.take(i as int), f) == Outcome::Done(views(out@)),
        decreases n - i,
    {
        proof {
            lemma_collect_item(all, f, i as int);
            lemma_collect_step(all, f, i as int);
            assert(all[i as int] == items@[i as int].model());
        }
        match D::decode(&items[i]) {
            Outcome::Done(x) => {
                let ghost before = out@;
                out.push(x);
                assert(views(out@) =~= views(before).push(x@));
            },
            Outcome::Fails(e) => {
                return Outcome::Fails(e);
            },
            Outcome::Unreadable => {
                return Outcome::Unreadable;
            },
        }
        i = i + 1;
    }
    assert(all.take(n as int) =~= all);
    Outcome::Done(out)
}

/// Reads the values of an object's members, in order.
pub fn decode_values<D: ItemDecoder>(ms: &Vec<JsonMember>) -> (r: Outcome<Vec<D::Item>>)
    ensures
        list_view(r) == collect_with(member_models(ms@), lifted_value::<D>()),
{
    let ghost all = member_models(ms@);
    let ghost f = lifted_value::<D>();
    let mut out: Vec<D::Item> = Vec::new();
    let mut i: usize = 0;
    assert(all.take(0) =~= Seq::<(Seq<char>, JsonModel)>::empty());
    assert(views(out@) =~= Seq::<<D::Item as View>::V>::empty());
    while i < ms.len()
        invariant
            i <= ms@.len(),
            all == member_models(ms@),
            f == lifted_value::<D>(),
            collect_with(all.take(i as int), f) == Outcome::Done(views(out@)),
        decreases ms@.len() - i,
    {
        proof {
            lemma_collect_item(all, f, i as int);
            lemma_collect_step(all, f, i as int);
            assert(all[i as int].1 == ms@[i as int].value.model());
        }
        match D::decode(&ms[i].value) {
            Outcome::Done(x) => {
                let ghost before = out@;
                out.push(x);
                assert(views(out@) =~= views(before).push(x@));
            },
            Outcome::Fails(e) => {
                return Outcome::Fails(e);
            },
            Outcome::Unreadable => {
                return Outcome::Unreadable;
            },
        }
        i = i + 1;
    }
    assert(all.take(ms@.len() as int) =~= all);
    Outcome::Done(out)
}

/// Reads member `key` as an array of `D`.
pub(crate) fn array_at<D: ItemDecoder>(j: &JsonValue, key: &str) -> (r: Outcome<Vec<D::Item>>)
    ensures
        list_view(r) == array_of::<D>(j.model().index(key@)),
{
    match j.index(key).as_array() {
        Some(items) => {
            assert(models(items@).take(items@.len() as int) =~= models(items@));
            decode_prefix::<D>(items, items.len())
        },
        None => Outcome::Unreadable,
    }
}

/// Reads member `key` as an object whose values are `D`.
pub(crate) fn object_at<D: ItemDecoder>(j: &JsonValue, key: &str) -> (r: Outcome<Vec<D::Item>>)
    ensures
        list_view(r) == object_of::<D>(j.model().index(key@)),
{
    match j.index(key).as_object() {
        Some(ms) => decode_values::<D>(ms),
        None => Outcome::Unreadable,
    }
}

// ---------------------------------------------------------------------
// Records
// ---------------------------------------------------------------------

/// A lesson period of the day.
pub struct RingingItem;

impl ItemDecoder for RingingItem {
    type Item = Ringing;

    open spec fn outcome(j: JsonModel) -> Outcome<RingingView> {
        match (id_field(j, "id"@), text_field(j, "starttime"@), text_field(j, "endtime"@)) {
            (Some(id), Some(start), Some(end)) => Outcome::Done(RingingView { id, start, end }),
            _ => Outcome::Unreadable,
        }
    }

    fn decode(j: &JsonValue) -> (r: Outcome<Ringing>) {
        match (id_at(j, "id"), text_at(j, "starttime"), text_at(j, "endtime")) {
            (Some(id), Some(start), Some(end)) => {
                let r = Ringing { id, start, end };
                assert(r@ == RingingView { id, start: start@, end: end@ });
                Outcome::Done(r)
            },
            _ => Outcome::Unreadable,
        }
    }
}

/// A class of the school.
pub struct ClassItem;

impl ItemDecoder for ClassItem {
    type Item = Class;

    open spec fn outcome(j: JsonModel) -> Outcome<ClassView> {
        match (
            optional_id_field(j, "teacher2id"@),
            optional_id_field(j, "classroomid"@),
            id_field(j, "grade"@),
            id_field(j, "id"@),
            text_field(j, "name"@),
            text_field(j, "short"@),
            id_field(j, "teacherid"@),
        ) {
            (
                Some(teacher2_id),
                Some(classroom_id),
                Some(grade),
                Some(id),
                Some(name),
                Some(name_short),
                Some(teacher),
            ) => Outcome::Done(
                ClassView {
                    classroom_id,
                    grade,
                    id,
                    name,
                    name_short,
                    teacher_id: Some(teacher),
                    teacher2_id,
                },
            ),
            _ => Outcome::Unreadable,
        }
    }

    fn decode(j: &JsonValue) -> (r: Outcome<Class>) {
        match (
            optional_id_at(j, "teacher2id"),
            optional_id_at(j, "classroomid"),
            id_at(j, "grade"),
            id_at(j, "id"),
            text_at(j, "name"),
            text_at(j, "short"),
            id_at(j, "teacherid"),
        ) {
            (
                Some(teacher2_id),
                Some(classroom_id),
                Some(grade),
                Some(id),
                Some(name),
                Some(name_short),
                Some(teacher),
            ) => {
                let r = Class {
                    classroom_id,
                    grade,
                    id,
                    name,
                    name_short,
                    teacher_id: Some(teacher),
                    teacher2_id,
                };
                assert(Self::outcome(j.model()) == Outcome::Done(r@));
                Outcome::Done(r)
            },
            _ => Outcome::Unreadable,
        }
    }
}

/// A classroom.
pub struct ClassroomItem;

impl ItemDecoder for ClassroomItem {
    type Item = Classroom;

    open spec fn outcome(j: JsonModel) -> Outcome<ClassroomView> {
        match (id_field(j, "id"@), text_field(j, "name"@), text_field(j, "short"@)) {
            (Some(id), Some(name), Some(name_short)) => Outcome::Done(
                ClassroomView { id, name, name_short },
            ),
            _ => Outcome::Unreadable,
        }
    }

    fn decode(j: &JsonValue) -> (r: Outcome<Classroom>) {
        match (id_at(j, "id"), text_at(j, "name"), text_at(j, "short")) {
            (Some(id), Some(name), Some(name_short)) => {
                let r = Classroom { id, name, name_short };
                assert(Self::outcome(j.model()) == Outcome::Done(r@));
                Outcome::Done(r)
            },
            _ => Outcome::Unreadable,
        }
    }
}

/// A subject.
pub struct SubjectItem;

impl ItemDecoder for SubjectItem {
    type Item = Subject;

    open spec fn outcome(j: JsonModel) -> Outcome<SubjectView> {
        match (id_field(j, "id"@), text_field(j, "name"@), text_field(j, "short"@)) {
            (Some(id), Some(name), Some(name_short)) => Outcome::Done(
                SubjectView { id, name, name_short },
            ),
            _ => Outcome::Unreadable,
        }
    }

    fn decode(j: &JsonValue) -> (r: Outcome<Subject>) {
        match (id_at(j, "id"), text_at(j, "name"), text_at(j, "short")) {
            (Some(id), Some(name), Some(name_short)) => {
                let r = Subject { id, name, name_short };
                assert(Self::outcome(j.model()) == Outcome::Done(r@));
                Outcome::Done(r)
            },
            _ => Outcome::Unreadable,
        }
    }
}

/// A parent; a gender other than `M` or `F` is refused.
pub struct ParentItem;

impl ItemDecoder for ParentItem {
    type Item = Parent;

    open spec fn outcome(j: JsonModel) -> Outcome<ParentView> {
        match (text_field(j, "firstname"@), text_field(j, "lastname"@)) {
            (Some(first_name), Some(last_name)) => match gender_field(j, "gender"@, "M"@, "F"@) {
                Some(Some(gender)) => match id_field(j, "id"@) {
                    Some(id) => Outcome::Done(ParentView { first_name, last_name, gender, id }),
                    None => Outcome::Unreadable,
                },
                Some(None) => Outcome::Fails(Error::ParseError),
                None => Outcome::Unreadable,
            },
            _ => Outcome::Unreadable,
        }
    }

    fn decode(j: &JsonValue) -> (r: Outcome<Parent>) {
        let (first_name, last_name) = match (text_at(j, "firstname"), text_at(j, "lastname")) {
            (Some(f), Some(l)) => (f, l),
            _ => {
                return Outcome::Unreadable;
            },
        };
        let gender = match gender_at(j, "gender", "M", "F") {
            Some(Some(g)) => g,
            Some(None) => {
                return Outcome::Fails(Error::ParseError);
            },
            None => {
                return Outcome::Unreadable;
            },
        };
        match id_at(j, "id") {
            Some(id) => {
                let r = Parent { first_name, last_name, gender, id };
                assert(Self::outcome(j.model()) == Outcome::Done(r@));
                Outcome::Done(r)
            },
            None => Outcome::Unreadable,
        }
    }
}

/// A member of a plan's list of classes or students: an id as text or as
/// a number (cut to 32 bits); anything else is refused.
pub struct NumberItem;

impl ItemDecoder for NumberItem {
    type Item = i32;

    open spec fn outcome(j: JsonModel) -> Outcome<i32> {
        match j.as_str() {
            Some(s) => match parse_i32_spec(s) {
                Some(n) => Outcome::Done(n),
                None => Outcome::Unreadable,
            },
            None => match j.as_i64() {
                Some(n) => Outcome::Done(n as i32),
                None => Outcome::Fails(Error::ParseError),
            },
        }
    }

    fn decode(j: &JsonValue) -> (r: Outcome<i32>) {
        let r = if j.is_string() {
            match parse_i32(j.as_str().unwrap()) {
                Some(n) => Outcome::Done(n),
                None => Outcome::Unreadable,
            }
        } else if j.is_i64() {
            let n = j.as_i64().unwrap();
            Outcome::Done(n as i32)
        } else {
            Outcome::Fails(Error::ParseError)
        };
        assert(r@ == Self::outcome(j.model()));
        r
    }
}

/// An id given as text.
pub struct IdItem;

impl ItemDecoder for IdItem {
    type Item = i32;

    open spec fn outcome(j: JsonModel) -> Outcome<i32> {
        match j.as_str() {
            Some(s) => match parse_i32_spec(s) {
                Some(n) => Outcome::Done(n),
                None => Outcome::Unreadable,
            },
            None => Outcome::Unreadable,
        }
    }

    fn decode(j: &JsonValue) -> (r: Outcome<i32>) {
        match j.as_str() {
            Some(s) => match parse_i32(s) {
                Some(n) => Outcome::Done(n),
                None => Outcome::Unreadable,
            },
            None => Outcome::Unreadable,
        }
    }
}

/// The position of the first `null` in a list, or its length.
pub open spec fn null_position(items: Seq<JsonModel>, i: int) -> int
    decreases items.len() - i,
{
    if i < 0 || i >= items.len() {
        items.len() as int
    } else if items[i].is_null() {
        i
    } else {
        null_position(items, i + 1)
    }
}

proof fn lemma_null_position(items: Seq<JsonModel>, i: int)
    requires
        0 <= i <= items.len(),
    ensures
        i <= null_position(items, i) <= items.len(),
    decreases items.len() - i,
{
    if i < items.len() && !items[i].is_null() {
        lemma_null_position(items, i + 1);
    }
}

/// The students of a plan: the list up to its first `null`.
pub open spec fn plan_students(v: JsonModel) -> Outcome<Seq<i32>> {
    match v.as_array() {
        Some(items) => collect_with(items.take(null_position(items, 0)), lifted::<NumberItem>()),
        None => Outcome::Unreadable,
    }
}

/// A subject as taught to some classes or students by some teachers.
pub struct PlanItem;

impl ItemDecoder for PlanItem {
    type Item = Plan;

    open spec fn outcome(j: JsonModel) -> Outcome<PlanView> {
        match array_of::<NumberItem>(j.index("triedy"@)) {
            Outcome::Done(class_ids) => match plan_students(j.index("students"@)) {
                Outcome::Done(students) => match (
                    id_field(j, "planid"@),
                    text_field(j, "predmetMeno"@),
                    id_field(j, "predmetid"@),
                    array_of::<IdItem>(j.index("ucitelids"@)),
                ) {
                    (Some(plan_id), Some(name), Some(subject_id), Outcome::Done(teachers)) => Outcome::Done(
                        PlanView { plan_id, name, subject_id, teachers, class_ids, students },
                    ),
                    _ => Outcome::Unreadable,
                },
                other => stop(other),
            },
            other => stop(other),
        }
    }

    fn decode(j: &JsonValue) -> (r: Outcome<Plan>) {
        let class_ids = match array_at::<NumberItem>(j, "triedy") {
            Outcome::Done(v) => v,
            Outcome::Fails(e) => {
                return Outcome::Fails(e);
            },
            Outcome::Unreadable => {
                return Outcome::Unreadable;
            },
        };
        assert(views(class_ids@) =~= class_ids@);
        let list = match j.index("students").as_array() {
            Some(list) => list,
            None => {
                return Outcome::Unreadable;
            },
        };
        let mut k: usize = 0;
        proof {
            lemma_null_position(models(list@), 0);
        }
        while k < list.len() && !list[k].is_null()
            invariant
                k <= list@.len(),
                null_position(models(list@), 0) == null_position(models(list@), k as int),
            decreases list@.len() - k,
        {
            k = k + 1;
        }
        let students = match decode_prefix::<NumberItem>(list, k) {
            Outcome::Done(v) => v,
            Outcome::Fails(e) => {
                return Outcome::Fails(e);
            },
            Outcome::Unreadable => {
                return Outcome::Unreadable;
            },
        };
        assert(views(students@) =~= students@);
        match (id_at(j, "planid"), text_at(j, "predmetMeno"), id_at(j, "predmetid")) {
            (Some(plan_id), Some(name), Some(subject_id)) => match array_at::<IdItem>(j, "ucitelids") {
                Outcome::Done(teachers) => {
                    assert(views(teachers@) =~= teachers@);
                    let r = Plan { plan_id, name, subject_id, teachers, class_ids, students };
                    assert(Self::outcome(j.model()) == Outcome::Done(r@));
                    Outcome::Done(r)
                },
                _ => Outcome::Unreadable,
            },
            _ => Outcome::Unreadable,
        }
    }
}

/// The ids of a student's parents: up to three, each optional.
pub open spec fn parents_field(j: JsonModel) -> Option<Seq<i32>> {
    match (
        optional_id_field(j, "parent1id"@),
        optional_id_field(j, "parent2id"@),
        optional_id_field(j, "parent3id"@),
    ) {
        (Some(a), Some(b), Some(c)) => Some(present(a) + present(b) + present(c)),
        _ => None,
    }
}

/// The id, if there is one, as a list of zero or one ids.
pub open spec fn present(o: Option<i32>) -> Seq<i32> {
    match o {
        Some(x) => seq![x],
        None => Seq::empty(),
    }
}

/// A student; a gender other than `M` or `F` is refused.
pub struct StudentItem;

impl ItemDecoder for StudentItem {
    type Item = Student;

    open spec fn outcome(j: JsonModel) -> Outcome<StudentView> {
        match parents_field(j) {
            Some(parents) => match (
                id_field(j, "classid"@),
                text_field(j, "firstname"@),
                text_field(j, "lastname"@),
                id_field(j, "id"@),
            ) {
                (Some(class_id), Some(first_name), Some(last_name), Some(id)) => match gender_field(
                    j,
                    "gender"@,
                    "M"@,
                    "F"@,
                ) {
                    Some(Some(gender)) => match (
                        text_field(j, "datefrom"@),
                        id_field(j, "numberinclass"@),
                    ) {
                        (Some(since), Some(class_position)) => Outcome::Done(
                            StudentView {
                                class_id,
                                first_name,
                                last_name,
                                id,
                                parents,
                                gender,
                                since,
                                class_position,
                            },
                        ),
                        _ => Outcome::Unreadable,
                    },
                    Some(None) => Outcome::Fails(Error::ParseError),
                    None => Outcome::Unreadable,
                },
                _ => Outcome::Unreadable,
            },
            None => Outcome::Unreadable,
        }
    }

    fn decode(j: &JsonValue) -> (r: Outcome<Student>) {
        let (a, b, c) = match (
            optional_id_at(j, "parent1id"),
            optional_id_at(j, "parent2id"),
            optional_id_at(j, "parent3id"),
        ) {
            (Some(a), Some(b), Some(c)) => (a, b, c),
            _ => {
                return Outcome::Unreadable;
            },
        };
        let mut parents: Vec<i32> = Vec::new();
        if let Some(x) = a {
            parents.push(x);
        }
        if let Some(x) = b {
            parents.push(x);
        }
        if let Some(x) = c {
            parents.push(x);
        }
        assert(parents@ =~= present(a) + present(b) + present(c));
        let (class_id, first_name, last_name, id) = match (
            id_at(j, "classid"),
            text_at(j, "firstname"),
            text_at(j, "lastname"),
            id_at(j, "id"),
        ) {
            (Some(class_id), Some(first_name), Some(last_name), Some(id)) => (
                class_id,
                first_name,
                last_name,
                id,
            ),
            _ => {
                return Outcome::Unreadable;
            },
        };
        let gender = match gender_at(j, "gender", "M", "F") {
            Some(Some(g)) => g,
            Some(None) => {
                return Outcome::Fails(Error::ParseError);
            },
            None => {
                return Outcome::Unreadable;
            },
        };
        match (text_at(j, "datefrom"), id_at(j, "numberinclass")) {
            (Some(since), Some(class_position)) => {
                let r = Student {
                    class_id,
                    first_name,
                    last_name,
                    id,
                    parents,
                    gender,
                    since,
                    class_position,
                };
                assert(Self::outcome(j.model()) == Outcome::Done(r@));
                Outcome::Done(r)
            },
            _ => Outcome::Unreadable,
        }
    }
}

/// A teacher; a gender other than `M` or `F` is refused.
pub struct TeacherItem;

impl ItemDecoder for TeacherItem {
    type Item = Teacher;

    open spec fn outcome(j: JsonModel) -> Outcome<TeacherView> {
        match optional_id_field(j, "classroomid"@) {
            Some(classroom_id) => match (text_field(j, "firstname"@), text_field(j, "lastname"@)) {
                (Some(first_name), Some(last_name)) => match gender_field(j, "gender"@, "M"@, "F"@) {
                    Some(Some(gender)) => match (
                        id_field(j, "id"@),
                        text_field(j, "short"@),
                        text_field(j, "datefrom"@),
                    ) {
                        (Some(id), Some(short_name), Some(since)) => Outcome::Done(
                            TeacherView {
                                first_name,
                                last_name,
                                gender,
                                id,
                                short_name,
                                since,
                                classroom_id,
                            },
                        ),
                        _ => Outcome::Unreadable,
                    },
                    Some(None) => Outcome::Fails(Error::ParseError),
                    None => Outcome::Unreadable,
                },
                _ => Outcome::Unreadable,
            },
            None => Outcome::Unreadable,
        }
    }

    fn decode(j: &JsonValue) -> (r: Outcome<Teacher>) {
        let classroom_id = match optional_id_at(j, "classroomid") {
            Some(room) => room,
            None => {
                return Outcome::Unreadable;
            },
        };
        let (first_name, last_name) = match (text_at(j, "firstname"), text_at(j, "lastname")) {
            (Some(f), Some(l)) => (f, l),
            _ => {
                return Outcome::Unreadable;
            },
        };
        let gender = match gender_at(j, "gender", "M", "F") {
            Some(Some(g)) => g,
            Some(None) => {
                return Outcome::Fails(Error::ParseError);
            },
            None => {
                return Outcome::Unreadable;
            },
        };
        match (id_at(j, "id"), text_at(j, "short"), text_at(j, "datefrom")) {
            (Some(id), Some(short_name), Some(since)) => {
                let r = Teacher { first_name, last_name, gender, id, short_name, since, classroom_id };
                assert(Self::outcome(j.model()) == Outcome::Done(r@));
                Outcome::Done(r)
            },
            _ => Outcome::Unreadable,
        }
    }
}

/// When an event happened: none when the field is `null`.
pub open spec fn time_field(j: JsonModel) -> Option<Option<Seq<char>>> {
    if j.index("cas_udalosti"@).is_null() {
        Some(None)
    } else {
        match text_field(j, "cas_udalosti"@) {
            Some(s) => Some(Some(s)),
            None => None,
        }
    }
}

/// A message or event of the timeline.
pub struct EventItem;

impl ItemDecoder for EventItem {
    type Item = TimelineEvent;

    open spec fn outcome(j: JsonModel) -> Outcome<TimelineEventView> {
        match (
            time_field(j),
            id_field(j, "timelineid"@),
            text_field(j, "cas_pridania"@),
            account_field(j, "vlastnik"@),
            account_field(j, "user"@),
            text_field(j, "text"@),
        ) {
            (Some(time), Some(id), Some(added), Some(author), Some(recipient), Some(text)) => Outcome::Done(
                TimelineEventView {
                    id,
                    added,
                    time,
                    author,
                    recipient,
                    text,
                    data: j.index("data"@),
                },
            ),
            _ => Outcome::Unreadable,
        }
    }

    fn decode(j: &JsonValue) -> (r: Outcome<TimelineEvent>) {
        let time = if j.index("cas_udalosti").is_null() {
            None
        } else {
            match text_at(j, "cas_udalosti") {
                Some(t) => Some(t),
                None => {
                    return Outcome::Unreadable;
                },
            }
        };
        match (
            id_at(j, "timelineid"),
            text_at(j, "cas_pridania"),
            account_at(j, "vlastnik"),
            account_at(j, "user"),
            text_at(j, "text"),
        ) {
            (Some(id), Some(added), Some(author), Some(recipient), Some(text)) => {
                let data = j.index("data").clone();
                let r = TimelineEvent { id, added, time, author, recipient, text, data };
                assert(Self::outcome(j.model()) == Outcome::Done(r@));
                Outcome::Done(r)
            },
            _ => Outcome::Unreadable,
        }
    }
}

// ---------------------------------------------------------------------
// Genders of the school's people
// ---------------------------------------------------------------------

/// A student read from the school's database is male exactly when its
/// `gender` member is the text `M`, and female exactly when it is `F`.
pub proof fn lemma_student_gender(j: JsonModel)
    ensures
        StudentItem::outcome(j) matches Outcome::Done(s) ==> {
            &&& (j.index("gender"@) == JsonModel::String("M"@) <==> s.gender == Gender::Male)
            &&& (j.index("gender"@) == JsonModel::String("F"@) <==> s.gender == Gender::Female)
        },
{
    reveal_strlit("M");
    reveal_strlit("F");
    assert("M"@[0] != "F"@[0]);
    assert(JsonModel::String("M"@) != JsonModel::String("F"@));
}

/// A teacher read from the school's database is male exactly when its
/// `gender` member is the text `M`, and female exactly when it is `F`.
pub proof fn lemma_teacher_gender(j: JsonModel)
    ensures
        TeacherItem::outcome(j) matches Outcome::Done(t) ==> {
            &&& (j.index("gender"@) == JsonModel::String("M"@) <==> t.gender == Gender::Male)
            &&& (j.index("gender"@) == JsonModel::String("F"@) <==> t.gender == Gender::Female)
        },
{
    reveal_strlit("M");
    reveal_strlit("F");
    assert("M"@[0] != "F"@[0]);
    assert(JsonModel::String("M"@) != JsonModel::String("F"@));
}

/// A parent read from the school's database is male exactly when its
/// `gender` member is the text `M`, and female exactly when it is `F`.
pub proof fn lemma_parent_gender(j: JsonModel)
    ensures
        ParentItem::outcome(j) matches Outcome::Done(p) ==> {
            &&& (j.index("gender"@) == JsonModel::String("M"@) <==> p.gender == Gender::Male)
            &&& (j.index("gender"@) == JsonModel::String("F"@) <==> p.gender == Gender::Female)
        },
{
    reveal_strlit("M");
    reveal_strlit("F");
    assert("M"@[0] != "F"@[0]);
    assert(JsonModel::String("M"@) != JsonModel::String("F"@));
}

/// A gender other than `M` or `F` refuses the student, teacher or parent.
pub proof fn lemma_unknown_gender_refused(j: JsonModel, g: Seq<char>)
    requires
        j.index("gender"@) == JsonModel::String(g),
        g != "M"@,
        g != "F"@,
    ensures
        !(StudentItem::outcome(j) is Done),
        !(TeacherItem::outcome(j) is Done),
        !(ParentItem::outcome(j) is Done),
{
}

// ---------------------------------------------------------------------
// Which member of an entry each field is read from
// ---------------------------------------------------------------------

/// Member `key` of `j` is the text `v`.
pub open spec fn member_text(j: JsonModel, key: Seq<char>, v: Seq<char>) -> bool {
    j.index(key) == JsonModel::String(v)
}

/// Member `key` of `j` is a text that reads as the integer `n`.
pub open spec fn member_id(j: JsonModel, key: Seq<char>, n: i32) -> bool {
    j.index(key).as_str() matches Some(t) && parse_i32_spec(t) == Some(n)
}

/// A lesson period read from `zvonenia` starts at `starttime` and ends at
/// `endtime`, and has the id of `id`.
pub proof fn lemma_ringing_fields(j: JsonModel)
    ensures
        RingingItem::outcome(j) matches Outcome::Done(r) ==> member_id(j, "id"@, r.id) && member_text(
            j,
            "starttime"@,
            r.start,
        ) && member_text(j, "endtime"@, r.end),
{
}

/// A class is read from `id`, `grade`, `name` and `short`, its teacher
/// from `teacherid`.
pub proof fn lemma_class_fields(j: JsonModel)
    ensures
        ClassItem::outcome(j) matches Outcome::Done(c) ==> member_id(j, "id"@, c.id) && member_id(
            j,
            "grade"@,
            c.grade,
        ) && member_text(j, "name"@, c.name) && member_text(j, "short"@, c.name_short)
            && (c.teacher_id matches Some(t) && member_id(j, "teacherid"@, t)),
{
}

/// A classroom and a subject are read from `id`, `name` and `short`.
pub proof fn lemma_classroom_subject_fields(j: JsonModel)
    ensures
        ClassroomItem::outcome(j) matches Outcome::Done(c) ==> member_id(j, "id"@, c.id)
            && member_text(j, "name"@, c.name) && member_text(j, "short"@, c.name_short),
        SubjectItem::outcome(j) matches Outcome::Done(s) ==> member_id(j, "id"@, s.id)
            && member_text(j, "name"@, s.name) && member_text(j, "short"@, s.name_short),
{
}

/// A parent is read from `id`, `firstname` and `lastname`.
pub proof fn lemma_parent_fields(j: JsonModel)
    ensures
        ParentItem::outcome(j) matches Outcome::Done(p) ==> member_id(j, "id"@, p.id) && member_text(
            j,
            "firstname"@,
            p.first_name,
        ) && member_text(j, "lastname"@, p.last_name),
{
}

/// A plan is read from `planid`, `predmetMeno` and `predmetid`.
pub proof fn lemma_plan_fields(j: JsonModel)
    ensures
        PlanItem::outcome(j) matches Outcome::Done(p) ==> member_id(j, "planid"@, p.plan_id)
            && member_text(j, "predmetMeno"@, p.name) && member_id(j, "predmetid"@, p.subject_id),
{
}

/// A student is read from `id`, `classid`, `firstname`, `lastname`,
/// `datefrom` and `numberinclass`.
pub proof fn lemma_student_fields(j: JsonModel)
    ensures
        StudentItem::outcome(j) matches Outcome::Done(s) ==> {
            &&& member_id(j, "id"@, s.id)
            &&& member_id(j, "classid"@, s.class_id)
            &&& member_text(j, "firstname"@, s.first_name)
            &&& member_text(j, "lastname"@, s.last_name)
            &&& member_text(j, "datefrom"@, s.since)
            &&& member_id(j, "numberinclass"@, s.class_position)
        },
{
}

/// A teacher is read from `id`, `firstname`, `lastname`, `short` and `datefrom`.
pub proof fn lemma_teacher_fields(j: JsonModel)
    ensures
        TeacherItem::outcome(j) matches Outcome::Done(t) ==> {
            &&& member_id(j, "id"@, t.id)
            &&& member_text(j, "firstname"@, t.first_name)
            &&& member_text(j, "lastname"@, t.last_name)
            &&& member_text(j, "short"@, t.short_name)
            &&& member_text(j, "datefrom"@, t.since)
        },
{
}

/// A timeline event is read from `timelineid`, `cas_pridania` and `text`;
/// its author is the account named by `vlastnik`, its recipient the one
/// named by `user`, and its data is the `data` member as it stands.
pub proof fn lemma_event_fields(j: JsonModel)
    ensures
        EventItem::outcome(j) matches Outcome::Done(e) ==> {
            &&& member_id(j, "timelineid"@, e.id)
            &&& member_text(j, "cas_pridania"@, e.added)
            &&& member_text(j, "text"@, e.text)
            &&& (j.index("vlastnik"@).as_str() matches Some(a) && account_from_chars(a) == e.author)
            &&& (j.index("user"@).as_str() matches Some(b) && account_from_chars(b) == e.recipient)
            &&& e.data == j.index("data"@)
            &&& (j.index("cas_udalosti"@) is Null ==> e.time is None)
            &&& (j.index("cas_udalosti"@) matches JsonModel::String(t) ==> e.time == Some(t))
        },
{
}

} // verus!
