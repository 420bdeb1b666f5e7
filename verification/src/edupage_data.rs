//! The records of a user's school data, their contents as mathematical
//! values, and the lookups by id or date.
use vstd::prelude::*;

use crate::edupage_types::{AccountType, AccountView, Gender};
use crate::json::{JsonModel, JsonValue};

verus! {

/// The contents of a list of records.
pub open spec fn views<T: View>(s: Seq<T>) -> Seq<T::V> {
    Seq::new(s.len(), |i: int| s[i]@)
}

/// "first last": the two names joined by one space.
pub open spec fn full_name(first: Seq<char>, last: Seq<char>) -> Seq<char> {
    first + seq![' '] + last
}

fn join_names(first: &String, last: &String) -> (r: String)
    ensures
        r@ == full_name(first@, last@),
{
    let mut s = first.clone();
    s.append(" ");
    s.append(last.as_str());
    proof {
        reveal_strlit(" ");
    }
    assert(s@ =~= full_name(first@, last@));
    s
}

// ---------------------------------------------------------------------
// Records
// ---------------------------------------------------------------------

/// Everything the school's start page tells about the logged-in user.
#[derive(Debug)]
pub struct Data {
    pub ringing: Vec<Ringing>,
    pub user: User,
    pub dbi: DBI,
    pub nameday_today: String,
    pub nameday_tomorrow: String,
    pub day_plans: Vec<DayPlan>,
    pub year: i32,
    pub timeline: Vec<TimelineEvent>,
}

pub struct DataView {
    pub ringing: Seq<RingingView>,
    pub user: UserView,
    pub dbi: DbiView,
    pub nameday_today: Seq<char>,
    pub nameday_tomorrow: Seq<char>,
    pub day_plans: Seq<DayPlanView>,
    pub year: i32,
    pub timeline: Seq<TimelineEventView>,
}

impl View for Data {
    type V = DataView;

    open spec fn view(&self) -> DataView {
        DataView {
            ringing: views(self.ringing@),
            user: self.user@,
            dbi: self.dbi@,
            nameday_today: self.nameday_today@,
            nameday_tomorrow: self.nameday_tomorrow@,
            day_plans: views(self.day_plans@),
            year: self.year,
            timeline: views(self.timeline@),
        }
    }
}

/// The logged-in user.
#[derive(Debug)]
pub struct User {
    pub user: AccountType,
    pub class_id: Option<i32>,
    pub first_name: String,
    pub last_name: String,
    pub mail: String,
    pub gender: Gender,
    pub login: String,
}

pub struct UserView {
    pub user: AccountView,
    pub class_id: Option<i32>,
    pub first_name: Seq<char>,
    pub last_name: Seq<char>,
    pub mail: Seq<char>,
    pub gender: Gender,
    pub login: Seq<char>,
}

impl View for User {
    type V = UserView;

    open spec fn view(&self) -> UserView {
        UserView {
            user: self.user@,
            class_id: self.class_id,
            first_name: self.first_name@,
            last_name: self.last_name@,
            mail: self.mail@,
            gender: self.gender,
            login: self.login@,
        }
    }
}

/// The school's database: its classes, rooms, people, subjects and plans.
#[derive(Debug)]
pub struct DBI {
    pub classes: Vec<Class>,
    pub classrooms: Vec<Classroom>,
    pub parents: Vec<Parent>,
    pub plans: Vec<Plan>,
    pub students: Vec<Student>,
    pub subjects: Vec<Subject>,
    pub teachers: Vec<Teacher>,
    pub homeworks_enabled: bool,
    pub art_school: bool,
}

pub struct DbiView {
    pub classes: Seq<ClassView>,
    pub classrooms: Seq<ClassroomView>,
    pub parents: Seq<ParentView>,
    pub plans: Seq<PlanView>,
    pub students: Seq<StudentView>,
    pub subjects: Seq<SubjectView>,
    pub teachers: Seq<TeacherView>,
    pub homeworks_enabled: bool,
    pub art_school: bool,
}

impl View for DBI {
    type V = DbiView;

    open spec fn view(&self) -> DbiView {
        DbiView {
            classes: views(self.classes@),
            classrooms: views(self.classrooms@),
            parents: views(self.parents@),
            plans: views(self.plans@),
            students: views(self.students@),
            subjects: views(self.subjects@),
            teachers: views(self.teachers@),
            homeworks_enabled: self.homeworks_enabled,
            art_school: self.art_school,
        }
    }
}

#[derive(Debug)]
pub struct Class {
    pub classroom_id: Option<i32>,
    pub grade: i32,
    pub id: i32,
    pub name: String,
    pub name_short: String,
    pub teacher_id: Option<i32>,
    pub teacher2_id: Option<i32>,
}

pub struct ClassView {
    pub classroom_id: Option<i32>,
    pub grade: i32,
    pub id: i32,
    pub name: Seq<char>,
    pub name_short: Seq<char>,
    pub teacher_id: Option<i32>,
    pub teacher2_id: Option<i32>,
}

impl View for Class {
    type V = ClassView;

    open spec fn view(&self) -> ClassView {
        ClassView {
            classroom_id: self.classroom_id,
            grade: self.grade,
            id: self.id,
            name: self.name@,
            name_short: self.name_short@,
            teacher_id: self.teacher_id,
            teacher2_id: self.teacher2_id,
        }
    }
}

#[derive(Debug)]
pub struct Classroom {
    pub id: i32,
    pub name: String,
    pub name_short: String,
}

pub struct ClassroomView {
    pub id: i32,
    pub name: Seq<char>,
    pub name_short: Seq<char>,
}

impl View for Classroom {
    type V = ClassroomView;

    open spec fn view(&self) -> ClassroomView {
        ClassroomView { id: self.id, name: self.name@, name_short: self.name_short@ }
    }
}

#[derive(Debug)]
pub struct Parent {
    pub first_name: String,
    pub last_name: String,
    pub gender: Gender,
    pub id: i32,
}

pub struct ParentView {
    pub first_name: Seq<char>,
    pub last_name: Seq<char>,
    pub gender: Gender,
    pub id: i32,
}

impl View for Parent {
    type V = ParentView;

    open spec fn view(&self) -> ParentView {
        ParentView {
            first_name: self.first_name@,
            last_name: self.last_name@,
            gender: self.gender,
            id: self.id,
        }
    }
}

/// A subject as taught to some classes or students by some teachers.
#[derive(Debug)]
pub struct Plan {
    pub plan_id: i32,
    pub name: String,
    pub subject_id: i32,
    pub teachers: Vec<i32>,
    pub class_ids: Vec<i32>,
    pub students: Vec<i32>,
}

pub struct PlanView {
    pub plan_id: i32,
    pub name: Seq<char>,
    pub subject_id: i32,
    pub teachers: Seq<i32>,
    pub class_ids: Seq<i32>,
    pub students: Seq<i32>,
}

impl View for Plan {
    type V = PlanView;

    open spec fn view(&self) -> PlanView {
        PlanView {
            plan_id: self.plan_id,
            name: self.name@,
            subject_id: self.subject_id,
            teachers: self.teachers@,
            class_ids: self.class_ids@,
            students: self.students@,
        }
    }
}

#[derive(Debug)]
pub struct Student {
    pub class_id: i32,
    pub first_name: String,
    pub last_name: String,
    pub id: i32,
    pub parents: Vec<i32>,
    pub gender: Gender,
    pub since: String,
    pub class_position: i32,
}

pub struct StudentView {
    pub class_id: i32,
    pub first_name: Seq<char>,
    pub last_name: Seq<char>,
    pub id: i32,
    pub parents: Seq<i32>,
    pub gender: Gender,
    pub since: Seq<char>,
    pub class_position: i32,
}

impl View for Student {
    type V = StudentView;

    open spec fn view(&self) -> StudentView {
        StudentView {
            class_id: self.class_id,
            first_name: self.first_name@,
            last_name: self.last_name@,
            id: self.id,
            parents: self.parents@,
            gender: self.gender,
            since: self.since@,
            class_position: self.class_position,
        }
    }
}

#[derive(Debug)]
pub struct Subject {
    pub id: i32,
    pub name: String,
    pub name_short: String,
}

pub struct SubjectView {
    pub id: i32,
    pub name: Seq<char>,
    pub name_short: Seq<char>,
}

impl View for Subject {
    type V = SubjectView;

    open spec fn view(&self) -> SubjectView {
        SubjectView { id: self.id, name: self.name@, name_short: self.name_short@ }
    }
}

#[derive(Debug)]
pub struct Teacher {
    pub first_name: String,
    pub last_name: String,
    pub gender: Gender,
    pub id: i32,
    pub short_name: String,
    pub since: String,
    pub classroom_id: Option<i32>,
}

pub struct TeacherView {
    pub first_name: Seq<char>,
    pub last_name: Seq<char>,
    pub gender: Gender,
    pub id: i32,
    pub short_name: Seq<char>,
    pub since: Seq<char>,
    pub classroom_id: Option<i32>,
}

impl View for Teacher {
    type V = TeacherView;

    open spec fn view(&self) -> TeacherView {
        TeacherView {
            first_name: self.first_name@,
            last_name: self.last_name@,
            gender: self.gender,
            id: self.id,
            short_name: self.short_name@,
            since: self.since@,
            classroom_id: self.classroom_id,
        }
    }
}

/// One lesson period of the day: when it starts and ends.
#[derive(Debug)]
pub struct Ringing {
    pub id: i32,
    pub start: String,
    pub end: String,
}

pub struct RingingView {
    pub id: i32,
    pub start: Seq<char>,
    pub end: Seq<char>,
}

impl View for Ringing {
    type V = RingingView;

    open spec fn view(&self) -> RingingView {
        RingingView { id: self.id, start: self.start@, end: self.end@ }
    }
}

/// The lessons of one date.
#[derive(Debug)]
pub struct DayPlan {
    pub date: String,
    pub lessons: Vec<Lesson>,
}

pub struct DayPlanView {
    pub date: Seq<char>,
    pub lessons: Seq<Lesson>,
}

impl View for DayPlan {
    type V = DayPlanView;

    open spec fn view(&self) -> DayPlanView {
        DayPlanView { date: self.date@, lessons: self.lessons@ }
    }
}

#[derive(Debug)]
pub struct Lesson {
    pub subject_id: Option<i32>,
    pub plan_id: Option<i32>,
    pub period: i32,
}

/// A message or event on the user's timeline.
#[derive(Debug)]
pub struct TimelineEvent {
    pub id: i32,
    pub added: String,
    pub time: Option<String>,
    pub author: AccountType,
    pub recipient: AccountType,
    pub text: String,
    pub data: JsonValue,
}

pub struct TimelineEventView {
    pub id: i32,
    pub added: Seq<char>,
    pub time: Option<Seq<char>>,
    pub author: AccountView,
    pub recipient: AccountView,
    pub text: Seq<char>,
    pub data: JsonModel,
}

impl View for TimelineEvent {
    type V = TimelineEventView;

    open spec fn view(&self) -> TimelineEventView {
        TimelineEventView {
            id: self.id,
            added: self.added@,
            time: match self.time {
                Some(t) => Some(t@),
                None => None,
            },
            author: self.author@,
            recipient: self.recipient@,
            text: self.text@,
            data: self.data.model(),
        }
    }
}

// ---------------------------------------------------------------------
// Copies
// ---------------------------------------------------------------------

proof fn lemma_cloned_views<T: View + Clone>(a: Seq<T>, b: Seq<T>)
    requires
        a.len() == b.len(),
        forall|i: int| 0 <= i < a.len() ==> #[trigger] b[i]@ == a[i]@,
    ensures
        views(b) == views(a),
{
    assert(views(b) =~= views(a));
}

impl Clone for Lesson {
    fn clone(&self) -> (r: Self)
        ensures
            r == *self,
    {
        Lesson { subject_id: self.subject_id, plan_id: self.plan_id, period: self.period }
    }
}

impl Clone for Class {
    fn clone(&self) -> (r: Self)
        ensures
            r == *self,
    {
        Class {
            classroom_id: self.classroom_id,
            grade: self.grade,
            id: self.id,
            name: self.name.clone(),
            name_short: self.name_short.clone(),
            teacher_id: self.teacher_id,
            teacher2_id: self.teacher2_id,
        }
    }
}

impl Clone for Classroom {
    fn clone(&self) -> (r: Self)
        ensures
            r == *self,
    {
        Classroom { id: self.id, name: self.name.clone(), name_short: self.name_short.clone() }
    }
}

impl Clone for Parent {
    fn clone(&self) -> (r: Self)
        ensures
            r == *self,
    {
        Parent {
            first_name: self.first_name.clone(),
            last_name: self.last_name.clone(),
            gender: self.gender.clone(),
            id: self.id,
        }
    }
}

impl Clone for Subject {
    fn clone(&self) -> (r: Self)
        ensures
            r == *self,
    {
        Subject { id: self.id, name: self.name.clone(), name_short: self.name_short.clone() }
    }
}

impl Clone for Teacher {
    fn clone(&self) -> (r: Self)
        ensures
            r == *self,
    {
        Teacher {
            first_name: self.first_name.clone(),
            last_name: self.last_name.clone(),
            gender: self.gender.clone(),
            id: self.id,
            short_name: self.short_name.clone(),
            since: self.since.clone(),
            classroom_id: self.classroom_id,
        }
    }
}

impl Clone for Ringing {
    fn clone(&self) -> (r: Self)
        ensures
            r == *self,
    {
        Ringing { id: self.id, start: self.start.clone(), end: self.end.clone() }
    }
}

impl Clone for User {
    fn clone(&self) -> (r: Self)
        ensures
            r == *self,
    {
        User {
            user: self.user.clone(),
            class_id: self.class_id,
            first_name: self.first_name.clone(),
            last_name: self.last_name.clone(),
            mail: self.mail.clone(),
            gender: self.gender.clone(),
            login: self.login.clone(),
        }
    }
}

fn clone_ids(v: &Vec<i32>) -> (r: Vec<i32>)
    ensures
        r@ == v@,
{
    let r = v.clone();
    assert(r@ =~= v@);
    r
}

impl Clone for Plan {
    fn clone(&self) -> (r: Self)
        ensures
            r@ == self@,
    {
        Plan {
            plan_id: self.plan_id,
            name: self.name.clone(),
            subject_id: self.subject_id,
            teachers: clone_ids(&self.teachers),
            class_ids: clone_ids(&self.class_ids),
            students: clone_ids(&self.students),
        }
    }
}

impl Clone for Student {
    fn clone(&self) -> (r: Self)
        ensures
            r@ == self@,
    {
        Student {
            class_id: self.class_id,
            first_name: self.first_name.clone(),
            last_name: self.last_name.clone(),
            id: self.id,
            parents: clone_ids(&self.parents),
            gender: self.gender.clone(),
            since: self.since.clone(),
            class_position: self.class_position,
        }
    }
}

impl Clone for DayPlan {
    fn clone(&self) -> (r: Self)
        ensures
            r@ == self@,
    {
        let lessons = self.lessons.clone();
        assert(lessons@ =~= self.lessons@);
        DayPlan { date: self.date.clone(), lessons }
    }
}

impl Clone for TimelineEvent {
    fn clone(&self) -> (r: Self)
        ensures
            r@ == self@,
    {
        TimelineEvent {
            id: self.id,
            added: self.added.clone(),
            time: match &self.time {
                Some(t) => Some(t.clone()),
                None => None,
            },
            author: self.author.clone(),
            recipient: self.recipient.clone(),
            text: self.text.clone(),
            data: self.data.clone(),
        }
    }
}

fn clone_list<T: View + Clone>(v: &Vec<T>) -> (r: Vec<T>)
    requires
        forall|a: T, b: T| #[trigger] cloned::<T>(a, b) ==> b@ == a@,
    ensures
        views(r@) == views(v@),
{
    let r = v.clone();
    proof {
        assert forall|i: int| 0 <= i < v@.len() implies #[trigger] r@[i]@ == v@[i]@ by {
            assert(cloned::<T>(v[i], r[i]));
        }
        lemma_cloned_views(v@, r@);
    }
    r
}

impl Clone for DBI {
    fn clone(&self) -> (r: Self)
        ensures
            r@ == self@,
    {
        DBI {
            classes: clone_list(&self.classes),
            classrooms: clone_list(&self.classrooms),
            parents: clone_list(&self.parents),
            plans: clone_list(&self.plans),
            students: clone_list(&self.students),
            subjects: clone_list(&self.subjects),
            teachers: clone_list(&self.teachers),
            homeworks_enabled: self.homeworks_enabled,
            art_school: self.art_school,
        }
    }
}

impl Clone for Data {
    fn clone(&self) -> (r: Self)
        ensures
            r@ == self@,
    {
        Data {
            ringing: clone_list(&self.ringing),
            user: self.user.clone(),
            dbi: self.dbi.clone(),
            nameday_today: self.nameday_today.clone(),
            nameday_tomorrow: self.nameday_tomorrow.clone(),
            day_plans: clone_list(&self.day_plans),
            year: self.year,
            timeline: clone_list(&self.timeline),
        }
    }
}

// ---------------------------------------------------------------------
// Lookups and names
// ---------------------------------------------------------------------

impl Data {
    /// The plan of the given date, if any.
    pub fn day_plan_from_date(&self, date: String) -> (r: Option<DayPlan>)
        ensures
            r is Some <==> exists|k: int| 0 <= k < self.day_plans@.len() && #[trigger] self.day_plans@[k].date@ == date@,
            r matches Some(found) ==> exists|k: int|
                0 <= k < self.day_plans@.len() && #[trigger] self.day_plans@[k].date@ == date@ && found@ == self.day_plans@[k]@
                    && forall|j: int| 0 <= j < k ==> self.day_plans@[j].date@ != date@,
    {
        let mut i: usize = 0;
        while i < self.day_plans.len()
            invariant
                i <= self.day_plans@.len(),
                forall|j: int| 0 <= j < i ==> self.day_plans@[j].date@ != date@,
            decreases self.day_plans@.len() - i,
        {
            if self.day_plans[i].date == date {
                let found = self.day_plans[i].clone();
                assert(self.day_plans@[i as int].date@ == date@);
                return Some(found);
            }
            i = i + 1;
        }
        None
    }

    /// The first timelineevent whose `id` is `id`, if any.
    pub fn timeline_from_id(&self, id: i32) -> (r: Option<TimelineEvent>)
        ensures
            r is Some <==> exists|k: int| 0 <= k < self.timeline@.len() && #[trigger] self.timeline@[k].id == id,
            r matches Some(found) ==> exists|k: int|
                0 <= k < self.timeline@.len() && #[trigger] self.timeline@[k].id == id && found@ == self.timeline@[k]@
                    && forall|j: int| 0 <= j < k ==> self.timeline@[j].id != id,
    {
        let mut i: usize = 0;
        while i < self.timeline.len()
            invariant
                i <= self.timeline@.len(),
                forall|j: int| 0 <= j < i ==> self.timeline@[j].id != id,
            decreases self.timeline@.len() - i,
        {
            if self.timeline[i].id == id {
                let found = self.timeline[i].clone();
                assert(self.timeline@[i as int].id == id);
                return Some(found);
            }
            i = i + 1;
        }
        None
    }

    /// The first ringing whose `id` is `id`, if any.
    pub fn ringing_from_id(&self, id: i32) -> (r: Option<Ringing>)
        ensures
            r is Some <==> exists|k: int| 0 <= k < self.ringing@.len() && #[trigger] self.ringing@[k].id == id,
            r matches Some(found) ==> exists|k: int|
                0 <= k < self.ringing@.len() && #[trigger] self.ringing@[k].id == id && found@ == self.ringing@[k]@
                    && forall|j: int| 0 <= j < k ==> self.ringing@[j].id != id,
    {
        let mut i: usize = 0;
        while i < self.ringing.len()
            invariant
                i <= self.ringing@.len(),
                forall|j: int| 0 <= j < i ==> self.ringing@[j].id != id,
            decreases self.ringing@.len() - i,
        {
            if self.ringing[i].id == id {
                let found = self.ringing[i].clone();
                assert(self.ringing@[i as int].id == id);
                return Some(found);
            }
            i = i + 1;
        }
        None
    }
}

impl DBI {
    /// The first class whose `id` is `id`, if any.
    pub fn class_from_id(&self, id: i32) -> (r: Option<Class>)
        ensures
            r is Some <==> exists|k: int| 0 <= k < self.classes@.len() && #[trigger] self.classes@[k].id == id,
            r matches Some(found) ==> exists|k: int|
                0 <= k < self.classes@.len() && #[trigger] self.classes@[k].id == id && found@ == self.classes@[k]@
                    && forall|j: int| 0 <= j < k ==> self.classes@[j].id != id,
    {
        let mut i: usize = 0;
        while i < self.classes.len()
            invariant
                i <= self.classes@.len(),
                forall|j: int| 0 <= j < i ==> self.classes@[j].id != id,
            decreases self.classes@.len() - i,
        {
            if self.classes[i].id == id {
                let found = self.classes[i].clone();
                assert(self.classes@[i as int].id == id);
                return Some(found);
            }
            i = i + 1;
        }
        None
    }

    /// The first classroom whose `id` is `id`, if any.
    pub fn classroom_from_id(&self, id: i32) -> (r: Option<Classroom>)
        ensures
            r is Some <==> exists|k: int| 0 <= k < self.classrooms@.len() && #[trigger] self.classrooms@[k].id == id,
            r matches Some(found) ==> exists|k: int|
                0 <= k < self.classrooms@.len() && #[trigger] self.classrooms@[k].id == id && found@ == self.classrooms@[k]@
                    && forall|j: int| 0 <= j < k ==> self.classrooms@[j].id != id,
    {
        let mut i: usize = 0;
        while i < self.classrooms.len()
            invariant
                i <= self.classrooms@.len(),
                forall|j: int| 0 <= j < i ==> self.classrooms@[j].id != id,
            decreases self.classrooms@.len() - i,
        {
            if self.classrooms[i].id == id {
                let found = self.classrooms[i].clone();
                assert(self.classrooms@[i as int].id == id);
                return Some(found);
            }
            i = i + 1;
        }
        None
    }

    /// The first parent whose `id` is `id`, if any.
    pub fn parent_from_id(&self, id: i32) -> (r: Option<Parent>)
        ensures
            r is Some <==> exists|k: int| 0 <= k < self.parents@.len() && #[trigger] self.parents@[k].id == id,
            r matches Some(found) ==> exists|k: int|
                0 <= k < self.parents@.len() && #[trigger] self.parents@[k].id == id && found@ == self.parents@[k]@
                    && forall|j: int| 0 <= j < k ==> self.parents@[j].id != id,
    {
        let mut i: usize = 0;
        while i < self.parents.len()
            invariant
                i <= self.parents@.len(),
                forall|j: int| 0 <= j < i ==> self.parents@[j].id != id,
            decreases self.parents@.len() - i,
        {
            if self.parents[i].id == id {
                let found = self.parents[i].clone();
                assert(self.parents@[i as int].id == id);
                return Some(found);
            }
            i = i + 1;
        }
        None
    }

    /// The first plan whose `plan_id` is `id`, if any.
    pub fn plan_from_id(&self, id: i32) -> (r: Option<Plan>)
        ensures
            r is Some <==> exists|k: int| 0 <= k < self.plans@.len() && #[trigger] self.plans@[k].plan_id == id,
            r matches Some(found) ==> exists|k: int|
                0 <= k < self.plans@.len() && #[trigger] self.plans@[k].plan_id == id && found@ == self.plans@[k]@
                    && forall|j: int| 0 <= j < k ==> self.plans@[j].plan_id != id,
    {
        let mut i: usize = 0;
        while i < self.plans.len()
            invariant
                i <= self.plans@.len(),
                forall|j: int| 0 <= j < i ==> self.plans@[j].plan_id != id,
            decreases self.plans@.len() - i,
        {
            if self.plans[i].plan_id == id {
                let found = self.plans[i].clone();
                assert(self.plans@[i as int].plan_id == id);
                return Some(found);
            }
            i = i + 1;
        }
        None
    }

    /// The first student whose `id` is `id`, if any.
    pub fn student_from_id(&self, id: i32) -> (r: Option<Student>)
        ensures
            r is Some <==> exists|k: int| 0 <= k < self.students@.len() && #[trigger] self.students@[k].id == id,
            r matches Some(found) ==> exists|k: int|
                0 <= k < self.students@.len() && #[trigger] self.students@[k].id == id && found@ == self.students@[k]@
                    && forall|j: int| 0 <= j < k ==> self.students@[j].id != id,
    {
        let mut i: usize = 0;
        while i < self.students.len()
            invariant
                i <= self.students@.len(),
                forall|j: int| 0 <= j < i ==> self.students@[j].id != id,
            decreases self.students@.len() - i,
        {
            if self.students[i].id == id {
                let found = self.students[i].clone();
                assert(self.students@[i as int].id == id);
                return Some(found);
            }
            i = i + 1;
        }
        None
    }

    /// The first subject whose `id` is `id`, if any.
    pub fn subject_from_id(&self, id: i32) -> (r: Option<Subject>)
        ensures
            r is Some <==> exists|k: int| 0 <= k < self.subjects@.len() && #[trigger] self.subjects@[k].id == id,
            r matches Some(found) ==> exists|k: int|
                0 <= k < self.subjects@.len() && #[trigger] self.subjects@[k].id == id && found@ == self.subjects@[k]@
                    && forall|j: int| 0 <= j < k ==> self.subjects@[j].id != id,
    {
        let mut i: usize = 0;
        while i < self.subjects.len()
            invariant
                i <= self.subjects@.len(),
                forall|j: int| 0 <= j < i ==> self.subjects@[j].id != id,
            decreases self.subjects@.len() - i,
        {
            if self.subjects[i].id == id {
                let found = self.subjects[i].clone();
                assert(self.subjects@[i as int].id == id);
                return Some(found);
            }
            i = i + 1;
        }
        None
    }

    /// The first teacher whose `id` is `id`, if any.
    pub fn teacher_from_id(&self, id: i32) -> (r: Option<Teacher>)
        ensures
            r is Some <==> exists|k: int| 0 <= k < self.teachers@.len() && #[trigger] self.teachers@[k].id == id,
            r matches Some(found) ==> exists|k: int|
                0 <= k < self.teachers@.len() && #[trigger] self.teachers@[k].id == id && found@ == self.teachers@[k]@
                    && forall|j: int| 0 <= j < k ==> self.teachers@[j].id != id,
    {
        let mut i: usize = 0;
        while i < self.teachers.len()
            invariant
                i <= self.teachers@.len(),
                forall|j: int| 0 <= j < i ==> self.teachers@[j].id != id,
            decreases self.teachers@.len() - i,
        {
            if self.teachers[i].id == id {
                let found = self.teachers[i].clone();
                assert(self.teachers@[i as int].id == id);
                return Some(found);
            }
            i = i + 1;
        }
        None
    }
}

impl User {
    /// The first and the last name, joined by a space.
    pub fn name(&self) -> (r: String)
        ensures
            r@ == full_name(self.first_name@, self.last_name@),
    {
        join_names(&self.first_name, &self.last_name)
    }
}

impl Parent {
    /// The first and the last name, joined by a space.
    pub fn name(&self) -> (r: String)
        ensures
            r@ == full_name(self.first_name@, self.last_name@),
    {
        join_names(&self.first_name, &self.last_name)
    }
}

impl Student {
    /// The first and the last name, joined by a space.
    pub fn name(&self) -> (r: String)
        ensures
            r@ == full_name(self.first_name@, self.last_name@),
    {
        join_names(&self.first_name, &self.last_name)
    }
}

impl Teacher {
    /// The first and the last name, joined by a space.
    pub fn name(&self) -> (r: String)
        ensures
            r@ == full_name(self.first_name@, self.last_name@),
    {
        join_names(&self.first_name, &self.last_name)
    }
}

} // verus!
