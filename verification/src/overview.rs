//! The overview that a user is shown of a school day: one line per lesson,
//! naming its period, its teacher and its subject, and the latest messages
//! of the timeline.
use vstd::prelude::*;

use crate::edupage_data::{
    full_name, views, DBI, Data, DayPlan, DbiView, Lesson, PlanView, SubjectView, TeacherView,
    TimelineEventView,
};
use crate::text::{decimal, i32_to_string};

verus! {

/// How many messages the overview shows at most.
pub const MESSAGES_SHOWN: usize = 6;

/// The position of the first `id` in `ids`, searching from `i` on.
pub open spec fn index_of_id(ids: Seq<i32>, id: i32, i: int) -> Option<int>
    decreases ids.len() - i,
{
    if i < 0 || i >= ids.len() {
        None
    } else if ids[i] == id {
        Some(i)
    } else {
        index_of_id(ids, id, i + 1)
    }
}

/// The first occurrence at or after `i` is found.
proof fn lemma_index_of_id_found(ids: Seq<i32>, id: i32, i: int, k: int)
    requires
        0 <= i <= k < ids.len(),
        ids[k] == id,
        forall|j: int| i <= j < k ==> ids[j] != id,
    ensures
        index_of_id(ids, id, i) == Some(k),
    decreases k - i,
{
    if i < k {
        lemma_index_of_id_found(ids, id, i + 1, k);
    }
}

/// An id that does not occur at or after `i` is not found.
proof fn lemma_index_of_id_missing(ids: Seq<i32>, id: i32, i: int)
    requires
        0 <= i,
        forall|j: int| i <= j < ids.len() ==> ids[j] != id,
    ensures
        index_of_id(ids, id, i) is None,
    decreases ids.len() - i,
{
    if i < ids.len() {
        lemma_index_of_id_missing(ids, id, i + 1);
    }
}

pub open spec fn subject_ids(s: Seq<SubjectView>) -> Seq<i32> {
    Seq::new(s.len(), |i: int| s[i].id)
}

pub open spec fn plan_ids(s: Seq<PlanView>) -> Seq<i32> {
    Seq::new(s.len(), |i: int| s[i].plan_id)
}

pub open spec fn teacher_ids(s: Seq<TeacherView>) -> Seq<i32> {
    Seq::new(s.len(), |i: int| s[i].id)
}

/// Who teaches a lesson of the given plan: the first teacher of the plan,
/// by name; `Unknown Teacher` where there is no plan, the plan is not
/// found, it names no teacher, or its first teacher is not found.
pub open spec fn teacher_label(dbi: DbiView, plan_id: Option<i32>) -> Seq<char> {
    let unknown = "Unknown Teacher"@;
    match plan_id {
        None => unknown,
        Some(pid) => match index_of_id(plan_ids(dbi.plans), pid, 0) {
            None => unknown,
            Some(pk) => {
                let teachers = dbi.plans[pk].teachers;
                if teachers.len() == 0 {
                    unknown
                } else {
                    match index_of_id(teacher_ids(dbi.teachers), teachers[0], 0) {
                        None => unknown,
                        Some(tk) => full_name(dbi.teachers[tk].first_name, dbi.teachers[tk].last_name),
                    }
                }
            },
        },
    }
}

/// The line shown for a lesson: `period. teacher - subject`; a lesson
/// without a subject is not shown, and one whose subject is not found is
/// shown as `period. Unknown Teacher - Subject not found`.
pub open spec fn lesson_line(dbi: DbiView, lesson: Lesson) -> Option<Seq<char>> {
    match lesson.subject_id {
        None => None,
        Some(sid) => match index_of_id(subject_ids(dbi.subjects), sid, 0) {
            None => Some(decimal(lesson.period as int) + ". Unknown Teacher - Subject not found"@),
            Some(sk) => Some(
                decimal(lesson.period as int) + ". "@ + teacher_label(dbi, lesson.plan_id) + " - "@
                    + dbi.subjects[sk].name,
            ),
        },
    }
}

/// The lines shown for a day's lessons, in order.
pub open spec fn lesson_lines(dbi: DbiView, lessons: Seq<Lesson>) -> Seq<Seq<char>>
    decreases lessons.len(),
{
    if lessons.len() == 0 {
        Seq::empty()
    } else {
        let rest = lesson_lines(dbi, lessons.drop_last());
        match lesson_line(dbi, lessons.last()) {
            Some(line) => rest.push(line),
            None => rest,
        }
    }
}

/// The line shown for each timeline event with a text, `author: text`, in
/// the order of the timeline.
pub open spec fn message_lines(events: Seq<TimelineEventView>) -> Seq<Seq<char>>
    decreases events.len(),
{
    if events.len() == 0 {
        Seq::empty()
    } else {
        let rest = message_lines(events.drop_last());
        let e = events.last();
        if e.text.len() == 0 {
            rest
        } else {
            rest.push(e.author.display() + ": "@ + e.text)
        }
    }
}

/// The first `MESSAGES_SHOWN` message lines, or all of them when there are fewer.
pub open spec fn latest_message_lines(events: Seq<TimelineEventView>) -> Seq<Seq<char>> {
    let all = message_lines(events);
    if all.len() <= MESSAGES_SHOWN {
        all
    } else {
        all.take(MESSAGES_SHOWN as int)
    }
}

/// The line of a lesson names the subject found first with the lesson's
/// subject id and the teacher found first with the first teacher id of the
/// plan found first with the lesson's plan id.
pub proof fn lemma_lesson_line_named(dbi: DbiView, lesson: Lesson, sk: int, pk: int, tk: int)
    requires
        lesson.subject_id is Some,
        0 <= sk < dbi.subjects.len(),
        dbi.subjects[sk].id == lesson.subject_id->0,
        forall|j: int| 0 <= j < sk ==> dbi.subjects[j].id != lesson.subject_id->0,
        lesson.plan_id is Some,
        0 <= pk < dbi.plans.len(),
        dbi.plans[pk].plan_id == lesson.plan_id->0,
        forall|j: int| 0 <= j < pk ==> dbi.plans[j].plan_id != lesson.plan_id->0,
        dbi.plans[pk].teachers.len() > 0,
        0 <= tk < dbi.teachers.len(),
        dbi.teachers[tk].id == dbi.plans[pk].teachers[0],
        forall|j: int| 0 <= j < tk ==> dbi.teachers[j].id != dbi.plans[pk].teachers[0],
    ensures
        lesson_line(dbi, lesson) == Some(
            decimal(lesson.period as int) + ". "@ + full_name(
                dbi.teachers[tk].first_name,
                dbi.teachers[tk].last_name,
            ) + " - "@ + dbi.subjects[sk].name,
        ),
{
    lemma_index_of_id_found(subject_ids(dbi.subjects), lesson.subject_id->0, 0, sk);
    lemma_index_of_id_found(plan_ids(dbi.plans), lesson.plan_id->0, 0, pk);
    lemma_index_of_id_found(teacher_ids(dbi.teachers), dbi.plans[pk].teachers[0], 0, tk);
}

/// A lesson without a subject is not shown; one whose subject id names no
/// subject is shown as `period. Unknown Teacher - Subject not found`; one
/// without a plan, or whose plan is not found, names `Unknown Teacher`.
pub proof fn lemma_lesson_line_unknowns(dbi: DbiView, lesson: Lesson, sk: int)
    ensures
        lesson.subject_id is None ==> lesson_line(dbi, lesson) is None,
        (lesson.subject_id matches Some(sid) && forall|j: int|
            0 <= j < dbi.subjects.len() ==> dbi.subjects[j].id != sid) ==> lesson_line(dbi, lesson)
            == Some(decimal(lesson.period as int) + ". Unknown Teacher - Subject not found"@),
        (lesson.subject_id is Some && 0 <= sk < dbi.subjects.len() && dbi.subjects[sk].id
            == lesson.subject_id->0 && (forall|j: int|
            0 <= j < sk ==> dbi.subjects[j].id != lesson.subject_id->0) && (lesson.plan_id is None
            || forall|j: int| 0 <= j < dbi.plans.len() ==> dbi.plans[j].plan_id != lesson.plan_id->0))
            ==> lesson_line(dbi, lesson) == Some(
            decimal(lesson.period as int) + ". Unknown Teacher - "@ + dbi.subjects[sk].name,
        ),
{
    reveal_strlit(". Unknown Teacher - ");
    reveal_strlit(". ");
    reveal_strlit("Unknown Teacher");
    reveal_strlit(" - ");
    if let Some(sid) = lesson.subject_id {
        if forall|j: int| 0 <= j < dbi.subjects.len() ==> dbi.subjects[j].id != sid {
            lemma_index_of_id_missing(subject_ids(dbi.subjects), sid, 0);
        }
        if 0 <= sk < dbi.subjects.len() && dbi.subjects[sk].id == sid && (forall|j: int|
            0 <= j < sk ==> dbi.subjects[j].id != sid) {
            lemma_index_of_id_found(subject_ids(dbi.subjects), sid, 0, sk);
            if let Some(pid) = lesson.plan_id {
                if forall|j: int| 0 <= j < dbi.plans.len() ==> dbi.plans[j].plan_id != pid {
                    lemma_index_of_id_missing(plan_ids(dbi.plans), pid, 0);
                }
            }
            assert(". "@ + "Unknown Teacher"@ + " - "@ =~= ". Unknown Teacher - "@);
            let p = decimal(lesson.period as int);
            assert(p + ". "@ + "Unknown Teacher"@ + " - "@ + dbi.subjects[sk].name =~= p
                + ". Unknown Teacher - "@ + dbi.subjects[sk].name);
        }
    }
}

/// The lines of a day grow by the line of each further lesson that is shown.
pub proof fn lemma_lesson_lines_push(dbi: DbiView, lessons: Seq<Lesson>, l: Lesson)
    ensures
        lesson_lines(dbi, lessons.push(l)) == match lesson_line(dbi, l) {
            Some(line) => lesson_lines(dbi, lessons).push(line),
            None => lesson_lines(dbi, lessons),
        },
{
    assert(lessons.push(l).drop_last() =~= lessons);
}

/// An event without text adds no message line; one with text adds
/// `author: text` after the lines before it.
pub proof fn lemma_message_lines_push(events: Seq<TimelineEventView>, e: TimelineEventView)
    ensures
        e.text.len() == 0 ==> message_lines(events.push(e)) == message_lines(events),
        e.text.len() > 0 ==> message_lines(events.push(e)) == message_lines(events).push(
            e.author.display() + ": "@ + e.text,
        ),
{
    assert(events.push(e).drop_last() =~= events);
}

/// When every event has a text, the `i`-th message line is that of the
/// `i`-th event, and the overview shows the first `MESSAGES_SHOWN` of them.
pub proof fn lemma_messages_of_texts(events: Seq<TimelineEventView>)
    requires
        forall|i: int| 0 <= i < events.len() ==> (#[trigger] events[i]).text.len() > 0,
    ensures
        message_lines(events).len() == events.len(),
        forall|i: int|
            0 <= i < events.len() ==> #[trigger] message_lines(events)[i] == events[i].author.display()
                + ": "@ + events[i].text,
        latest_message_lines(events).len() == if events.len() <= MESSAGES_SHOWN {
            events.len()
        } else {
            MESSAGES_SHOWN as nat
        },
        forall|i: int|
            0 <= i < latest_message_lines(events).len() ==> #[trigger] latest_message_lines(events)[i]
                == events[i].author.display() + ": "@ + events[i].text,
    decreases events.len(),
{
    if events.len() > 0 {
        let rest = events.drop_last();
        assert forall|i: int| 0 <= i < rest.len() implies (#[trigger] rest[i]).text.len() > 0 by {
            assert(rest[i] == events[i]);
        }
        lemma_messages_of_texts(rest);
        assert(events.last() == events[events.len() - 1]);
        let all = message_lines(events);
        assert forall|i: int| 0 <= i < events.len() implies #[trigger] message_lines(events)[i]
            == events[i].author.display() + ": "@ + events[i].text by {
            if i < events.len() - 1 {
                assert(rest[i] == events[i]);
                assert(message_lines(rest)[i] == rest[i].author.display() + ": "@ + rest[i].text);
            }
        }
    }
}

impl DBI {
    /// Who teaches a lesson of the given plan (see [`teacher_label`]).
    fn teacher_of_plan(&self, plan_id: Option<i32>) -> (r: String)
        ensures
            r@ == teacher_label(self@, plan_id),
    {
        proof {
            reveal_strlit("Unknown Teacher");
        }
        let pid = match plan_id {
            None => return String::from_str("Unknown Teacher"),
            Some(pid) => pid,
        };
        let ghost pids = plan_ids(self@.plans);
        let plan = match self.plan_from_id(pid) {
            None => {
                proof {
                    lemma_index_of_id_missing(pids, pid, 0);
                }
                return String::from_str("Unknown Teacher");
            },
            Some(plan) => plan,
        };
        let ghost pk = choose|k: int|
            0 <= k < self.plans@.len() && #[trigger] self.plans@[k].plan_id == pid && plan@
                == self.plans@[k]@ && forall|j: int| 0 <= j < k ==> self.plans@[j].plan_id != pid;
        proof {
            lemma_index_of_id_found(pids, pid, 0, pk);
        }
        if plan.teachers.len() == 0 {
            return String::from_str("Unknown Teacher");
        }
        let tid = plan.teachers[0];
        let ghost tids = teacher_ids(self@.teachers);
        match self.teacher_from_id(tid) {
            None => {
                proof {
                    lemma_index_of_id_missing(tids, tid, 0);
                }
                String::from_str("Unknown Teacher")
            },
            Some(teacher) => {
                let ghost tk = choose|k: int|
                    0 <= k < self.teachers@.len() && #[trigger] self.teachers@[k].id == tid
                        && teacher@ == self.teachers@[k]@ && forall|j: int|
                        0 <= j < k ==> self.teachers@[j].id != tid;
                proof {
                    lemma_index_of_id_found(tids, tid, 0, tk);
                }
                teacher.name()
            },
        }
    }

    /// The line shown for a lesson, if it is shown (see [`lesson_line`]).
    pub fn lesson_line(&self, lesson: &Lesson) -> (r: Option<String>)
        ensures
            match r {
                Some(s) => lesson_line(self@, *lesson) == Some(s@),
                None => lesson_line(self@, *lesson) is None,
            },
    {
        let sid = match lesson.subject_id {
            None => return None,
            Some(sid) => sid,
        };
        let ghost sids = subject_ids(self@.subjects);
        let period = i32_to_string(lesson.period);
        match self.subject_from_id(sid) {
            None => {
                proof {
                    lemma_index_of_id_missing(sids, sid, 0);
                    reveal_strlit(". Unknown Teacher - Subject not found");
                }
                Some(period.concat(". Unknown Teacher - Subject not found"))
            },
            Some(subject) => {
                let ghost sk = choose|k: int|
                    0 <= k < self.subjects@.len() && #[trigger] self.subjects@[k].id == sid
                        && subject@ == self.subjects@[k]@ && forall|j: int|
                        0 <= j < k ==> self.subjects@[j].id != sid;
                proof {
                    lemma_index_of_id_found(sids, sid, 0, sk);
                    reveal_strlit(". ");
                    reveal_strlit(" - ");
                }
                let teacher = self.teacher_of_plan(lesson.plan_id);
                let line = period.concat(". ").concat(teacher.as_str()).concat(" - ").concat(
                    subject.name.as_str(),
                );
                Some(line)
            },
        }
    }

    /// The lines shown for the lessons of a day, in order.
    pub fn lesson_lines(&self, day: &DayPlan) -> (r: Vec<String>)
        ensures
            views(r@) == lesson_lines(self@, day.lessons@),
    {
        let mut out: Vec<String> = Vec::new();
        let mut i: usize = 0;
        while i < day.lessons.len()
            invariant
                i <= day.lessons@.len(),
                views(out@) == lesson_lines(self@, day.lessons@.take(i as int)),
            decreases day.lessons@.len() - i,
        {
            let ghost before = out@;
            let line = self.lesson_line(&day.lessons[i]);
            proof {
                assert(day.lessons@.take(i + 1).drop_last() =~= day.lessons@.take(i as int));
                assert(day.lessons@.take(i + 1).last() == day.lessons@[i as int]);
            }
            match line {
                Some(l) => {
                    let ghost lv = l@;
                    out.push(l);
                    assert(views(out@) =~= views(before).push(lv));
                },
                None => {},
            }
            i = i + 1;
        }
        assert(day.lessons@.take(day.lessons@.len() as int) =~= day.lessons@);
        out
    }
}

impl Data {
    /// The latest messages of the timeline: `author: text` for the first
    /// `MESSAGES_SHOWN` events that have a text, in the order of the timeline.
    pub fn latest_messages(&self) -> (r: Vec<String>)
        ensures
            views(r@) == latest_message_lines(self@.timeline),
    {
        let ghost events = self@.timeline;
        let mut out: Vec<String> = Vec::new();
        let mut i: usize = 0;
        while i < self.timeline.len()
            invariant
                i <= self.timeline@.len(),
                events == views(self.timeline@),
                views(out@) == latest_message_lines(events.take(i as int)),
            decreases self.timeline@.len() - i,
        {
            let ghost before = out@;
            let ghost all_before = message_lines(events.take(i as int));
            proof {
                assert(events.take(i + 1).drop_last() =~= events.take(i as int));
                assert(events.take(i + 1).last() == events[i as int]);
            }
            let e = &self.timeline[i];
            if !e.text.as_str().is_empty() && out.len() < MESSAGES_SHOWN {
                proof {
                    reveal_strlit(": ");
                }
                let line = e.author.to_string().concat(": ").concat(e.text.as_str());
                out.push(line);
                assert(views(out@) =~= views(before).push(line@));
            } else if !e.text.as_str().is_empty() {
                let ghost all_after = message_lines(events.take(i + 1));
                assert(all_after.take(MESSAGES_SHOWN as int) =~= all_before.take(MESSAGES_SHOWN as int));
            }
            i = i + 1;
        }
        assert(events.take(self.timeline@.len() as int) =~= events);
        out
    }
}

} // verus!
