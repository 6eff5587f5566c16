use vstd::prelude::*;

use crate::dao::FranchiseDao;
use crate::proposal::copy_bytes;
use crate::records::{be_value, read_number, Absence, Mark};
use crate::types::{Address, GovError, State};

verus! {

/// One lesson of a class's weekly schedule.
#[derive(Clone, Debug, PartialEq, Eq)]
pub struct SubjectSlot {
    pub id: u64,
    pub day_of_week: usize,
    pub start_time: usize,
    pub end_time: usize,
    pub subject: Vec<u8>,
    pub teacher_id: u64,
}

/// A class of students, with its schedule.
#[derive(Clone, Debug, PartialEq, Eq)]
pub struct Class {
    pub id: u64,
    pub year: usize,
    pub name: Vec<u8>,
    pub schedule: Vec<SubjectSlot>,
}

/// The school's own records: its classes, and the identity behind each
/// employee and student number. Ids are positions; a removed record leaves
/// `None`, so that ids are never reused.
pub struct School {
    pub classes: Vec<Option<Class>>,
    pub employees: Vec<Option<u64>>,
    pub students: Vec<Option<u64>>,
}

/// The number of records of `s` that are present.
pub open spec fn present_count<T>(s: Seq<Option<T>>) -> nat
    decreases s.len(),
{
    if s.len() == 0 {
        0
    } else {
        present_count(s.drop_last()) + if s.last() is Some {
            1nat
        } else {
            0nat
        }
    }
}

/// The present records of `s`, in order.
pub open spec fn present<T>(s: Seq<Option<T>>) -> Seq<T>
    decreases s.len(),
{
    if s.len() == 0 {
        Seq::empty()
    } else if s.last() is Some {
        present(s.drop_last()).push(s.last()->Some_0)
    } else {
        present(s.drop_last())
    }
}

/// Why a board operation of the school by `caller` is rejected, if it is.
pub open spec fn board_gate(dao: &FranchiseDao, caller: Address) -> Option<GovError> {
    if dao.state != State::Active {
        Some(GovError::NotActive)
    } else if !dao.board_members@.contains(caller) {
        Some(GovError::Unauthorized)
    } else {
        None
    }
}

impl SubjectSlot {
    pub open spec fn same_as(&self, o: &SubjectSlot) -> bool {
        &&& self.id == o.id
        &&& self.day_of_week == o.day_of_week
        &&& self.start_time == o.start_time
        &&& self.end_time == o.end_time
        &&& self.subject@ == o.subject@
        &&& self.teacher_id == o.teacher_id
    }
}

impl Class {
    pub open spec fn same_as(&self, o: &Class) -> bool {
        &&& self.id == o.id
        &&& self.year == o.year
        &&& self.name@ == o.name@
        &&& self.schedule@.len() == o.schedule@.len()
        &&& forall|i: int| 0 <= i < self.schedule@.len() ==> (#[trigger] self.schedule@[i]).same_as(&o.schedule@[i])
    }

    /// Some lesson of this class is taught by `teacher_id`, in `subject`
    /// where one is given.
    pub open spec fn taught_by(&self, teacher_id: u64, subject: Option<Seq<u8>>) -> bool {
        exists|i: int|
            0 <= i < self.schedule@.len() && (#[trigger] self.schedule@[i]).teacher_id == teacher_id && (
            subject is None || self.schedule@[i].subject@ == subject->Some_0)
    }
}

fn copy_class(c: &Class) -> (r: Class)
    ensures
        r.same_as(c),
{
    let mut schedule: Vec<SubjectSlot> = Vec::new();
    let mut i: usize = 0;
    while i < c.schedule.len()
        invariant
            i <= c.schedule@.len(),
            schedule@.len() == i,
            forall|j: int| 0 <= j < i ==> (#[trigger] schedule@[j]).same_as(&c.schedule@[j]),
        decreases c.schedule.len() - i,
    {
        let s = &c.schedule[i];
        schedule.push(
            SubjectSlot {
                id: s.id,
                day_of_week: s.day_of_week,
                start_time: s.start_time,
                end_time: s.end_time,
                subject: copy_bytes(&s.subject),
                teacher_id: s.teacher_id,
            },
        );
        i = i + 1;
    }
    Class { id: c.id, year: c.year, name: copy_bytes(&c.name), schedule }
}

/// Checks that `caller` may run a board operation of the school.
fn check_board(dao: &FranchiseDao, caller: Address) -> (r: Result<(), GovError>)
    requires
        dao.wf(),
    ensures
        r == (match board_gate(dao, caller) {
            Some(e) => Err(e),
            None => Ok(()),
        }),
{
    if dao.state != State::Active {
        return Err(GovError::NotActive);
    }
    if !dao.is_board_member(caller) {
        return Err(GovError::Unauthorized);
    }
    Ok(())
}

/// The number of present records.
fn count_present<T>(s: &Vec<Option<T>>) -> (r: usize)
    ensures
        r == present_count(s@),
{
    let mut count: usize = 0;
    let mut i: usize = 0;
    while i < s.len()
        invariant
            i <= s@.len(),
            count <= i,
            count == present_count(s@.subrange(0, i as int)),
        decreases s.len() - i,
    {
        assert(s@.subrange(0, i as int + 1).drop_last() =~= s@.subrange(0, i as int));
        if s[i].is_some() {
            count = count + 1;
        }
        i = i + 1;
    }
    assert(s@.subrange(0, i as int) =~= s@);
    count
}

/// The present identity ids, in order.
fn present_ids(s: &Vec<Option<u64>>) -> (r: Vec<u64>)
    ensures
        r@ == present(s@),
{
    let mut r: Vec<u64> = Vec::new();
    let mut i: usize = 0;
    while i < s.len()
        invariant
            i <= s@.len(),
            r@ == present(s@.subrange(0, i as int)),
        decreases s.len() - i,
    {
        assert(s@.subrange(0, i as int + 1).drop_last() =~= s@.subrange(0, i as int));
        match s[i] {
            Some(v) => r.push(v),
            None => {},
        }
        i = i + 1;
    }
    assert(s@.subrange(0, i as int) =~= s@);
    r
}

impl School {
    pub open spec fn wf(&self) -> bool {
        &&& self.classes@.len() <= u64::MAX
        &&& self.employees@.len() <= u64::MAX
        &&& self.students@.len() <= u64::MAX
        &&& forall|i: int|
            0 <= i < self.classes@.len() && (#[trigger] self.classes@[i]) is Some ==> self.classes@[i]->Some_0.id == i
    }

    /// Class `id` exists.
    pub open spec fn has_class(&self, id: u64) -> bool {
        id < self.classes@.len() && self.classes@[id as int] is Some
    }

    /// Employee `id` is on the staff.
    pub open spec fn has_employee(&self, id: u64) -> bool {
        id < self.employees@.len() && self.employees@[id as int] is Some
    }

    /// Student `id` is enrolled.
    pub open spec fn has_student(&self, id: u64) -> bool {
        id < self.students@.len() && self.students@[id as int] is Some
    }

    pub fn new() -> (r: School)
        ensures
            r.wf(),
            r.classes@.len() == 0,
            r.employees@.len() == 0,
            r.students@.len() == 0,
    {
        School { classes: Vec::new(), employees: Vec::new(), students: Vec::new() }
    }

    /// Opens a class with an empty schedule; returns its id, the next one.
    pub fn create_class(&mut self, dao: &FranchiseDao, caller: Address, year: usize, name: Vec<u8>) -> (r: Result<u64, GovError>)
        requires
            old(self).wf(),
            dao.wf(),
            old(self).classes@.len() < u64::MAX,
        ensures
            final(self).wf(),
            match board_gate(dao, caller) {
                Some(e) => r == Err::<u64, GovError>(e) && *final(self) == *old(self),
                None => {
                    &&& r == Ok::<u64, GovError>(old(self).classes@.len() as u64)
                    &&& final(self).employees == old(self).employees
                    &&& final(self).students == old(self).students
                    &&& final(self).classes@ == old(self).classes@.push(
                        Some(Class { id: old(self).classes@.len() as u64, year, name, schedule: final(self).classes@.last()->Some_0.schedule }),
                    )
                    &&& final(self).classes@.last()->Some_0.schedule@.len() == 0
                },
            },
    {
        check_board(dao, caller)?;
        let id = self.classes.len() as u64;
        self.classes.push(Some(Class { id, year, name, schedule: Vec::new() }));
        Ok(id)
    }

    /// Renames class `id` and sets its year.
    pub fn edit_class(&mut self, dao: &FranchiseDao, caller: Address, class_id: u64, year: usize, name: Vec<u8>) -> (r: Result<(), GovError>)
        requires
            old(self).wf(),
            dao.wf(),
        ensures
            final(self).wf(),
            match board_gate(dao, caller) {
                Some(e) => r == Err::<(), GovError>(e) && *final(self) == *old(self),
                None => if !old(self).has_class(class_id) {
                    r == Err::<(), GovError>(GovError::NotFound) && *final(self) == *old(self)
                } else {
                    let c = old(self).classes@[class_id as int]->Some_0;
                    &&& r is Ok
                    &&& final(self).employees == old(self).employees
                    &&& final(self).students == old(self).students
                    &&& final(self).classes@ == old(self).classes@.update(class_id as int, Some(Class { year, name, ..c }))
                },
            },
    {
        check_board(dao, caller)?;
        if class_id >= self.classes.len() as u64 || self.classes[class_id as usize].is_none() {
            return Err(GovError::NotFound);
        }
        let idx = class_id as usize;
        let old_class = self.classes[idx].take();
        match old_class {
            Some(c) => {
                self.classes.set(idx, Some(Class { id: c.id, year, name, schedule: c.schedule }));
            },
            None => {},
        }
        Ok(())
    }

    /// Replaces the schedule of class `id`.
    pub fn set_class_schedule(&mut self, dao: &FranchiseDao, caller: Address, class_id: u64, schedule: Vec<SubjectSlot>) -> (r: Result<(), GovError>)
        requires
            old(self).wf(),
            dao.wf(),
        ensures
            final(self).wf(),
            match board_gate(dao, caller) {
                Some(e) => r == Err::<(), GovError>(e) && *final(self) == *old(self),
                None => if !old(self).has_class(class_id) {
                    r == Err::<(), GovError>(GovError::NotFound) && *final(self) == *old(self)
                } else {
                    let c = old(self).classes@[class_id as int]->Some_0;
                    &&& r is Ok
                    &&& final(self).employees == old(self).employees
                    &&& final(self).students == old(self).students
                    &&& final(self).classes@ == old(self).classes@.update(class_id as int, Some(Class { schedule, ..c }))
                },
            },
    {
        check_board(dao, caller)?;
        if class_id >= self.classes.len() as u64 || self.classes[class_id as usize].is_none() {
            return Err(GovError::NotFound);
        }
        let idx = class_id as usize;
        let old_class = self.classes[idx].take();
        match old_class {
            Some(c) => {
                self.classes.set(idx, Some(Class { id: c.id, year: c.year, name: c.name, schedule }));
            },
            None => {},
        }
        Ok(())
    }

    /// Deletes class `id`, which must have no students; whether it has any
    /// is for the identity registry to say.
    pub fn delete_class(&mut self, dao: &FranchiseDao, caller: Address, class_id: u64, has_students: bool) -> (r: Result<(), GovError>)
        requires
            old(self).wf(),
            dao.wf(),
        ensures
            final(self).wf(),
            match board_gate(dao, caller) {
                Some(e) => r == Err::<(), GovError>(e) && *final(self) == *old(self),
                None => if !old(self).has_class(class_id) {
                    r == Err::<(), GovError>(GovError::NotFound) && *final(self) == *old(self)
                } else if has_students {
                    r == Err::<(), GovError>(GovError::ClassNotEmpty) && *final(self) == *old(self)
                } else {
                    &&& r is Ok
                    &&& final(self).employees == old(self).employees
                    &&& final(self).students == old(self).students
                    &&& final(self).classes@ == old(self).classes@.update(class_id as int, None)
                },
            },
    {
        check_board(dao, caller)?;
        if class_id >= self.classes.len() as u64 || self.classes[class_id as usize].is_none() {
            return Err(GovError::NotFound);
        }
        if has_students {
            return Err(GovError::ClassNotEmpty);
        }
        self.classes.set(class_id as usize, None);
        Ok(())
    }

    /// The number of classes.
    pub fn classes_count(&self) -> (r: usize)
        ensures
            r == present_count(self.classes@),
    {
        count_present(&self.classes)
    }

    /// Copies of the classes, in id order.
    pub fn get_classes(&self) -> (r: Vec<Class>)
        ensures
            r@.len() == present(self.classes@).len(),
            forall|k: int| 0 <= k < r@.len() ==> (#[trigger] r@[k]).same_as(&present(self.classes@)[k]),
    {
        let mut r: Vec<Class> = Vec::new();
        let mut i: usize = 0;
        while i < self.classes.len()
            invariant
                i <= self.classes@.len(),
                r@.len() == present(self.classes@.subrange(0, i as int)).len(),
                forall|k: int| 0 <= k < r@.len() ==> (#[trigger] r@[k]).same_as(&present(self.classes@.subrange(0, i as int))[k]),
            decreases self.classes.len() - i,
        {
            assert(self.classes@.subrange(0, i as int + 1).drop_last() =~= self.classes@.subrange(0, i as int));
            match &self.classes[i] {
                Some(c) => r.push(copy_class(c)),
                None => {},
            }
            i = i + 1;
        }
        assert(self.classes@.subrange(0, i as int) =~= self.classes@);
        r
    }

    /// The teachers of class `id`'s lessons, each once, in order of first lesson.
    pub fn get_class_teacher_ids(&self, class_id: u64) -> (r: Result<Vec<u64>, GovError>)
        ensures
            !self.has_class(class_id) ==> r == Err::<Vec<u64>, GovError>(GovError::NotFound),
            self.has_class(class_id) ==> (r matches Ok(ids) && ids@.no_duplicates() && forall|t: u64|
                ids@.contains(t) <==> self.classes@[class_id as int]->Some_0.taught_by(t, None)),
    {
        if class_id >= self.classes.len() as u64 {
            return Err(GovError::NotFound);
        }
        let class = match &self.classes[class_id as usize] {
            Some(c) => c,
            None => return Err(GovError::NotFound),
        };
        let mut ids: Vec<u64> = Vec::new();
        let mut i: usize = 0;
        while i < class.schedule.len()
            invariant
                i <= class.schedule@.len(),
                ids@.no_duplicates(),
                forall|t: u64| ids@.contains(t) <==> exists|j: int| 0 <= j < i && (#[trigger] class.schedule@[j]).teacher_id == t,
            decreases class.schedule.len() - i,
        {
            let t = class.schedule[i].teacher_id;
            let mut found = false;
            let mut k: usize = 0;
            while k < ids.len()
                invariant
                    k <= ids@.len(),
                    found <==> exists|m: int| 0 <= m < k && ids@[m] == t,
                decreases ids.len() - k,
            {
                if ids[k] == t {
                    found = true;
                }
                k = k + 1;
            }
            let ghost before = ids@;
            if !found {
                ids.push(t);
                proof {
                    assert forall|a: int, b: int| 0 <= a < ids@.len() && 0 <= b < ids@.len() && a != b implies ids@[a] != ids@[b] by {
                        if a == before.len() {
                            assert(before[b] == ids@[b]);
                        } else if b == before.len() {
                            assert(before[a] == ids@[a]);
                        }
                    }
                }
            }
            proof {
                assert forall|x: u64| ids@.contains(x) <==> exists|j: int| 0 <= j < i + 1 && (#[trigger] class.schedule@[j]).teacher_id == x by {
                    if ids@.contains(x) && !before.contains(x) {
                        let m = choose|m: int| 0 <= m < ids@.len() && ids@[m] == x;
                        if m < before.len() {
                            assert(before[m] == x);
                        }
                        assert(class.schedule@[i as int].teacher_id == x);
                    }
                    if before.contains(x) {
                        let m = choose|m: int| 0 <= m < before.len() && before[m] == x;
                        assert(ids@[m] == x);
                    }
                    if exists|j: int| 0 <= j < i + 1 && (#[trigger] class.schedule@[j]).teacher_id == x {
                        let j = choose|j: int| 0 <= j < i + 1 && (#[trigger] class.schedule@[j]).teacher_id == x;
                        if j == i {
                            if found {
                                let m = choose|m: int| 0 <= m < ids@.len() && ids@[m] == t;
                                assert(ids@.contains(x));
                            } else {
                                assert(ids@[before.len() as int] == x);
                            }
                        }
                    }
                }
            }
            i = i + 1;
        }
        Ok(ids)
    }

    /// Whether `teacher_id` teaches in class `id`: in `subject` where one is
    /// given, in any subject otherwise. A missing class has no teachers.
    pub fn is_teacher_of_class(&self, teacher_id: u64, class_id: u64, subject: Option<&Vec<u8>>) -> (r: bool)
        ensures
            r == (self.has_class(class_id) && self.classes@[class_id as int]->Some_0.taught_by(
                teacher_id,
                match subject {
                    Some(s) => Some(s@),
                    None => None,
                },
            )),
    {
        if class_id >= self.classes.len() as u64 {
            return false;
        }
        let class = match &self.classes[class_id as usize] {
            Some(c) => c,
            None => return false,
        };
        let ghost want: Option<Seq<u8>> = match subject {
            Some(s) => Some(s@),
            None => None,
        };
        let mut i: usize = 0;
        while i < class.schedule.len()
            invariant
                i <= class.schedule@.len(),
                self.has_class(class_id),
                *class == self.classes@[class_id as int]->Some_0,
                want == (match subject {
                    Some(s) => Some(s@),
                    None => None,
                }),
                forall|j: int| 0 <= j < i ==> !((#[trigger] class.schedule@[j]).teacher_id == teacher_id && (
                want is None || class.schedule@[j].subject@ == want->Some_0)),
            decreases class.schedule.len() - i,
        {
            let slot = &class.schedule[i];
            if slot.teacher_id == teacher_id {
                let matches_subject = match subject {
                    None => true,
                    Some(s) => bytes_eq(&slot.subject, s),
                };
                if matches_subject {
                    assert(class.schedule@[i as int].teacher_id == teacher_id);
                    return true;
                }
            }
            i = i + 1;
        }
        false
    }

    /// The number of employees.
    pub fn employees_count(&self) -> (r: usize)
        ensures
            r == present_count(self.employees@),
    {
        count_present(&self.employees)
    }

    /// The identity ids of the employees, in employee-id order.
    pub fn get_employees(&self) -> (r: Vec<u64>)
        ensures
            r@ == present(self.employees@),
    {
        present_ids(&self.employees)
    }

    /// The number of students.
    pub fn students_count(&self) -> (r: usize)
        ensures
            r == present_count(self.students@),
    {
        count_present(&self.students)
    }

    /// The identity ids of the students, in student-id order.
    pub fn get_students(&self) -> (r: Vec<u64>)
        ensures
            r@ == present(self.students@),
    {
        present_ids(&self.students)
    }

    /// The lowest employee id whose identity is `identity_id`.
    pub fn get_employee_id_by_identity_id(&self, identity_id: u64) -> (r: Option<u64>)
        requires
            self.wf(),
        ensures
            r matches Some(e) ==> e < self.employees@.len() && self.employees@[e as int] == Some(identity_id) && forall|j: int|
                0 <= j < e ==> self.employees@[j] != Some(identity_id),
            r is None ==> forall|j: int| 0 <= j < self.employees@.len() ==> self.employees@[j] != Some(identity_id),
    {
        let mut i: usize = 0;
        while i < self.employees.len()
            invariant
                i <= self.employees@.len() <= u64::MAX,
                forall|j: int| 0 <= j < i ==> self.employees@[j] != Some(identity_id),
            decreases self.employees.len() - i,
        {
            if self.employees[i] == Some(identity_id) {
                return Some(i as u64);
            }
            i = i + 1;
        }
        None
    }

    /// Records a new student whose identity is `identity_id`; the registry
    /// says in `is_registered` whether that identity is linked to the school.
    /// Returns the new student id.
    pub fn enroll_student(&mut self, dao: &FranchiseDao, caller: Address, identity_id: u64, is_registered: bool) -> (r: Result<u64, GovError>)
        requires
            old(self).wf(),
            dao.wf(),
            old(self).students@.len() < u64::MAX,
        ensures
            final(self).wf(),
            match board_gate(dao, caller) {
                Some(e) => r == Err::<u64, GovError>(e) && *final(self) == *old(self),
                None => if !is_registered {
                    r == Err::<u64, GovError>(GovError::IdentityNotRegistered) && *final(self) == *old(self)
                } else {
                    &&& r == Ok::<u64, GovError>(old(self).students@.len() as u64)
                    &&& final(self).classes == old(self).classes
                    &&& final(self).employees == old(self).employees
                    &&& final(self).students@ == old(self).students@.push(Some(identity_id))
                },
            },
    {
        check_board(dao, caller)?;
        if !is_registered {
            return Err(GovError::IdentityNotRegistered);
        }
        let id = self.students.len() as u64;
        self.students.push(Some(identity_id));
        Ok(id)
    }

    /// Removes student `id`; returns the identity it had.
    pub fn expell_student(&mut self, dao: &FranchiseDao, caller: Address, student_id: u64) -> (r: Result<u64, GovError>)
        requires
            old(self).wf(),
            dao.wf(),
        ensures
            final(self).wf(),
            match board_gate(dao, caller) {
                Some(e) => r == Err::<u64, GovError>(e) && *final(self) == *old(self),
                None => if !old(self).has_student(student_id) {
                    r == Err::<u64, GovError>(GovError::NotFound) && *final(self) == *old(self)
                } else {
                    &&& r == Ok::<u64, GovError>(old(self).students@[student_id as int]->Some_0)
                    &&& final(self).classes == old(self).classes
                    &&& final(self).employees == old(self).employees
                    &&& final(self).students@ == old(self).students@.update(student_id as int, None)
                },
            },
    {
        check_board(dao, caller)?;
        if student_id >= self.students.len() as u64 {
            return Err(GovError::NotFound);
        }
        match self.students[student_id as usize] {
            None => Err(GovError::NotFound),
            Some(identity) => {
                self.students.set(student_id as usize, None);
                Ok(identity)
            },
        }
    }

    /// Records a new employee whose identity is `identity_id`; the registry
    /// says in `is_registered` whether that identity is linked to the school.
    /// Returns the new employee id.
    pub fn hire_employee(&mut self, dao: &FranchiseDao, caller: Address, identity_id: u64, is_registered: bool) -> (r: Result<u64, GovError>)
        requires
            old(self).wf(),
            dao.wf(),
            old(self).employees@.len() < u64::MAX,
        ensures
            final(self).wf(),
            match board_gate(dao, caller) {
                Some(e) => r == Err::<u64, GovError>(e) && *final(self) == *old(self),
                None => if !is_registered {
                    r == Err::<u64, GovError>(GovError::IdentityNotRegistered) && *final(self) == *old(self)
                } else {
                    &&& r == Ok::<u64, GovError>(old(self).employees@.len() as u64)
                    &&& final(self).classes == old(self).classes
                    &&& final(self).students == old(self).students
                    &&& final(self).employees@ == old(self).employees@.push(Some(identity_id))
                },
            },
    {
        check_board(dao, caller)?;
        if !is_registered {
            return Err(GovError::IdentityNotRegistered);
        }
        let id = self.employees.len() as u64;
        self.employees.push(Some(identity_id));
        Ok(id)
    }

    /// Removes employee `id`; returns the identity it had.
    pub fn fire_employee(&mut self, dao: &FranchiseDao, caller: Address, employee_id: u64) -> (r: Result<u64, GovError>)
        requires
            old(self).wf(),
            dao.wf(),
        ensures
            final(self).wf(),
            match board_gate(dao, caller) {
                Some(e) => r == Err::<u64, GovError>(e) && *final(self) == *old(self),
                None => if !old(self).has_employee(employee_id) {
                    r == Err::<u64, GovError>(GovError::NotFound) && *final(self) == *old(self)
                } else {
                    &&& r == Ok::<u64, GovError>(old(self).employees@[employee_id as int]->Some_0)
                    &&& final(self).classes == old(self).classes
                    &&& final(self).students == old(self).students
                    &&& final(self).employees@ == old(self).employees@.update(employee_id as int, None)
                },
            },
    {
        check_board(dao, caller)?;
        if employee_id >= self.employees.len() as u64 {
            return Err(GovError::NotFound);
        }
        match self.employees[employee_id as usize] {
            None => Err(GovError::NotFound),
            Some(identity) => {
                self.employees.set(employee_id as usize, None);
                Ok(identity)
            },
        }
    }

    /// Checks a salary change of employee `id`; returns the identity whose
    /// salary the registry is to record.
    pub fn change_salary(&self, dao: &FranchiseDao, caller: Address, employee_id: u64) -> (r: Result<u64, GovError>)
        requires
            self.wf(),
            dao.wf(),
        ensures
            r == (match board_gate(dao, caller) {
                Some(e) => Err(e),
                None => if !self.has_employee(employee_id) {
                    Err(GovError::NotFound)
                } else {
                    Ok(self.employees@[employee_id as int]->Some_0)
                },
            }),
    {
        check_board(dao, caller)?;
        if employee_id >= self.employees.len() as u64 {
            return Err(GovError::NotFound);
        }
        match self.employees[employee_id as usize] {
            None => Err(GovError::NotFound),
            Some(identity) => Ok(identity),
        }
    }

    /// Why a teacher's entry for student `id` is rejected, if it is: the
    /// teacher (by identity, as the registry resolves the caller) must be an
    /// employee, the student's class (as the registry holds it, big-endian)
    /// known, and the teacher must teach `subject` in that class.
    pub open spec fn entry_error(
        &self,
        dao: &FranchiseDao,
        student_id: u64,
        teacher_identity: Option<u64>,
        class_value: Option<Seq<u8>>,
        subject: Seq<u8>,
    ) -> Option<GovError> {
        if dao.state != State::Active {
            Some(GovError::NotActive)
        } else if !self.has_student(student_id) {
            Some(GovError::NotFound)
        } else if teacher_identity is None || !(exists|j: int|
            0 <= j < self.employees@.len() && self.employees@[j] == Some(teacher_identity->Some_0)) {
            Some(GovError::NotFound)
        } else if class_value is None {
            Some(GovError::NotFound)
        } else if be_value(class_value->Some_0) > u64::MAX {
            Some(GovError::InvalidArgument)
        } else if !(self.has_class(be_value(class_value->Some_0) as u64) && self.classes@[be_value(
            class_value->Some_0,
        ) as int]->Some_0.taught_by(teacher_identity->Some_0, Some(subject))) {
            Some(GovError::NotTeacherOfClass)
        } else {
            None
        }
    }

    /// The employee id of a teacher identity that `entry_error` accepted.
    fn entry_teacher(
        &self,
        dao: &FranchiseDao,
        student_id: u64,
        teacher_identity: Option<u64>,
        class_value: Option<&Vec<u8>>,
        subject: &Vec<u8>,
    ) -> (r: Result<u64, GovError>)
        requires
            self.wf(),
        ensures
            match self.entry_error(dao, student_id, teacher_identity, match class_value {
                Some(v) => Some(v@),
                None => None,
            }, subject@) {
                Some(e) => r == Err::<u64, GovError>(e),
                None => r matches Ok(t) && self.employees@[t as int] == Some(teacher_identity->Some_0)
                    && forall|j: int| 0 <= j < t ==> self.employees@[j] != Some(teacher_identity->Some_0),
            },
    {
        if dao.state != State::Active {
            return Err(GovError::NotActive);
        }
        if student_id >= self.students.len() as u64 || self.students[student_id as usize].is_none() {
            return Err(GovError::NotFound);
        }
        let identity = match teacher_identity {
            Some(t) => t,
            None => return Err(GovError::NotFound),
        };
        let teacher_id = match self.get_employee_id_by_identity_id(identity) {
            Some(e) => e,
            None => return Err(GovError::NotFound),
        };
        let value = match class_value {
            Some(v) => v,
            None => return Err(GovError::NotFound),
        };
        proof {
            assert(self.employees@[teacher_id as int] == Some(identity));
        }
        let class_id = match read_number(value) {
            Some(c) => c,
            None => return Err(GovError::InvalidArgument),
        };
        if !self.is_teacher_of_class(identity, class_id, Some(subject)) {
            return Err(GovError::NotTeacherOfClass);
        }
        Ok(teacher_id)
    }

    /// The mark that a teacher gives student `id` in `subject` at time `now`,
    /// for the registry to record. See `entry_error` for when it is refused;
    /// the mark names the teacher by employee id.
    pub fn give_mark(
        &self,
        dao: &FranchiseDao,
        student_id: u64,
        teacher_identity: Option<u64>,
        class_value: Option<&Vec<u8>>,
        subject: Vec<u8>,
        score: usize,
        now: u64,
    ) -> (r: Result<Mark, GovError>)
        requires
            self.wf(),
        ensures
            match self.entry_error(dao, student_id, teacher_identity, match class_value {
                Some(v) => Some(v@),
                None => None,
            }, subject@) {
                Some(e) => r matches Err(x) && x == e,
                None => r matches Ok(m) && self.employees@[m.teacher_id as int] == Some(teacher_identity->Some_0)
                    && m.subject@ == subject@ && m.score == score && m.timestamp == now,
            },
    {
        let teacher_id = match self.entry_teacher(dao, student_id, teacher_identity, class_value, &subject) {
            Ok(t) => t,
            Err(e) => return Err(e),
        };
        Ok(Mark { teacher_id, subject, score, timestamp: now })
    }

    /// The unjustified absence that a teacher records for student `id` from
    /// a lesson of `subject` at time `now`, for the registry to record. See
    /// `entry_error` for when it is refused.
    pub fn set_absence(
        &self,
        dao: &FranchiseDao,
        student_id: u64,
        teacher_identity: Option<u64>,
        class_value: Option<&Vec<u8>>,
        day_of_week: usize,
        start_time: usize,
        end_time: usize,
        subject: Vec<u8>,
        now: u64,
    ) -> (r: Result<Absence, GovError>)
        requires
            self.wf(),
        ensures
            match self.entry_error(dao, student_id, teacher_identity, match class_value {
                Some(v) => Some(v@),
                None => None,
            }, subject@) {
                Some(e) => r matches Err(x) && x == e,
                None => r matches Ok(a) && self.employees@[a.employee_id as int] == Some(teacher_identity->Some_0)
                    && a.day_of_week == day_of_week && a.start_time == start_time && a.end_time == end_time
                    && a.subject@ == subject@ && !a.justified && a.reason@.len() == 0 && a.timestamp == now,
            },
    {
        let teacher_id = match self.entry_teacher(dao, student_id, teacher_identity, class_value, &subject) {
            Ok(t) => t,
            Err(e) => return Err(e),
        };
        Ok(Absence {
            employee_id: teacher_id,
            day_of_week,
            start_time,
            end_time,
            subject,
            justified: false,
            reason: Vec::new(),
            timestamp: now,
        })
    }
}

/// Two byte strings are equal.
fn bytes_eq(a: &Vec<u8>, b: &Vec<u8>) -> (r: bool)
    ensures
        r == (a@ == b@),
{
    if a.len() != b.len() {
        return false;
    }
    let mut i: usize = 0;
    while i < a.len()
        invariant
            a@.len() == b@.len(),
            i <= a@.len(),
            forall|j: int| 0 <= j < i ==> a@[j] == b@[j],
        decreases a.len() - i,
    {
        if a[i] != b[i] {
            return false;
        }
        i = i + 1;
    }
    assert(a@ =~= b@);
    true
}

} // verus!
