use franchise_dao::dao::FranchiseDao;
use franchise_dao::records::{Absence, Mark};
use franchise_dao::school::{School, SubjectSlot};
use franchise_dao::types::{Address, GovError, TokenId};

const BOARD: Address = Address(1);
const STRANGER: Address = Address(2);

fn active_dao() -> FranchiseDao {
    let mut dao = FranchiseDao::new(BOARD, TokenId(100));
    dao.set_quorum(BOARD, 1).unwrap();
    dao.set_voting_period(BOARD, 10).unwrap();
    dao.set_state_active(BOARD).unwrap();
    dao
}

fn slot(id: u64, subject: &[u8], teacher_id: u64) -> SubjectSlot {
    SubjectSlot { id, day_of_week: 1, start_time: 800, end_time: 850, subject: subject.to_vec(), teacher_id }
}

#[test]
fn classes_lifecycle() {
    let dao = active_dao();
    let mut school = School::new();
    assert_eq!(school.create_class(&dao, STRANGER, 5, b"5A".to_vec()), Err(GovError::Unauthorized));
    assert_eq!(school.create_class(&dao, BOARD, 5, b"5A".to_vec()), Ok(0));
    assert_eq!(school.create_class(&dao, BOARD, 6, b"6B".to_vec()), Ok(1));
    assert_eq!(school.edit_class(&dao, BOARD, 1, 7, b"7B".to_vec()), Ok(()));
    assert_eq!(school.edit_class(&dao, BOARD, 2, 7, b"7C".to_vec()), Err(GovError::NotFound));
    assert_eq!(school.classes_count(), 2);
    assert_eq!(school.delete_class(&dao, BOARD, 0, true), Err(GovError::ClassNotEmpty));
    assert_eq!(school.delete_class(&dao, BOARD, 0, false), Ok(()));
    assert_eq!(school.delete_class(&dao, BOARD, 0, false), Err(GovError::NotFound));
    assert_eq!(school.classes_count(), 1);
    let classes = school.get_classes();
    assert_eq!(classes.len(), 1);
    assert_eq!(classes[0].id, 1);
    assert_eq!(classes[0].year, 7);
    assert_eq!(classes[0].name, b"7B".to_vec());
    assert_eq!(school.create_class(&dao, BOARD, 1, b"1A".to_vec()), Ok(2));
}

#[test]
fn school_operations_need_active_state() {
    let dao = FranchiseDao::new(BOARD, TokenId(100));
    let mut school = School::new();
    assert_eq!(school.create_class(&dao, BOARD, 5, b"5A".to_vec()), Err(GovError::NotActive));
    assert_eq!(school.hire_employee(&dao, BOARD, 9, true), Err(GovError::NotActive));
}

#[test]
fn schedule_teachers_are_listed_once() {
    let dao = active_dao();
    let mut school = School::new();
    let id = school.create_class(&dao, BOARD, 5, b"5A".to_vec()).unwrap();
    let schedule = vec![slot(0, b"math", 4), slot(1, b"art", 2), slot(2, b"physics", 4)];
    assert_eq!(school.set_class_schedule(&dao, BOARD, id, schedule), Ok(()));
    assert_eq!(school.get_class_teacher_ids(id), Ok(vec![4, 2]));
    assert_eq!(school.get_class_teacher_ids(id + 1), Err(GovError::NotFound));
    assert!(school.is_teacher_of_class(4, id, None));
    assert!(school.is_teacher_of_class(4, id, Some(&b"physics".to_vec())));
    assert!(!school.is_teacher_of_class(2, id, Some(&b"math".to_vec())));
    assert!(!school.is_teacher_of_class(3, id, None));
    assert!(!school.is_teacher_of_class(4, id + 1, None));
}

#[test]
fn staff_and_students() {
    let dao = active_dao();
    let mut school = School::new();
    assert_eq!(school.hire_employee(&dao, BOARD, 40, false), Err(GovError::IdentityNotRegistered));
    assert_eq!(school.hire_employee(&dao, BOARD, 40, true), Ok(0));
    assert_eq!(school.hire_employee(&dao, BOARD, 41, true), Ok(1));
    assert_eq!(school.enroll_student(&dao, BOARD, 70, true), Ok(0));
    assert_eq!(school.enroll_student(&dao, STRANGER, 71, true), Err(GovError::Unauthorized));
    assert_eq!(school.employees_count(), 2);
    assert_eq!(school.get_employees(), vec![40, 41]);
    assert_eq!(school.get_employee_id_by_identity_id(41), Some(1));
    assert_eq!(school.get_employee_id_by_identity_id(99), None);
    assert_eq!(school.change_salary(&dao, BOARD, 1), Ok(41));
    assert_eq!(school.fire_employee(&dao, BOARD, 0), Ok(40));
    assert_eq!(school.fire_employee(&dao, BOARD, 0), Err(GovError::NotFound));
    assert_eq!(school.change_salary(&dao, BOARD, 0), Err(GovError::NotFound));
    assert_eq!(school.get_employees(), vec![41]);
    assert_eq!(school.students_count(), 1);
    assert_eq!(school.get_students(), vec![70]);
    assert_eq!(school.expell_student(&dao, BOARD, 0), Ok(70));
    assert_eq!(school.expell_student(&dao, BOARD, 0), Err(GovError::NotFound));
    assert_eq!(school.students_count(), 0);
}

#[test]
fn marks_and_absences_from_teachers() {
    let dao = active_dao();
    let mut school = School::new();
    let class_id = school.create_class(&dao, BOARD, 5, b"5A".to_vec()).unwrap();
    school.set_class_schedule(&dao, BOARD, class_id, vec![slot(0, b"math", 40)]).unwrap();
    school.hire_employee(&dao, BOARD, 30, true).unwrap();
    let teacher = school.hire_employee(&dao, BOARD, 40, true).unwrap();
    let student = school.enroll_student(&dao, BOARD, 70, true).unwrap();
    let class_value = vec![class_id as u8];
    let mark = school.give_mark(&dao, student, Some(40), Some(&class_value), b"math".to_vec(), 9, 1234);
    assert_eq!(mark, Ok(Mark { teacher_id: teacher, subject: b"math".to_vec(), score: 9, timestamp: 1234 }));
    assert_eq!(
        school.give_mark(&dao, student, Some(40), Some(&class_value), b"art".to_vec(), 9, 1).err(),
        Some(GovError::NotTeacherOfClass)
    );
    assert_eq!(
        school.give_mark(&dao, student, Some(41), Some(&class_value), b"math".to_vec(), 9, 1).err(),
        Some(GovError::NotFound)
    );
    assert_eq!(school.give_mark(&dao, student, None, Some(&class_value), b"math".to_vec(), 9, 1).err(), Some(GovError::NotFound));
    assert_eq!(school.give_mark(&dao, student, Some(40), None, b"math".to_vec(), 9, 1).err(), Some(GovError::NotFound));
    assert_eq!(school.give_mark(&dao, student + 1, Some(40), Some(&class_value), b"math".to_vec(), 9, 1).err(), Some(GovError::NotFound));
    let absence = school.set_absence(&dao, student, Some(40), Some(&class_value), 2, 800, 850, b"math".to_vec(), 99);
    assert_eq!(
        absence,
        Ok(Absence {
            employee_id: teacher,
            day_of_week: 2,
            start_time: 800,
            end_time: 850,
            subject: b"math".to_vec(),
            justified: false,
            reason: Vec::new(),
            timestamp: 99,
        })
    );
    let huge = vec![1u8; 9];
    assert_eq!(school.set_absence(&dao, student, Some(40), Some(&huge), 2, 800, 850, b"math".to_vec(), 99).err(), Some(GovError::InvalidArgument));
}
