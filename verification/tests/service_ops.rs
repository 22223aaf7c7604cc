use student_attendance_backend::Error;
use student_attendance_backend::MultiMediaContent;
use student_attendance_backend::RegisterStudentPayload;
use student_attendance_backend::ReminderPayload;
use student_attendance_backend::ScheduleLecturePayload;
use student_attendance_backend::Service;
use student_attendance_backend::UpdateAttendanceRecordPayload;
use student_attendance_backend::UpdateLecturePayload;
use student_attendance_backend::UpdateMessage;
use student_attendance_backend::UpdateStudentPayload;

fn register(s: &mut Service, name: &str, contact: &str, history: &str) -> Result<
    student_attendance_backend::Student,
    Error,
> {
    s.register_student(RegisterStudentPayload {
        name: name.to_string(),
        contact_details: contact.to_string(),
        attendance_history: history.to_string(),
    })
}

#[test]
fn register_and_get_students() {
    let mut s = Service::new();
    let ana = register(&mut s, "Ana", "ana@x.com", "").unwrap();
    assert_eq!(ana.id, 1);
    assert_eq!(ana.name, "Ana");
    let bo = register(&mut s, "Bo", "bo@x.com", "").unwrap();
    assert_eq!(bo.id, 2);
    let got = s.get_student(1).unwrap();
    assert_eq!(got, ana);
    assert!(matches!(s.get_student(3), Err(Error::NotFound { .. })));
}

#[test]
fn register_rejects_empty_name() {
    let mut s = Service::new();
    let r = register(&mut s, "", "x", "y");
    assert!(matches!(r, Err(Error::InvalidInput { .. })));
    assert!(s.list_students().is_empty());
}

#[test]
fn ids_strictly_increase_across_entity_types() {
    let mut s = Service::new();
    let a = register(&mut s, "Ana", "", "").unwrap();
    let l = s
        .schedule_lecture(ScheduleLecturePayload {
            student_id: a.id,
            lecturer_id: 9,
            date_time: 5,
            topic: "Sets".to_string(),
            multimedia_content: None,
        })
        .unwrap();
    assert!(l.id > a.id);
    let m = s
        .send_reminder_to_student(ReminderPayload {
            student_id: a.id,
            content: "come".to_string(),
            multimedia_content: None,
        })
        .unwrap();
    assert!(m.id > l.id);
    let b = register(&mut s, "Bo", "", "").unwrap();
    assert!(b.id > m.id);
    assert_eq!(s.current_id_counter(), b.id);
}

#[test]
fn delete_student_scenario() {
    // register Ana and Bo, delete Ana, then only Bo is left
    let mut s = Service::new();
    let ana = register(&mut s, "Ana", "ana@x.com", "").unwrap();
    assert_eq!(ana.id, 1);
    let bo = register(&mut s, "Bo", "bo@x.com", "").unwrap();
    assert_eq!(bo.id, 2);
    assert!(s.delete_student(1).is_ok());
    assert!(matches!(s.get_student(1), Err(Error::NotFound { .. })));
    let listed = s.list_students();
    assert_eq!(listed.len(), 1);
    assert_eq!(listed[0].id, 2);
    assert_eq!(listed[0].name, "Bo");
}

#[test]
fn delete_missing_id_always_fails() {
    let mut s = Service::new();
    assert!(matches!(s.delete_student(5), Err(Error::NotFound { .. })));
    let _ = register(&mut s, "Ana", "", "").unwrap();
    assert!(matches!(s.delete_student(5), Err(Error::NotFound { .. })));
    assert!(matches!(s.delete_student(5), Err(Error::NotFound { .. })));
    assert!(matches!(s.delete_lecture(5), Err(Error::NotFound { .. })));
    assert!(matches!(
        s.delete_attendance_record(5),
        Err(Error::NotFound { .. })
    ));
    assert!(matches!(s.delete_message(5), Err(Error::NotFound { .. })));
}

#[test]
fn update_after_delete_fails_not_found() {
    let mut s = Service::new();
    let ana = register(&mut s, "Ana", "ana@x.com", "").unwrap();
    assert!(s.delete_student(ana.id).is_ok());
    let r = s.update_student(UpdateStudentPayload {
        id: ana.id,
        name: "Ana2".to_string(),
        contact_details: "".to_string(),
        attendance_history: "".to_string(),
    });
    assert!(matches!(r, Err(Error::NotFound { .. })));
    // the failed update must not have resurrected the record
    assert!(s.list_students().is_empty());
}

#[test]
fn list_students_ascending_and_counted() {
    let mut s = Service::new();
    let mut created: usize = 0;
    for name in ["A", "B", "C", "D", "E"] {
        register(&mut s, name, "", "").unwrap();
        created += 1;
    }
    assert!(s.delete_student(2).is_ok());
    assert!(s.delete_student(4).is_ok());
    let deleted: usize = 2;
    let listed = s.list_students();
    assert_eq!(listed.len(), created - deleted);
    let ids: Vec<u64> = listed.iter().map(|r| r.id).collect();
    assert_eq!(ids, vec![1, 3, 5]);
}

#[test]
fn lecture_scenario_update_empty_topic() {
    // schedule a lecture, then an update with an empty topic is rejected
    let mut s = Service::new();
    register(&mut s, "Ana", "", "").unwrap();
    register(&mut s, "Bo", "", "").unwrap();
    let lecture = s
        .schedule_lecture(ScheduleLecturePayload {
            student_id: 2,
            lecturer_id: 9,
            date_time: 1000,
            topic: "Algebra".to_string(),
            multimedia_content: None,
        })
        .unwrap();
    assert_eq!(lecture.id, 3);
    assert_eq!(lecture.topic, "Algebra");
    let r = s.update_lecture(UpdateLecturePayload {
        lecture_id: 3,
        student_id: 2,
        lecturer_id: 9,
        date_time: 1000,
        topic: String::new(),
        multimedia_content: None,
    });
    assert!(matches!(r, Err(Error::InvalidInput { .. })));
    assert_eq!(s.get_lecture(3).unwrap(), lecture);
}

#[test]
fn schedule_lecture_rejects_empty_topic() {
    let mut s = Service::new();
    let r = s.schedule_lecture(ScheduleLecturePayload {
        student_id: 1,
        lecturer_id: 1,
        date_time: 1,
        topic: String::new(),
        multimedia_content: None,
    });
    assert!(matches!(r, Err(Error::InvalidInput { .. })));
    assert!(s.list_lectures().is_empty());
}

#[test]
fn update_attendance_record_on_empty_store() {
    let mut s = Service::new();
    let r = s.update_attendance_record(UpdateAttendanceRecordPayload {
        record_id: 99,
        student_id: 1,
        attendance_status: "present".to_string(),
    });
    assert!(matches!(r, Err(Error::NotFound { .. })));
    assert!(s.list_attendance_records().is_empty());
}

#[test]
fn attendance_update_allows_empty_status() {
    // unlike students, lectures and messages, attendance carries no
    // emptiness validation; a missing id is still the only failure
    let mut s = Service::new();
    let r = s.update_attendance_record(UpdateAttendanceRecordPayload {
        record_id: 1,
        student_id: 1,
        attendance_status: String::new(),
    });
    assert!(matches!(r, Err(Error::NotFound { .. })));
}

#[test]
fn reminder_checks_content_and_existence() {
    let mut s = Service::new();
    // empty content is rejected even when the student does not exist
    let r = s.send_reminder_to_student(ReminderPayload {
        student_id: 77,
        content: String::new(),
        multimedia_content: None,
    });
    assert!(matches!(r, Err(Error::InvalidInput { .. })));
    // a missing student fails with NotFound
    let r = s.send_reminder_to_student(ReminderPayload {
        student_id: 77,
        content: "come to class".to_string(),
        multimedia_content: None,
    });
    assert!(matches!(r, Err(Error::NotFound { .. })));
    // with the student present the message is stored, from sender 0
    let ana = register(&mut s, "Ana", "", "").unwrap();
    let m = s
        .send_reminder_to_student(ReminderPayload {
            student_id: ana.id,
            content: "come to class".to_string(),
            multimedia_content: Some(MultiMediaContent {
                image_url: None,
                video_url: Some("https://example.com/v.mp4".to_string()),
                audio_url: None,
            }),
        })
        .unwrap();
    assert_eq!(m.sender_id, 0);
    assert_eq!(m.receiver_id, ana.id);
    assert_eq!(m.content, "come to class");
    let listed = s.list_messages();
    assert_eq!(listed.len(), 1);
    assert_eq!(listed[0], m);
}

#[test]
fn update_and_delete_message() {
    let mut s = Service::new();
    let ana = register(&mut s, "Ana", "", "").unwrap();
    let m = s
        .send_reminder_to_student(ReminderPayload {
            student_id: ana.id,
            content: "first".to_string(),
            multimedia_content: None,
        })
        .unwrap();
    let r = s.update_message(UpdateMessage {
        message_id: m.id,
        sender_id: 4,
        receiver_id: 5,
        content: "second".to_string(),
        multimedia_content: None,
    });
    let updated = r.unwrap();
    assert_eq!(updated.content, "second");
    assert_eq!(updated.sender_id, 4);
    let r = s.update_message(UpdateMessage {
        message_id: m.id,
        sender_id: 4,
        receiver_id: 5,
        content: String::new(),
        multimedia_content: None,
    });
    assert!(matches!(r, Err(Error::InvalidInput { .. })));
    assert!(s.delete_message(m.id).is_ok());
    assert!(matches!(s.delete_message(m.id), Err(Error::NotFound { .. })));
    assert!(s.list_messages().is_empty());
}

#[test]
fn update_student_replaces_whole_record() {
    let mut s = Service::new();
    let ana = register(&mut s, "Ana", "ana@x.com", "h1").unwrap();
    let updated = s
        .update_student(UpdateStudentPayload {
            id: ana.id,
            name: "Ana Maria".to_string(),
            contact_details: "am@x.com".to_string(),
            attendance_history: "h2".to_string(),
        })
        .unwrap();
    assert_eq!(updated.id, ana.id);
    assert_eq!(updated.name, "Ana Maria");
    let got = s.get_student(ana.id).unwrap();
    assert_eq!(got, updated);
}

#[test]
fn underscore_lookups_return_options() {
    let mut s = Service::new();
    assert!(s._get_student(&1).is_none());
    assert!(s._get_lecture(&1).is_none());
    assert!(s._get_attendance_record(&1).is_none());
    let ana = register(&mut s, "Ana", "", "").unwrap();
    assert_eq!(s._get_student(&ana.id).unwrap(), ana);
}

#[test]
fn stores_are_independent() {
    let mut s = Service::new();
    let ana = register(&mut s, "Ana", "", "").unwrap();
    let lecture = s
        .schedule_lecture(ScheduleLecturePayload {
            student_id: ana.id,
            lecturer_id: 2,
            date_time: 3,
            topic: "T".to_string(),
            multimedia_content: None,
        })
        .unwrap();
    // the lecture id is never visible in the student store
    assert!(matches!(s.get_student(lecture.id), Err(Error::NotFound { .. })));
    assert!(s.delete_student(ana.id).is_ok());
    assert_eq!(s.get_lecture(lecture.id).unwrap(), lecture);
}
