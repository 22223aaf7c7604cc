//! The operation layer: one owned service value holding the four durable
//! record stores and the shared identifier counter, with create / read /
//! update / delete / list operations per entity type.
//!
//! The abstract state of a service is a `ServiceV`: the counter value and
//! four maps from id to record model. The well-formedness predicate `wf`
//! ties each store's bytes to the model: every stored byte string is the
//! encoding of the model record under the same key, every record carries
//! its own key as id, every encoding fits the byte budget, and every live
//! id is positive and at most the counter value.
//!
//! Update operations use an explicit existence check before the insert, so
//! that an update of a missing id fails with `NotFound` and leaves the
//! store unchanged; the observable error behaviour is the same as
//! reinterpreting the insert's missing previous value.

use crate::codec::enc_attendance;
use crate::codec::enc_lecture;
use crate::codec::enc_message;
use crate::codec::enc_student;
use crate::codec::encode_student;
use crate::codec::decode_student;
use crate::codec::decode_lecture;
use crate::codec::decode_attendance;
use crate::codec::decode_message;
use crate::codec::encode_lecture;
use crate::codec::encode_attendance;
use crate::codec::encode_message;
use crate::codec::attendance_fits;
use crate::codec::lecture_fits;
use crate::codec::message_fits;
use crate::codec::student_fits;
use crate::codec::lemma_student_fits_ok;
use crate::codec::lemma_student_round_trip;
use crate::codec::lemma_lecture_fits_ok;
use crate::codec::lemma_lecture_round_trip;
use crate::codec::lemma_attendance_fits_ok;
use crate::codec::lemma_attendance_round_trip;
use crate::codec::lemma_message_fits_ok;
use crate::codec::lemma_message_round_trip;
use crate::store::counter_get;
use crate::store::counter_set;
use crate::store::counter_value;
use crate::store::new_counter;
use crate::store::new_store;
use crate::store::store_contents;
use crate::store::store_entries;
use crate::store::store_get;
use crate::store::store_insert;
use crate::store::store_remove;
use crate::store::ByteStore;
use crate::store::IdCell;
use crate::types::is_invalid_input;
use crate::types::is_not_found;
use crate::types::AttendanceRecordV;
use crate::types::Error;
use crate::types::LectureV;
use crate::types::MessageV;
use crate::types::RegisterStudentPayload;
use crate::types::Student;
use crate::types::StudentV;
use crate::types::UpdateStudentPayload;
use crate::types::view_opt_mmc;
use crate::types::Lecture;
use crate::types::AttendanceRecord;
use crate::types::Message;
use crate::types::ScheduleLecturePayload;
use crate::types::UpdateLecturePayload;
use crate::types::UpdateAttendanceRecordPayload;
use crate::types::ReminderPayload;
use crate::types::UpdateMessage;
use vstd::bytes::lemma_auto_spec_u64_to_from_le_bytes;
use vstd::prelude::*;

verus! {

/// The abstract state of the service.
#[verifier::ext_equal]
pub struct ServiceV {
    pub next_id: u64,
    pub students: Map<u64, StudentV>,
    pub lectures: Map<u64, LectureV>,
    pub attendance_records: Map<u64, AttendanceRecordV>,
    pub messages: Map<u64, MessageV>,
}

/// The abstract state of a service with nothing stored yet.
pub open spec fn empty_service() -> ServiceV {
    ServiceV {
        next_id: 0,
        students: Map::empty(),
        lectures: Map::empty(),
        attendance_records: Map::empty(),
        messages: Map::empty(),
    }
}

/// The student record that `register_student` builds from its payload.
pub open spec fn student_of_register(p: RegisterStudentPayload, id: u64) -> StudentV {
    StudentV {
        id,
        name: p.name@,
        contact_details: p.contact_details@,
        attendance_history: p.attendance_history@,
    }
}

/// The student record that `update_student` builds from its payload.
pub open spec fn student_of_update(p: UpdateStudentPayload) -> StudentV {
    StudentV {
        id: p.id,
        name: p.name@,
        contact_details: p.contact_details@,
        attendance_history: p.attendance_history@,
    }
}

/// The lecture record that `schedule_lecture` builds from its payload.
pub open spec fn lecture_of_schedule(p: ScheduleLecturePayload, id: u64) -> LectureV {
    LectureV {
        id,
        student_id: p.student_id,
        lecturer_id: p.lecturer_id,
        date_time: p.date_time,
        topic: p.topic@,
        multimedia_content: view_opt_mmc(p.multimedia_content),
    }
}

/// The lecture record that `update_lecture` builds from its payload.
pub open spec fn lecture_of_update(p: UpdateLecturePayload) -> LectureV {
    LectureV {
        id: p.lecture_id,
        student_id: p.student_id,
        lecturer_id: p.lecturer_id,
        date_time: p.date_time,
        topic: p.topic@,
        multimedia_content: view_opt_mmc(p.multimedia_content),
    }
}

/// The attendance record that `update_attendance_record` builds.
pub open spec fn attendance_of_update(p: UpdateAttendanceRecordPayload) -> AttendanceRecordV {
    AttendanceRecordV {
        id: p.record_id,
        student_id: p.student_id,
        attendance_status: p.attendance_status@,
    }
}

/// The message that `send_reminder_to_student` builds: the system (sender 0)
/// writes to the student.
pub open spec fn message_of_reminder(p: ReminderPayload, id: u64) -> MessageV {
    MessageV {
        id,
        sender_id: 0,
        receiver_id: p.student_id,
        content: p.content@,
        multimedia_content: view_opt_mmc(p.multimedia_content),
    }
}

/// The message record that `update_message` builds from its payload.
pub open spec fn message_of_update(p: UpdateMessage) -> MessageV {
    MessageV {
        id: p.message_id,
        sender_id: p.sender_id,
        receiver_id: p.receiver_id,
        content: p.content@,
        multimedia_content: view_opt_mmc(p.multimedia_content),
    }
}

/// The record-management service: four durable stores and the shared
/// identifier counter, together with the ghost model of their contents.
pub struct Service {
    counter: IdCell,
    students: ByteStore,
    lectures: ByteStore,
    attendance_records: ByteStore,
    messages: ByteStore,
    students_model: Ghost<Map<u64, StudentV>>,
    lectures_model: Ghost<Map<u64, LectureV>>,
    attendance_model: Ghost<Map<u64, AttendanceRecordV>>,
    messages_model: Ghost<Map<u64, MessageV>>,
}

impl View for Service {
    type V = ServiceV;

    closed spec fn view(&self) -> ServiceV {
        ServiceV {
            next_id: counter_value(self.counter),
            students: self.students_model@,
            lectures: self.lectures_model@,
            attendance_records: self.attendance_model@,
            messages: self.messages_model@,
        }
    }
}

impl Service {
    /// The store of students matches its model, record by record.
    pub closed spec fn students_wf(self) -> bool {
        &&& self@.students.dom().finite()
        &&& store_contents(self.students).dom() == self@.students.dom()
        &&& forall|k: u64| #[trigger]
            self@.students.contains_key(k) ==> {
                &&& store_contents(self.students)[k] == enc_student(self@.students[k])
                &&& self@.students[k].id == k
                &&& student_fits(self@.students[k])
                &&& 1 <= k <= self@.next_id
            }
    }

    /// The store of lectures matches its model, record by record.
    pub closed spec fn lectures_wf(self) -> bool {
        &&& self@.lectures.dom().finite()
        &&& store_contents(self.lectures).dom() == self@.lectures.dom()
        &&& forall|k: u64| #[trigger]
            self@.lectures.contains_key(k) ==> {
                &&& store_contents(self.lectures)[k] == enc_lecture(self@.lectures[k])
                &&& self@.lectures[k].id == k
                &&& lecture_fits(self@.lectures[k])
                &&& 1 <= k <= self@.next_id
            }
    }

    /// The store of attendance records matches its model, record by record.
    pub closed spec fn attendance_wf(self) -> bool {
        &&& self@.attendance_records.dom().finite()
        &&& store_contents(self.attendance_records).dom() == self@.attendance_records.dom()
        &&& forall|k: u64| #[trigger]
            self@.attendance_records.contains_key(k) ==> {
                &&& store_contents(self.attendance_records)[k] == enc_attendance(
                    self@.attendance_records[k],
                )
                &&& self@.attendance_records[k].id == k
                &&& attendance_fits(self@.attendance_records[k])
                &&& 1 <= k <= self@.next_id
            }
    }

    /// The store of messages matches its model, record by record.
    pub closed spec fn messages_wf(self) -> bool {
        &&& self@.messages.dom().finite()
        &&& store_contents(self.messages).dom() == self@.messages.dom()
        &&& forall|k: u64| #[trigger]
            self@.messages.contains_key(k) ==> {
                &&& store_contents(self.messages)[k] == enc_message(self@.messages[k])
                &&& self@.messages[k].id == k
                &&& message_fits(self@.messages[k])
                &&& 1 <= k <= self@.next_id
            }
    }

    /// Well-formedness: every store matches its model.
    pub open spec fn wf(self) -> bool {
        &&& self.students_wf()
        &&& self.lectures_wf()
        &&& self.attendance_wf()
        &&& self.messages_wf()
    }

    /// Creates a service with empty stores and the counter at zero.
    pub fn new() -> (s: Service)
        ensures
            s.wf(),
            s@ == empty_service(),
    {
        let s = Service {
            counter: new_counter(0),
            students: new_store(),
            lectures: new_store(),
            attendance_records: new_store(),
            messages: new_store(),
            students_model: Ghost(Map::empty()),
            lectures_model: Ghost(Map::empty()),
            attendance_model: Ghost(Map::empty()),
            messages_model: Ghost(Map::empty()),
        };
        proof {
            assert(store_contents(s.students).dom() =~= s@.students.dom());
            assert(store_contents(s.lectures).dom() =~= s@.lectures.dom());
            assert(store_contents(s.attendance_records).dom() =~= s@.attendance_records.dom());
            assert(store_contents(s.messages).dom() =~= s@.messages.dom());
            assert(s@ =~= empty_service());
        }
        s
    }

    /// The current value of the identifier counter: the last id handed
    /// out, or zero when none has been yet.
    pub fn current_id_counter(&self) -> (v: u64)
        ensures
            v == self@.next_id,
    {
        counter_get(&self.counter)
    }

    /// Allocates the next identifier: increments the persistent counter and
    /// returns the new value.
    fn alloc_id(&mut self) -> (id: u64)
        requires
            counter_value(old(self).counter) < u64::MAX,
        ensures
            id == counter_value(old(self).counter) + 1,
            counter_value(final(self).counter) == id,
            final(self).students == old(self).students,
            final(self).lectures == old(self).lectures,
            final(self).attendance_records == old(self).attendance_records,
            final(self).messages == old(self).messages,
            final(self).students_model == old(self).students_model,
            final(self).lectures_model == old(self).lectures_model,
            final(self).attendance_model == old(self).attendance_model,
            final(self).messages_model == old(self).messages_model,
    {
        let cur = counter_get(&self.counter);
        let id = cur + 1;
        let _prev = counter_set(&mut self.counter, id);
        id
    }

    /// Registers a new student: rejects an empty name, otherwise allocates
    /// a fresh id, stores the record and returns it. The fresh id is
    /// strictly greater than every id ever allocated before.
    pub fn register_student(&mut self, payload: RegisterStudentPayload) -> (r: Result<
        Student,
        Error,
    >)
        requires
            old(self).wf(),
            payload.name@.len() > 0 ==> old(self)@.next_id < u64::MAX,
            payload.name@.len() > 0 ==> student_fits(student_of_register(payload, 0)),
        ensures
            final(self).wf(),
            r is Ok <==> payload.name@.len() > 0,
            r matches Err(e) ==> is_invalid_input(e) && final(self)@ == old(self)@,
            r matches Ok(s) ==> {
                &&& s.id == old(self)@.next_id + 1
                &&& s@ == student_of_register(payload, s.id)
                &&& final(self)@.next_id == old(self)@.next_id + 1
                &&& final(self)@.students == old(self)@.students.insert(s.id, s@)
                &&& final(self)@.lectures == old(self)@.lectures
                &&& final(self)@.attendance_records == old(self)@.attendance_records
                &&& final(self)@.messages == old(self)@.messages
                &&& !old(self)@.students.contains_key(s.id)
                &&& final(self)@.students.dom().len() == old(self)@.students.dom().len() + 1
                &&& forall|k: u64| #[trigger]
                    old(self)@.students.contains_key(k) ==> k < s.id
            },
    {
        if payload.name.as_str().unicode_len() == 0 {
            return Err(
                Error::InvalidInput { msg: String::from_str("Name cannot be empty") },
            );
        }
        let id = self.alloc_id();
        let student = Student {
            id,
            name: payload.name,
            contact_details: payload.contact_details,
            attendance_history: payload.attendance_history,
        };
        let bytes = encode_student(&student);
        proof {
            lemma_auto_spec_u64_to_from_le_bytes();
            assert(student_fits(student@));
        }
        let _prev = store_insert(&mut self.students, id, bytes);
        proof {
            broadcast use vstd::set::axiom_set_insert_len;

            self.students_model@ = self.students_model@.insert(id, student@);
            assert(store_contents(self.students).dom() =~= self@.students.dom());
        }
        Ok(student)
    }

    /// Point lookup of a student by id; `None` when the id is absent.
    pub fn _get_student(&self, student_id: &u64) -> (r: Option<Student>)
        requires
            self.wf(),
        ensures
            r matches Some(s) ==> self@.students.contains_key(*student_id) && s@
                == self@.students[*student_id],
            r is None ==> !self@.students.contains_key(*student_id),
    {
        match store_get(&self.students, *student_id) {
            None => None,
            Some(bytes) => {
                proof {
                    lemma_student_fits_ok(self@.students[*student_id]);
                    lemma_student_round_trip(self@.students[*student_id]);
                }
                decode_student(&bytes)
            },
        }
    }

    /// Looks a student up by id, or fails with `NotFound`.
    pub fn get_student(&self, student_id: u64) -> (r: Result<Student, Error>)
        requires
            self.wf(),
        ensures
            r is Ok <==> self@.students.contains_key(student_id),
            r matches Ok(s) ==> s@ == self@.students[student_id],
            r matches Err(e) ==> is_not_found(e),
    {
        match self._get_student(&student_id) {
            Some(s) => Ok(s),
            None => Err(Error::NotFound { msg: String::from_str("Student not found") }),
        }
    }

    /// Replaces the student stored under the payload's id: rejects an empty
    /// name, fails with `NotFound` when the id is absent, and otherwise
    /// overwrites the full record and returns it.
    pub fn update_student(&mut self, payload: UpdateStudentPayload) -> (r: Result<Student, Error>)
        requires
            old(self).wf(),
            payload.name@.len() > 0 && old(self)@.students.contains_key(payload.id)
                ==> student_fits(student_of_update(payload)),
        ensures
            final(self).wf(),
            r is Ok <==> payload.name@.len() > 0 && old(self)@.students.contains_key(payload.id),
            r is Err ==> final(self)@ == old(self)@,
            payload.name@.len() == 0 ==> (r matches Err(e) && is_invalid_input(e)),
            payload.name@.len() > 0 && !old(self)@.students.contains_key(payload.id) ==> (
            r matches Err(e) && is_not_found(e)),
            r matches Ok(s) ==> {
                &&& s@ == student_of_update(payload)
                &&& final(self)@.next_id == old(self)@.next_id
                &&& final(self)@.students == old(self)@.students.insert(payload.id, s@)
                &&& final(self)@.lectures == old(self)@.lectures
                &&& final(self)@.attendance_records == old(self)@.attendance_records
                &&& final(self)@.messages == old(self)@.messages
            },
    {
        if payload.name.as_str().unicode_len() == 0 {
            return Err(
                Error::InvalidInput { msg: String::from_str("Name cannot be empty") },
            );
        }
        match store_get(&self.students, payload.id) {
            None => Err(Error::NotFound { msg: String::from_str("Student not found") }),
            Some(_) => {
                let student = Student {
                    id: payload.id,
                    name: payload.name,
                    contact_details: payload.contact_details,
                    attendance_history: payload.attendance_history,
                };
                let bytes = encode_student(&student);
                let _prev = store_insert(&mut self.students, student.id, bytes);
                proof {
                    self.students_model@ = self.students_model@.insert(payload.id, student@);
                    assert(store_contents(self.students).dom() =~= self@.students.dom());
                }
                Ok(student)
            },
        }
    }

    /// Deletes the student stored under the id, or fails with `NotFound`.
    /// Deleting an absent id always fails, whatever came before.
    pub fn delete_student(&mut self, student_id: u64) -> (r: Result<(), Error>)
        requires
            old(self).wf(),
        ensures
            final(self).wf(),
            r is Ok <==> old(self)@.students.contains_key(student_id),
            r matches Err(e) ==> is_not_found(e) && final(self)@ == old(self)@,
            r is Ok ==> {
                &&& final(self)@.next_id == old(self)@.next_id
                &&& final(self)@.students == old(self)@.students.remove(student_id)
                &&& final(self)@.students.dom().len() == old(self)@.students.dom().len() - 1
                &&& final(self)@.lectures == old(self)@.lectures
                &&& final(self)@.attendance_records == old(self)@.attendance_records
                &&& final(self)@.messages == old(self)@.messages
            },
    {
        match store_remove(&mut self.students, student_id) {
            None => {
                proof {
                    assert(store_contents(self.students).dom() =~= self@.students.dom());
                    assert(final(self)@ =~= old(self)@);
                }
                Err(Error::NotFound { msg: String::from_str("Student not found") })
            },
            Some(_) => {
                proof {
                    broadcast use vstd::set::axiom_set_remove_len;

                    self.students_model@ = self.students_model@.remove(student_id);
                    assert(store_contents(self.students).dom() =~= self@.students.dom());
                }
                Ok(())
            },
        }
    }

    /// Lists all students in ascending id order; the length equals the
    /// number of live student records.
    pub fn list_students(&self) -> (r: Vec<Student>)
        requires
            self.wf(),
        ensures
            r@.len() == self@.students.dom().len(),
            forall|i: int|
                0 <= i < r@.len() ==> self@.students.contains_key((#[trigger] r@[i]).id) && r@[i]@
                    == self@.students[r@[i].id],
            forall|i: int, j: int|
                0 <= i < j < r@.len() ==> (#[trigger] r@[i]).id < (#[trigger] r@[j]).id,
            forall|k: u64| #[trigger]
                self@.students.contains_key(k) ==> exists|i: int|
                    0 <= i < r@.len() && (#[trigger] r@[i]).id == k,
    {
        let entries = store_entries(&self.students);
        let mut out: Vec<Student> = Vec::new();
        let mut idx: usize = 0;
        while idx < entries.len()
            invariant
                self.wf(),
                idx <= entries@.len(),
                out@.len() == idx,
                forall|i: int|
                    0 <= i < entries@.len() ==> store_contents(self.students).contains_key(
                        (#[trigger] entries@[i]).0,
                    ) && entries@[i].1@ == store_contents(self.students)[entries@[i].0],
                forall|i: int, j: int|
                    0 <= i < j < entries@.len() ==> (#[trigger] entries@[i]).0 < (
                    #[trigger] entries@[j]).0,
                forall|k: u64| #[trigger]
                    store_contents(self.students).contains_key(k) ==> exists|i: int|
                        0 <= i < entries@.len() && (#[trigger] entries@[i]).0 == k,
                forall|j: int|
                    0 <= j < idx ==> (#[trigger] out@[j]).id == entries@[j].0 && out@[j]@
                        == self@.students[entries@[j].0],
            decreases entries@.len() - idx,
        {
            let pair = &entries[idx];
            proof {
                lemma_student_fits_ok(self@.students[entries@[idx as int].0]);
                lemma_student_round_trip(self@.students[entries@[idx as int].0]);
            }
            match decode_student(&pair.1) {
                Some(s) => {
                    out.push(s);
                },
                None => {
                    proof {
                        assert(false);
                    }
                },
            }
            idx += 1;
        }
        proof {
            let keys = Seq::new(entries@.len(), |i: int| entries@[i].0);
            assert(keys.no_duplicates());
            keys.unique_seq_to_set();
            assert forall|k: u64| self@.students.contains_key(k) implies keys.to_set().contains(
                k,
            ) by {
                let i = choose|i: int|
                    0 <= i < entries@.len() && (#[trigger] entries@[i]).0 == k;
                assert(keys[i] == k);
            }
            assert forall|k: u64| keys.to_set().contains(k) implies self@.students.contains_key(
                k,
            ) by {
                let i = choose|i: int| 0 <= i < keys.len() && keys[i] == k;
                assert(entries@[i].0 == k);
            }
            assert(keys.to_set() =~= self@.students.dom());
            assert forall|k: u64| #[trigger] self@.students.contains_key(k) implies exists|i: int|
                0 <= i < out@.len() && (#[trigger] out@[i]).id == k by {
                assert(store_contents(self.students).contains_key(k));
                let i = choose|i: int|
                    0 <= i < entries@.len() && (#[trigger] entries@[i]).0 == k;
                assert(out@[i].id == k);
            }
        }
        out
    }

    /// Schedules a new lecture: rejects an empty topic, otherwise allocates
    /// a fresh id, stores the record and returns it. The student and
    /// lecturer ids are unchecked soft references.
    pub fn schedule_lecture(&mut self, payload: ScheduleLecturePayload) -> (r: Result<
        Lecture,
        Error,
    >)
        requires
            old(self).wf(),
            payload.topic@.len() > 0 ==> old(self)@.next_id < u64::MAX,
            payload.topic@.len() > 0 ==> lecture_fits(lecture_of_schedule(payload, 0)),
        ensures
            final(self).wf(),
            r is Ok <==> payload.topic@.len() > 0,
            r matches Err(e) ==> is_invalid_input(e) && final(self)@ == old(self)@,
            r matches Ok(l) ==> {
                &&& l.id == old(self)@.next_id + 1
                &&& l@ == lecture_of_schedule(payload, l.id)
                &&& final(self)@.next_id == old(self)@.next_id + 1
                &&& final(self)@.lectures == old(self)@.lectures.insert(l.id, l@)
                &&& final(self)@.students == old(self)@.students
                &&& final(self)@.attendance_records == old(self)@.attendance_records
                &&& final(self)@.messages == old(self)@.messages
                &&& !old(self)@.lectures.contains_key(l.id)
                &&& final(self)@.lectures.dom().len() == old(self)@.lectures.dom().len() + 1
                &&& forall|k: u64| #[trigger]
                    old(self)@.lectures.contains_key(k) ==> k < l.id
            },
    {
        if payload.topic.as_str().unicode_len() == 0 {
            return Err(
                Error::InvalidInput { msg: String::from_str("Topic cannot be empty") },
            );
        }
        let id = self.alloc_id();
        let lecture = Lecture {
            id,
            student_id: payload.student_id,
            lecturer_id: payload.lecturer_id,
            date_time: payload.date_time,
            topic: payload.topic,
            multimedia_content: payload.multimedia_content,
        };
        let bytes = encode_lecture(&lecture);
        proof {
            lemma_auto_spec_u64_to_from_le_bytes();
            assert(lecture_fits(lecture@));
        }
        let _prev = store_insert(&mut self.lectures, id, bytes);
        proof {
            broadcast use vstd::set::axiom_set_insert_len;

            self.lectures_model@ = self.lectures_model@.insert(id, lecture@);
            assert(store_contents(self.lectures).dom() =~= self@.lectures.dom());
        }
        Ok(lecture)
    }

    /// Point lookup of a lecture by id; `None` when the id is absent.
    pub fn _get_lecture(&self, lecture_id: &u64) -> (r: Option<Lecture>)
        requires
            self.wf(),
        ensures
            r matches Some(l) ==> self@.lectures.contains_key(*lecture_id) && l@
                == self@.lectures[*lecture_id],
            r is None ==> !self@.lectures.contains_key(*lecture_id),
    {
        match store_get(&self.lectures, *lecture_id) {
            None => None,
            Some(bytes) => {
                proof {
                    lemma_lecture_fits_ok(self@.lectures[*lecture_id]);
                    lemma_lecture_round_trip(self@.lectures[*lecture_id]);
                }
                decode_lecture(&bytes)
            },
        }
    }

    /// Looks a lecture up by id, or fails with `NotFound`.
    pub fn get_lecture(&self, lecture_id: u64) -> (r: Result<Lecture, Error>)
        requires
            self.wf(),
        ensures
            r is Ok <==> self@.lectures.contains_key(lecture_id),
            r matches Ok(l) ==> l@ == self@.lectures[lecture_id],
            r matches Err(e) ==> is_not_found(e),
    {
        match self._get_lecture(&lecture_id) {
            Some(l) => Ok(l),
            None => Err(Error::NotFound { msg: String::from_str("Lecture not found") }),
        }
    }

    /// Replaces the lecture stored under the payload's id: rejects an empty
    /// topic, fails with `NotFound` when the id is absent, and otherwise
    /// overwrites the full record and returns it.
    pub fn update_lecture(&mut self, payload: UpdateLecturePayload) -> (r: Result<Lecture, Error>)
        requires
            old(self).wf(),
            payload.topic@.len() > 0 && old(self)@.lectures.contains_key(payload.lecture_id)
                ==> lecture_fits(lecture_of_update(payload)),
        ensures
            final(self).wf(),
            r is Ok <==> payload.topic@.len() > 0 && old(self)@.lectures.contains_key(
                payload.lecture_id,
            ),
            r is Err ==> final(self)@ == old(self)@,
            payload.topic@.len() == 0 ==> (r matches Err(e) && is_invalid_input(e)),
            payload.topic@.len() > 0 && !old(self)@.lectures.contains_key(payload.lecture_id) ==> (
            r matches Err(e) && is_not_found(e)),
            r matches Ok(l) ==> {
                &&& l@ == lecture_of_update(payload)
                &&& final(self)@.next_id == old(self)@.next_id
                &&& final(self)@.lectures == old(self)@.lectures.insert(payload.lecture_id, l@)
                &&& final(self)@.students == old(self)@.students
                &&& final(self)@.attendance_records == old(self)@.attendance_records
                &&& final(self)@.messages == old(self)@.messages
            },
    {
        if payload.topic.as_str().unicode_len() == 0 {
            return Err(
                Error::InvalidInput { msg: String::from_str("Topic cannot be empty") },
            );
        }
        match store_get(&self.lectures, payload.lecture_id) {
            None => Err(Error::NotFound { msg: String::from_str("Lecture not found") }),
            Some(_) => {
                let lecture = Lecture {
                    id: payload.lecture_id,
                    student_id: payload.student_id,
                    lecturer_id: payload.lecturer_id,
                    date_time: payload.date_time,
                    topic: payload.topic,
                    multimedia_content: payload.multimedia_content,
                };
                let bytes = encode_lecture(&lecture);
                let _prev = store_insert(&mut self.lectures, lecture.id, bytes);
                proof {
                    self.lectures_model@ = self.lectures_model@.insert(
                        payload.lecture_id,
                        lecture@,
                    );
                    assert(store_contents(self.lectures).dom() =~= self@.lectures.dom());
                }
                Ok(lecture)
            },
        }
    }

    /// Deletes the lecture stored under the id, or fails with `NotFound`.
    /// Deleting an absent id always fails, whatever came before.
    pub fn delete_lecture(&mut self, lecture_id: u64) -> (r: Result<(), Error>)
        requires
            old(self).wf(),
        ensures
            final(self).wf(),
            r is Ok <==> old(self)@.lectures.contains_key(lecture_id),
            r matches Err(e) ==> is_not_found(e) && final(self)@ == old(self)@,
            r is Ok ==> {
                &&& final(self)@.next_id == old(self)@.next_id
                &&& final(self)@.lectures == old(self)@.lectures.remove(lecture_id)
                &&& final(self)@.lectures.dom().len() == old(self)@.lectures.dom().len() - 1
                &&& final(self)@.students == old(self)@.students
                &&& final(self)@.attendance_records == old(self)@.attendance_records
                &&& final(self)@.messages == old(self)@.messages
            },
    {
        match store_remove(&mut self.lectures, lecture_id) {
            None => {
                proof {
                    assert(store_contents(self.lectures).dom() =~= self@.lectures.dom());
                    assert(final(self)@ =~= old(self)@);
                }
                Err(Error::NotFound { msg: String::from_str("Lecture not found") })
            },
            Some(_) => {
                proof {
                    broadcast use vstd::set::axiom_set_remove_len;

                    self.lectures_model@ = self.lectures_model@.remove(lecture_id);
                    assert(store_contents(self.lectures).dom() =~= self@.lectures.dom());
                }
                Ok(())
            },
        }
    }

    /// Lists all lectures in ascending id order; the length equals the
    /// number of live lecture records.
    pub fn list_lectures(&self) -> (r: Vec<Lecture>)
        requires
            self.wf(),
        ensures
            r@.len() == self@.lectures.dom().len(),
            forall|i: int|
                0 <= i < r@.len() ==> self@.lectures.contains_key((#[trigger] r@[i]).id) && r@[i]@
                    == self@.lectures[r@[i].id],
            forall|i: int, j: int|
                0 <= i < j < r@.len() ==> (#[trigger] r@[i]).id < (#[trigger] r@[j]).id,
            forall|k: u64| #[trigger]
                self@.lectures.contains_key(k) ==> exists|i: int|
                    0 <= i < r@.len() && (#[trigger] r@[i]).id == k,
    {
        let entries = store_entries(&self.lectures);
        let mut out: Vec<Lecture> = Vec::new();
        let mut idx: usize = 0;
        while idx < entries.len()
            invariant
                self.wf(),
                idx <= entries@.len(),
                out@.len() == idx,
                forall|i: int|
                    0 <= i < entries@.len() ==> store_contents(self.lectures).contains_key(
                        (#[trigger] entries@[i]).0,
                    ) && entries@[i].1@ == store_contents(self.lectures)[entries@[i].0],
                forall|i: int, j: int|
                    0 <= i < j < entries@.len() ==> (#[trigger] entries@[i]).0 < (
                    #[trigger] entries@[j]).0,
                forall|k: u64| #[trigger]
                    store_contents(self.lectures).contains_key(k) ==> exists|i: int|
                        0 <= i < entries@.len() && (#[trigger] entries@[i]).0 == k,
                forall|j: int|
                    0 <= j < idx ==> (#[trigger] out@[j]).id == entries@[j].0 && out@[j]@
                        == self@.lectures[entries@[j].0],
            decreases entries@.len() - idx,
        {
            let pair = &entries[idx];
            proof {
                lemma_lecture_fits_ok(self@.lectures[entries@[idx as int].0]);
                lemma_lecture_round_trip(self@.lectures[entries@[idx as int].0]);
            }
            match decode_lecture(&pair.1) {
                Some(l) => {
                    out.push(l);
                },
                None => {
                    proof {
                        assert(false);
                    }
                },
            }
            idx += 1;
        }
        proof {
            let keys = Seq::new(entries@.len(), |i: int| entries@[i].0);
            assert(keys.no_duplicates());
            keys.unique_seq_to_set();
            assert forall|k: u64| self@.lectures.contains_key(k) implies keys.to_set().contains(
                k,
            ) by {
                let i = choose|i: int|
                    0 <= i < entries@.len() && (#[trigger] entries@[i]).0 == k;
                assert(keys[i] == k);
            }
            assert forall|k: u64| keys.to_set().contains(k) implies self@.lectures.contains_key(
                k,
            ) by {
                let i = choose|i: int| 0 <= i < keys.len() && keys[i] == k;
                assert(entries@[i].0 == k);
            }
            assert(keys.to_set() =~= self@.lectures.dom());
            assert forall|k: u64| #[trigger] self@.lectures.contains_key(k) implies exists|i: int|
                0 <= i < out@.len() && (#[trigger] out@[i]).id == k by {
                assert(store_contents(self.lectures).contains_key(k));
                let i = choose|i: int|
                    0 <= i < entries@.len() && (#[trigger] entries@[i]).0 == k;
                assert(out@[i].id == k);
            }
        }
        out
    }

    /// Point lookup of an attendance record by id; `None` when absent.
    pub fn _get_attendance_record(&self, record_id: &u64) -> (r: Option<AttendanceRecord>)
        requires
            self.wf(),
        ensures
            r matches Some(a) ==> self@.attendance_records.contains_key(*record_id) && a@
                == self@.attendance_records[*record_id],
            r is None ==> !self@.attendance_records.contains_key(*record_id),
    {
        match store_get(&self.attendance_records, *record_id) {
            None => None,
            Some(bytes) => {
                proof {
                    lemma_attendance_fits_ok(self@.attendance_records[*record_id]);
                    lemma_attendance_round_trip(self@.attendance_records[*record_id]);
                }
                decode_attendance(&bytes)
            },
        }
    }

    /// Looks an attendance record up by id, or fails with `NotFound`.
    pub fn get_attendance_record(&self, record_id: u64) -> (r: Result<AttendanceRecord, Error>)
        requires
            self.wf(),
        ensures
            r is Ok <==> self@.attendance_records.contains_key(record_id),
            r matches Ok(a) ==> a@ == self@.attendance_records[record_id],
            r matches Err(e) ==> is_not_found(e),
    {
        match self._get_attendance_record(&record_id) {
            Some(a) => Ok(a),
            None => Err(
                Error::NotFound { msg: String::from_str("Attendance record not found") },
            ),
        }
    }

    /// Replaces the attendance record stored under the payload's id, or
    /// fails with `NotFound` when the id is absent. The status is free
    /// text: no emptiness check is performed here, unlike the student,
    /// lecture and message updates.
    pub fn update_attendance_record(&mut self, payload: UpdateAttendanceRecordPayload) -> (r:
        Result<AttendanceRecord, Error>)
        requires
            old(self).wf(),
            old(self)@.attendance_records.contains_key(payload.record_id) ==> attendance_fits(
                attendance_of_update(payload),
            ),
        ensures
            final(self).wf(),
            r is Ok <==> old(self)@.attendance_records.contains_key(payload.record_id),
            r matches Err(e) ==> is_not_found(e) && final(self)@ == old(self)@,
            r matches Ok(a) ==> {
                &&& a@ == attendance_of_update(payload)
                &&& final(self)@.next_id == old(self)@.next_id
                &&& final(self)@.attendance_records == old(self)@.attendance_records.insert(
                    payload.record_id,
                    a@,
                )
                &&& final(self)@.students == old(self)@.students
                &&& final(self)@.lectures == old(self)@.lectures
                &&& final(self)@.messages == old(self)@.messages
            },
    {
        match store_get(&self.attendance_records, payload.record_id) {
            None => Err(
                Error::NotFound { msg: String::from_str("Attendance record not found") },
            ),
            Some(_) => {
                let record = AttendanceRecord {
                    id: payload.record_id,
                    student_id: payload.student_id,
                    attendance_status: payload.attendance_status,
                };
                let bytes = encode_attendance(&record);
                let _prev = store_insert(&mut self.attendance_records, record.id, bytes);
                proof {
                    self.attendance_model@ = self.attendance_model@.insert(
                        payload.record_id,
                        record@,
                    );
                    assert(store_contents(self.attendance_records).dom()
                        =~= self@.attendance_records.dom());
                }
                Ok(record)
            },
        }
    }

    /// Deletes the attendance record stored under the id, or fails with
    /// `NotFound`. Deleting an absent id always fails, whatever came before.
    pub fn delete_attendance_record(&mut self, record_id: u64) -> (r: Result<(), Error>)
        requires
            old(self).wf(),
        ensures
            final(self).wf(),
            r is Ok <==> old(self)@.attendance_records.contains_key(record_id),
            r matches Err(e) ==> is_not_found(e) && final(self)@ == old(self)@,
            r is Ok ==> {
                &&& final(self)@.next_id == old(self)@.next_id
                &&& final(self)@.attendance_records == old(self)@.attendance_records.remove(
                    record_id,
                )
                &&& final(self)@.attendance_records.dom().len()
                    == old(self)@.attendance_records.dom().len() - 1
                &&& final(self)@.students == old(self)@.students
                &&& final(self)@.lectures == old(self)@.lectures
                &&& final(self)@.messages == old(self)@.messages
            },
    {
        match store_remove(&mut self.attendance_records, record_id) {
            None => {
                proof {
                    assert(store_contents(self.attendance_records).dom()
                        =~= self@.attendance_records.dom());
                    assert(final(self)@ =~= old(self)@);
                }
                Err(Error::NotFound { msg: String::from_str("Attendance record not found") })
            },
            Some(_) => {
                proof {
                    broadcast use vstd::set::axiom_set_remove_len;

                    self.attendance_model@ = self.attendance_model@.remove(record_id);
                    assert(store_contents(self.attendance_records).dom()
                        =~= self@.attendance_records.dom());
                }
                Ok(())
            },
        }
    }

    /// Lists all attendance records in ascending id order; the length
    /// equals the number of live records.
    pub fn list_attendance_records(&self) -> (r: Vec<AttendanceRecord>)
        requires
            self.wf(),
        ensures
            r@.len() == self@.attendance_records.dom().len(),
            forall|i: int|
                0 <= i < r@.len() ==> self@.attendance_records.contains_key(
                    (#[trigger] r@[i]).id,
                ) && r@[i]@ == self@.attendance_records[r@[i].id],
            forall|i: int, j: int|
                0 <= i < j < r@.len() ==> (#[trigger] r@[i]).id < (#[trigger] r@[j]).id,
            forall|k: u64| #[trigger]
                self@.attendance_records.contains_key(k) ==> exists|i: int|
                    0 <= i < r@.len() && (#[trigger] r@[i]).id == k,
    {
        let entries = store_entries(&self.attendance_records);
        let mut out: Vec<AttendanceRecord> = Vec::new();
        let mut idx: usize = 0;
        while idx < entries.len()
            invariant
                self.wf(),
                idx <= entries@.len(),
                out@.len() == idx,
                forall|i: int|
                    0 <= i < entries@.len() ==> store_contents(
                        self.attendance_records,
                    ).contains_key((#[trigger] entries@[i]).0) && entries@[i].1@ == store_contents(
                        self.attendance_records,
                    )[entries@[i].0],
                forall|i: int, j: int|
                    0 <= i < j < entries@.len() ==> (#[trigger] entries@[i]).0 < (
                    #[trigger] entries@[j]).0,
                forall|k: u64| #[trigger]
                    store_contents(self.attendance_records).contains_key(k) ==> exists|i: int|
                        0 <= i < entries@.len() && (#[trigger] entries@[i]).0 == k,
                forall|j: int|
                    0 <= j < idx ==> (#[trigger] out@[j]).id == entries@[j].0 && out@[j]@
                        == self@.attendance_records[entries@[j].0],
            decreases entries@.len() - idx,
        {
            let pair = &entries[idx];
            proof {
                lemma_attendance_fits_ok(self@.attendance_records[entries@[idx as int].0]);
                lemma_attendance_round_trip(self@.attendance_records[entries@[idx as int].0]);
            }
            match decode_attendance(&pair.1) {
                Some(a) => {
                    out.push(a);
                },
                None => {
                    proof {
                        assert(false);
                    }
                },
            }
            idx += 1;
        }
        proof {
            let keys = Seq::new(entries@.len(), |i: int| entries@[i].0);
            assert(keys.no_duplicates());
            keys.unique_seq_to_set();
            assert forall|k: u64| self@.attendance_records.contains_key(
                k,
            ) implies keys.to_set().contains(k) by {
                let i = choose|i: int|
                    0 <= i < entries@.len() && (#[trigger] entries@[i]).0 == k;
                assert(keys[i] == k);
            }
            assert forall|k: u64| keys.to_set().contains(
                k,
            ) implies self@.attendance_records.contains_key(k) by {
                let i = choose|i: int| 0 <= i < keys.len() && keys[i] == k;
                assert(entries@[i].0 == k);
            }
            assert(keys.to_set() =~= self@.attendance_records.dom());
            assert forall|k: u64| #[trigger] self@.attendance_records.contains_key(
                k,
            ) implies exists|i: int| 0 <= i < out@.len() && (#[trigger] out@[i]).id == k by {
                assert(store_contents(self.attendance_records).contains_key(k));
                let i = choose|i: int|
                    0 <= i < entries@.len() && (#[trigger] entries@[i]).0 == k;
                assert(out@[i].id == k);
            }
        }
        out
    }

    /// Sends a reminder to a student: rejects empty content whatever else
    /// holds, fails with `NotFound` when the student does not exist, and
    /// otherwise stores a system message (sender 0) to the student and
    /// returns it.
    pub fn send_reminder_to_student(&mut self, payload: ReminderPayload) -> (r: Result<
        Message,
        Error,
    >)
        requires
            old(self).wf(),
            payload.content@.len() > 0 && old(self)@.students.contains_key(payload.student_id)
                ==> old(self)@.next_id < u64::MAX,
            payload.content@.len() > 0 && old(self)@.students.contains_key(payload.student_id)
                ==> message_fits(message_of_reminder(payload, 0)),
        ensures
            final(self).wf(),
            r is Ok <==> payload.content@.len() > 0 && old(self)@.students.contains_key(
                payload.student_id,
            ),
            r is Err ==> final(self)@ == old(self)@,
            payload.content@.len() == 0 ==> (r matches Err(e) && is_invalid_input(e)),
            payload.content@.len() > 0 && !old(self)@.students.contains_key(payload.student_id)
                ==> (r matches Err(e) && is_not_found(e)),
            r matches Ok(m) ==> {
                &&& m.id == old(self)@.next_id + 1
                &&& m@ == message_of_reminder(payload, m.id)
                &&& final(self)@.next_id == old(self)@.next_id + 1
                &&& final(self)@.messages == old(self)@.messages.insert(m.id, m@)
                &&& final(self)@.students == old(self)@.students
                &&& final(self)@.lectures == old(self)@.lectures
                &&& final(self)@.attendance_records == old(self)@.attendance_records
                &&& !old(self)@.messages.contains_key(m.id)
                &&& final(self)@.messages.dom().len() == old(self)@.messages.dom().len() + 1
                &&& forall|k: u64| #[trigger]
                    old(self)@.messages.contains_key(k) ==> k < m.id
            },
    {
        if payload.content.as_str().unicode_len() == 0 {
            return Err(
                Error::InvalidInput { msg: String::from_str("Reminder content cannot be empty") },
            );
        }
        if self._get_student(&payload.student_id).is_none() {
            return Err(Error::NotFound { msg: String::from_str("Student not found") });
        }
        let id = self.alloc_id();
        let message = Message {
            id,
            sender_id: 0,
            receiver_id: payload.student_id,
            content: payload.content,
            multimedia_content: payload.multimedia_content,
        };
        let bytes = encode_message(&message);
        proof {
            lemma_auto_spec_u64_to_from_le_bytes();
            assert(message_fits(message@));
        }
        let _prev = store_insert(&mut self.messages, id, bytes);
        proof {
            broadcast use vstd::set::axiom_set_insert_len;

            self.messages_model@ = self.messages_model@.insert(id, message@);
            assert(store_contents(self.messages).dom() =~= self@.messages.dom());
        }
        Ok(message)
    }

    /// Replaces the message stored under the payload's id: rejects empty
    /// content, fails with `NotFound` when the id is absent, and otherwise
    /// overwrites the full record and returns it.
    pub fn update_message(&mut self, payload: UpdateMessage) -> (r: Result<Message, Error>)
        requires
            old(self).wf(),
            payload.content@.len() > 0 && old(self)@.messages.contains_key(payload.message_id)
                ==> message_fits(message_of_update(payload)),
        ensures
            final(self).wf(),
            r is Ok <==> payload.content@.len() > 0 && old(self)@.messages.contains_key(
                payload.message_id,
            ),
            r is Err ==> final(self)@ == old(self)@,
            payload.content@.len() == 0 ==> (r matches Err(e) && is_invalid_input(e)),
            payload.content@.len() > 0 && !old(self)@.messages.contains_key(payload.message_id)
                ==> (r matches Err(e) && is_not_found(e)),
            r matches Ok(m) ==> {
                &&& m@ == message_of_update(payload)
                &&& final(self)@.next_id == old(self)@.next_id
                &&& final(self)@.messages == old(self)@.messages.insert(payload.message_id, m@)
                &&& final(self)@.students == old(self)@.students
                &&& final(self)@.lectures == old(self)@.lectures
                &&& final(self)@.attendance_records == old(self)@.attendance_records
            },
    {
        if payload.content.as_str().unicode_len() == 0 {
            return Err(
                Error::InvalidInput { msg: String::from_str("Message content cannot be empty") },
            );
        }
        match store_get(&self.messages, payload.message_id) {
            None => Err(Error::NotFound { msg: String::from_str("Message not found") }),
            Some(_) => {
                let message = Message {
                    id: payload.message_id,
                    sender_id: payload.sender_id,
                    receiver_id: payload.receiver_id,
                    content: payload.content,
                    multimedia_content: payload.multimedia_content,
                };
                let bytes = encode_message(&message);
                let _prev = store_insert(&mut self.messages, message.id, bytes);
                proof {
                    self.messages_model@ = self.messages_model@.insert(
                        payload.message_id,
                        message@,
                    );
                    assert(store_contents(self.messages).dom() =~= self@.messages.dom());
                }
                Ok(message)
            },
        }
    }

    /// Deletes the message stored under the id, or fails with `NotFound`.
    /// Deleting an absent id always fails, whatever came before.
    pub fn delete_message(&mut self, message_id: u64) -> (r: Result<(), Error>)
        requires
            old(self).wf(),
        ensures
            final(self).wf(),
            r is Ok <==> old(self)@.messages.contains_key(message_id),
            r matches Err(e) ==> is_not_found(e) && final(self)@ == old(self)@,
            r is Ok ==> {
                &&& final(self)@.next_id == old(self)@.next_id
                &&& final(self)@.messages == old(self)@.messages.remove(message_id)
                &&& final(self)@.messages.dom().len() == old(self)@.messages.dom().len() - 1
                &&& final(self)@.students == old(self)@.students
                &&& final(self)@.lectures == old(self)@.lectures
                &&& final(self)@.attendance_records == old(self)@.attendance_records
            },
    {
        match store_remove(&mut self.messages, message_id) {
            None => {
                proof {
                    assert(store_contents(self.messages).dom() =~= self@.messages.dom());
                    assert(final(self)@ =~= old(self)@);
                }
                Err(Error::NotFound { msg: String::from_str("Message not found") })
            },
            Some(_) => {
                proof {
                    broadcast use vstd::set::axiom_set_remove_len;

                    self.messages_model@ = self.messages_model@.remove(message_id);
                    assert(store_contents(self.messages).dom() =~= self@.messages.dom());
                }
                Ok(())
            },
        }
    }

    /// Lists all messages in ascending id order; the length equals the
    /// number of live message records.
    pub fn list_messages(&self) -> (r: Vec<Message>)
        requires
            self.wf(),
        ensures
            r@.len() == self@.messages.dom().len(),
            forall|i: int|
                0 <= i < r@.len() ==> self@.messages.contains_key((#[trigger] r@[i]).id) && r@[i]@
                    == self@.messages[r@[i].id],
            forall|i: int, j: int|
                0 <= i < j < r@.len() ==> (#[trigger] r@[i]).id < (#[trigger] r@[j]).id,
            forall|k: u64| #[trigger]
                self@.messages.contains_key(k) ==> exists|i: int|
                    0 <= i < r@.len() && (#[trigger] r@[i]).id == k,
    {
        let entries = store_entries(&self.messages);
        let mut out: Vec<Message> = Vec::new();
        let mut idx: usize = 0;
        while idx < entries.len()
            invariant
                self.wf(),
                idx <= entries@.len(),
                out@.len() == idx,
                forall|i: int|
                    0 <= i < entries@.len() ==> store_contents(self.messages).contains_key(
                        (#[trigger] entries@[i]).0,
                    ) && entries@[i].1@ == store_contents(self.messages)[entries@[i].0],
                forall|i: int, j: int|
                    0 <= i < j < entries@.len() ==> (#[trigger] entries@[i]).0 < (
                    #[trigger] entries@[j]).0,
                forall|k: u64| #[trigger]
                    store_contents(self.messages).contains_key(k) ==> exists|i: int|
                        0 <= i < entries@.len() && (#[trigger] entries@[i]).0 == k,
                forall|j: int|
                    0 <= j < idx ==> (#[trigger] out@[j]).id == entries@[j].0 && out@[j]@
                        == self@.messages[entries@[j].0],
            decreases entries@.len() - idx,
        {
            let pair = &entries[idx];
            proof {
                lemma_message_fits_ok(self@.messages[entries@[idx as int].0]);
                lemma_message_round_trip(self@.messages[entries@[idx as int].0]);
            }
            match decode_message(&pair.1) {
                Some(m) => {
                    out.push(m);
                },
                None => {
                    proof {
                        assert(false);
                    }
                },
            }
            idx += 1;
        }
        proof {
            let keys = Seq::new(entries@.len(), |i: int| entries@[i].0);
            assert(keys.no_duplicates());
            keys.unique_seq_to_set();
            assert forall|k: u64| self@.messages.contains_key(k) implies keys.to_set().contains(
                k,
            ) by {
                let i = choose|i: int|
                    0 <= i < entries@.len() && (#[trigger] entries@[i]).0 == k;
                assert(keys[i] == k);
            }
            assert forall|k: u64| keys.to_set().contains(k) implies self@.messages.contains_key(
                k,
            ) by {
                let i = choose|i: int| 0 <= i < keys.len() && keys[i] == k;
                assert(entries@[i].0 == k);
            }
            assert(keys.to_set() =~= self@.messages.dom());
            assert forall|k: u64| #[trigger] self@.messages.contains_key(k) implies exists|i: int|
                0 <= i < out@.len() && (#[trigger] out@[i]).id == k by {
                assert(store_contents(self.messages).contains_key(k));
                let i = choose|i: int|
                    0 <= i < entries@.len() && (#[trigger] entries@[i]).0 == k;
                assert(out@[i].id == k);
            }
        }
        out
    }
}
/// Every live id, in every store, is at most the counter value; a freshly
/// allocated id is the counter value plus one, so it is strictly greater
/// than every id currently stored under any entity type, and ids of
/// deleted records are never reused because the counter never decreases.
pub proof fn lemma_live_ids_bounded(s: Service)
    requires
        s.wf(),
    ensures
        forall|k: u64| #[trigger] s@.students.contains_key(k) ==> 1 <= k <= s@.next_id,
        forall|k: u64| #[trigger] s@.lectures.contains_key(k) ==> 1 <= k <= s@.next_id,
        forall|k: u64| #[trigger] s@.attendance_records.contains_key(k) ==> 1 <= k <= s@.next_id,
        forall|k: u64| #[trigger] s@.messages.contains_key(k) ==> 1 <= k <= s@.next_id,
{
}

/// After a successful delete of `id` the map no longer contains `id`, so a
/// later update addressed to `id` fails with `NotFound`: every update
/// operation returns `Ok` only when its id is live in the map it targets.
pub proof fn lemma_update_after_delete<V>(m: Map<u64, V>, id: u64)
    ensures
        !m.remove(id).contains_key(id),
{
}

} // verus!
