use vstd::prelude::*;

verus! {

/// Optional multimedia attachment carried by lectures and messages.
/// The URLs are opaque strings: the service never parses or fetches them.
#[derive(Clone, Debug, PartialEq)]
pub struct MultiMediaContent {
    pub image_url: Option<String>,
    pub video_url: Option<String>,
    pub audio_url: Option<String>,
}

/// Mathematical model of a `MultiMediaContent` value.
pub struct MultiMediaContentV {
    pub image_url: Option<Seq<char>>,
    pub video_url: Option<Seq<char>>,
    pub audio_url: Option<Seq<char>>,
}

pub open spec fn view_opt_string(o: Option<String>) -> Option<Seq<char>> {
    match o {
        Some(s) => Some(s@),
        None => None,
    }
}

impl View for MultiMediaContent {
    type V = MultiMediaContentV;

    open spec fn view(&self) -> MultiMediaContentV {
        MultiMediaContentV {
            image_url: view_opt_string(self.image_url),
            video_url: view_opt_string(self.video_url),
            audio_url: view_opt_string(self.audio_url),
        }
    }
}

pub open spec fn view_opt_mmc(o: Option<MultiMediaContent>) -> Option<MultiMediaContentV> {
    match o {
        Some(m) => Some(m@),
        None => None,
    }
}

/// A registered student. `attendance_history` is free text, not a structured log.
#[derive(Clone, Debug, PartialEq)]
pub struct Student {
    pub id: u64,
    pub name: String,
    pub contact_details: String,
    pub attendance_history: String,
}

/// Mathematical model of a `Student` record.
pub struct StudentV {
    pub id: u64,
    pub name: Seq<char>,
    pub contact_details: Seq<char>,
    pub attendance_history: Seq<char>,
}

impl View for Student {
    type V = StudentV;

    open spec fn view(&self) -> StudentV {
        StudentV {
            id: self.id,
            name: self.name@,
            contact_details: self.contact_details@,
            attendance_history: self.attendance_history@,
        }
    }
}

/// A scheduled lecture. `student_id` and `lecturer_id` are unchecked soft
/// references; `date_time` is an integer timestamp.
#[derive(Clone, Debug, PartialEq)]
pub struct Lecture {
    pub id: u64,
    pub student_id: u64,
    pub lecturer_id: u64,
    pub date_time: u64,
    pub topic: String,
    pub multimedia_content: Option<MultiMediaContent>,
}

/// Mathematical model of a `Lecture` record.
pub struct LectureV {
    pub id: u64,
    pub student_id: u64,
    pub lecturer_id: u64,
    pub date_time: u64,
    pub topic: Seq<char>,
    pub multimedia_content: Option<MultiMediaContentV>,
}

impl View for Lecture {
    type V = LectureV;

    open spec fn view(&self) -> LectureV {
        LectureV {
            id: self.id,
            student_id: self.student_id,
            lecturer_id: self.lecturer_id,
            date_time: self.date_time,
            topic: self.topic@,
            multimedia_content: view_opt_mmc(self.multimedia_content),
        }
    }
}

/// An attendance record. `attendance_status` is free text; no enum is enforced.
#[derive(Clone, Debug, PartialEq)]
pub struct AttendanceRecord {
    pub id: u64,
    pub student_id: u64,
    pub attendance_status: String,
}

/// Mathematical model of an `AttendanceRecord`.
pub struct AttendanceRecordV {
    pub id: u64,
    pub student_id: u64,
    pub attendance_status: Seq<char>,
}

impl View for AttendanceRecord {
    type V = AttendanceRecordV;

    open spec fn view(&self) -> AttendanceRecordV {
        AttendanceRecordV {
            id: self.id,
            student_id: self.student_id,
            attendance_status: self.attendance_status@,
        }
    }
}

/// A message between two parties; `sender_id` 0 is reserved for the system.
#[derive(Clone, Debug, PartialEq)]
pub struct Message {
    pub id: u64,
    pub sender_id: u64,
    pub receiver_id: u64,
    pub content: String,
    pub multimedia_content: Option<MultiMediaContent>,
}

/// Mathematical model of a `Message` record.
pub struct MessageV {
    pub id: u64,
    pub sender_id: u64,
    pub receiver_id: u64,
    pub content: Seq<char>,
    pub multimedia_content: Option<MultiMediaContentV>,
}

impl View for Message {
    type V = MessageV;

    open spec fn view(&self) -> MessageV {
        MessageV {
            id: self.id,
            sender_id: self.sender_id,
            receiver_id: self.receiver_id,
            content: self.content@,
            multimedia_content: view_opt_mmc(self.multimedia_content),
        }
    }
}

/// Payload for `register_student`.
#[derive(Clone, Debug)]
pub struct RegisterStudentPayload {
    pub name: String,
    pub contact_details: String,
    pub attendance_history: String,
}

/// Payload for `schedule_lecture`.
#[derive(Clone, Debug)]
pub struct ScheduleLecturePayload {
    pub student_id: u64,
    pub lecturer_id: u64,
    pub date_time: u64,
    pub topic: String,
    pub multimedia_content: Option<MultiMediaContent>,
}

/// Payload for `update_student`.
#[derive(Clone, Debug)]
pub struct UpdateStudentPayload {
    pub id: u64,
    pub name: String,
    pub contact_details: String,
    pub attendance_history: String,
}

/// Payload for `update_lecture`.
#[derive(Clone, Debug)]
pub struct UpdateLecturePayload {
    pub lecture_id: u64,
    pub student_id: u64,
    pub lecturer_id: u64,
    pub date_time: u64,
    pub topic: String,
    pub multimedia_content: Option<MultiMediaContent>,
}

/// Payload for `update_attendance_record`.
#[derive(Clone, Debug)]
pub struct UpdateAttendanceRecordPayload {
    pub record_id: u64,
    pub student_id: u64,
    pub attendance_status: String,
}

/// Payload for `send_reminder_to_student`.
#[derive(Clone, Debug)]
pub struct ReminderPayload {
    pub student_id: u64,
    pub content: String,
    pub multimedia_content: Option<MultiMediaContent>,
}

/// Payload for `update_message`.
#[derive(Clone, Debug)]
pub struct UpdateMessage {
    pub message_id: u64,
    pub sender_id: u64,
    pub receiver_id: u64,
    pub content: String,
    pub multimedia_content: Option<MultiMediaContent>,
}

/// The two error kinds of the service: a required field failed its
/// precondition, or the referenced id is absent from the relevant store.
#[derive(Clone, Debug, PartialEq)]
pub enum Error {
    NotFound { msg: String },
    InvalidInput { msg: String },
}

pub open spec fn is_not_found(e: Error) -> bool {
    e matches Error::NotFound { .. }
}

pub open spec fn is_invalid_input(e: Error) -> bool {
    e matches Error::InvalidInput { .. }
}

} // verus!
