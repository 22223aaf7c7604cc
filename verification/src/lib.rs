//! A persistent record-management service over four entity types —
//! students, lectures, attendance records and messages — each kept in a
//! durable ordered map from a shared, monotonically increasing 64-bit
//! identifier to a record encoded by a deterministic binary codec.

pub mod codec;
pub mod service;
pub mod store;
pub mod types;

pub use service::Service;
pub use service::ServiceV;
pub use types::AttendanceRecord;
pub use types::Error;
pub use types::Lecture;
pub use types::Message;
pub use types::MultiMediaContent;
pub use types::RegisterStudentPayload;
pub use types::ReminderPayload;
pub use types::ScheduleLecturePayload;
pub use types::Student;
pub use types::UpdateAttendanceRecordPayload;
pub use types::UpdateLecturePayload;
pub use types::UpdateMessage;
pub use types::UpdateStudentPayload;
