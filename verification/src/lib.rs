//! The decision-making core of an SMB2 file server, free of I/O.
//!
//! * [`frame`] and [`reader`] read a connection: the framing of messages, and
//!   which of them are admitted to dispatch, when. [`dispatch`] tells the
//!   frames that must run alone, and [`reader_laws`] states what holds of a
//!   connection as a whole.
//! * [`query_info`] answers QUERY_INFO requests, with the messages of
//!   [`messages`] and the structures of [`info_class`] and [`streams`];
//!   [`query_info_laws`] states what holds of every answer, [`answer_laws`]
//!   which request gets which, and [`info_class_laws`] what each structure says.
//! * [`set_info`] decides on the SET_INFO classes that change a file's length.
//! * [`wire`] and [`ntstatus`] hold what all of these share.

pub mod answer_laws;
pub mod dispatch;
pub mod frame;
pub mod info_class;
pub mod info_class_laws;
pub mod messages;
pub mod ntstatus;
pub mod query_info;
pub mod query_info_laws;
pub mod reader;
pub mod reader_laws;
pub mod set_info;
pub mod streams;
pub mod wire;
