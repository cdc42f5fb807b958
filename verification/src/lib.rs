//! The logic of a test bench server.
//!
//! Devices report over TCP, in packets of a fixed length, that a unit with a
//! barcode is under test, has passed or has failed. The server keeps a table of
//! the packets, tells connected pages about every change, and hands out the
//! table, a report and a CSV file. This library decides what is read, stored,
//! sent and answered; sockets, the database and the web server are driven from
//! outside.

/// The clients that messages are sent to.
pub mod clients;
/// Timestamps.
pub mod clock;
/// What holds of timestamps.
pub mod clock_laws;
/// Reads of a connection.
pub mod connection;
/// The CSV file.
pub mod export;
/// What holds of the CSV file.
pub mod export_laws;
/// The work on one packet.
pub mod job;
/// What holds of the work on one packet.
pub mod job_laws;
/// The messages that pages get.
pub mod messages;
/// The packets on the wire.
pub mod packet;
/// The answers to requests for the table and the report.
pub mod replies;
/// The session of a page.
pub mod session;
/// The statements for the database.
pub mod table;
/// What the work on a packet makes of the table.
pub mod table_laws;
/// Numbers and bytes as text.
pub mod text;
