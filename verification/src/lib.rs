//! Binary message layer for a GPS receiver link: a forward-only byte cursor,
//! the frame envelope with its checksum, the payload layouts of the
//! receiver's messages and a registry that selects the decoder for a message
//! id.
//!
//! Around it stand the small things that go with such a link: times of day,
//! dates and epochs, the decisions of a client that stores what was decoded
//! in a time-series database, and a few plain records.
//!
//! Every executable function carries a contract over sequences of bytes and
//! other mathematical values; the laws that relate encoding and decoding are
//! public proof functions.

pub mod angle;
pub mod bits;
pub mod bounds;
pub mod carto;
pub mod color;
pub mod fields;
pub mod frame;
pub mod frame_laws;
pub mod gpsd;
pub mod influx;
pub mod input;
pub mod link_laws;
pub mod message;
pub mod packet;
pub mod registry;
pub mod scaled;
pub mod text;
pub mod time;
