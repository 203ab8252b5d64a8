//! The client side of the broker's wire protocol: the codec of its messages,
//! the frames that carry them, and the multiplexing of requests and responses
//! on one connection.
//!
//! - `endian` and `convert` decode and encode the values of the format: little
//!   endian integers, booleans, strings, blobs and groups. `tuples` and
//!   `enumeration` do the same for values that are made of others, and
//!   `layout` gives the block length of a struct from the list of its fields.
//! - `protocol` holds the headers of the frame layer and the messages of each
//!   schema family, and the registry that finds the type of a message by its
//!   header.
//! - `frame` decodes and encodes whole frames, header by header.
//! - `proto` is the codec of a connection, which decodes frames that arrive in
//!   pieces, and `pending` the table of the requests that wait for a response.
//! - `client` holds what the client makes of the broker's answers, and `render`
//!   shows a blob in a readable form.
//!
//! Every value has a mathematical model, and every function says in its
//! contract what it does to the models. The laws of the format are proof
//! functions: what was encoded decodes to itself, a decoding that was
//! interrupted goes on without loss, and every response reaches the caller of
//! its request.

pub mod client;
pub mod convert;
pub mod endian;
pub mod enumeration;
pub mod errors;
pub mod frame;
pub mod layout;
pub mod pending;
pub mod proto;
pub mod protocol;
pub mod render;
pub mod tuples;
