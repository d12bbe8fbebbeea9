//! The client side of the cluster ticket tracker: the values that the
//! command line and the GraphQL server exchange, how the client finds its
//! server, what it makes of the server's answers, and the tables it shows.
//! Network, files, terminal and clock stay with the program that uses this
//! library.
pub mod cli;
pub mod clock;
pub mod listing;
pub mod order;
pub mod queries;
pub mod reply;
pub mod report;
pub mod retry;
pub mod server;
pub mod status;
pub mod text;
