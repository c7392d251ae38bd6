//! Reply logic of the club's chat bot: what each command answers, how
//! scraped job boards and event feeds are turned into messages, and how a
//! long message is cut into chunks that a chat service accepts.
pub mod text;
pub mod chunking;
pub mod luma;
pub mod replies;
pub mod dice;
pub mod iss;
pub mod version;
pub mod notion;
pub mod linkedin;
pub mod weather;
