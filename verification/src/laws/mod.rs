//! What the operations are for, stated over files and pictures that are put
//! together from their parts.
pub mod made;
pub mod pictures;
pub mod jpegs;
pub mod archives;
pub mod tags;
pub mod sniffing;
pub mod texts;
pub mod directories;
pub mod chunks;
pub mod sounds;
pub mod reads;
pub mod delivery;
pub mod requests;
pub mod tools;
pub mod codes;
pub mod cooks;
pub mod settings;
pub mod sizes;
pub mod plans;
pub mod reports;
pub mod stages;
pub mod surroundings;
pub mod tables;
pub mod answers;
pub mod probes;
pub mod lines;
