//! Verified building blocks of a set of small systems programs: an
//! in-memory file, a satellite mailbox, a small CHIP-8 style CPU, a context
//! grep, NTP message handling, JSON flattening, float bit fields, DNS
//! query and reply handling, and hex-dump lines.

pub mod cpu;
pub mod cubesat;
pub mod dns;
pub mod file;
pub mod float_bits;
pub mod grep;
pub mod hexdump;
pub mod ntp;
pub mod simple_hash;
