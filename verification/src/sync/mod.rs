pub mod mutex;
pub mod rwlock;
