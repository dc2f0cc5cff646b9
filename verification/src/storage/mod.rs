pub mod record;
pub mod record_batch;
