//! Bridges a PMS5003 particulate-matter sensor on a serial link to a
//! pull-based metrics endpoint: a binary frame decoder, a freshness-bounded
//! latest-reading store, and the retry state machine of the acquisition loop.

pub mod acquisition;
pub mod codec;
pub mod frame;
pub mod metrics;
pub mod stream;
pub mod text;
