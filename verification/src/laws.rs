//! What the operations of the library are for, stated over their arguments and
//! results. Each law speaks of every result that a call can give.
pub mod comparison;
pub mod cores;
pub mod counting;
pub mod devices;
pub mod diagnosis;
pub mod documents;
pub mod figures;
pub mod loading;
pub mod matching;
pub mod messages;
pub mod metrics;
pub mod notices;
pub mod numbers;
pub mod paths;
pub mod policy;
pub mod rates;
pub mod rendering;
pub mod results;
pub mod running;
pub mod series;
pub mod sessions;
pub mod starting;
pub mod stats;
pub mod suites;
pub mod summaries;
pub mod tables;
pub mod texts;
pub mod topology;
pub mod workers;
