//! The CrowdStrike Falcon endpoint.
pub mod api;
pub mod api_laws;
pub mod clock;
pub mod collect;
pub mod collect_laws;
pub mod data;
pub mod device;
pub mod device_laws;
pub mod gather;
pub mod gather_laws;
pub mod kept_laws;
pub mod mac;
pub mod paging;
pub mod part_laws;
pub mod record;
pub mod report;
pub mod report_laws;
pub mod score;
pub mod stage;
pub mod table;
pub mod total_laws;
