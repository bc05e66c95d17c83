//! The payload layouts of the receiver's messages, one module for each
//! message id.

pub mod util;
pub mod x02_mesnavdata;
pub mod x04_meastrackdata;
pub mod x07_clockstatus;
pub mod x08_50bpsdata;
#[allow(non_snake_case)]
pub mod x1E_navsvstate;
pub mod x35_advpwrmgmt;
pub mod xff_asciidata;
