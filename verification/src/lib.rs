//! Core logic of the principal-recommendation manager: fixed-point scores,
//! area score computation, ranking, tie-aware quota filling and the
//! round lifecycle, each stated and proved with Verus.
use vstd::prelude::*;

pub mod admin_sheets;
pub mod app_info;
pub mod application;
pub mod areas;
pub mod area_sheets;
pub mod audit;
pub mod auth;
pub mod area_score;
pub mod auto_recommend;
pub mod classes;
pub mod backup;
pub mod base_import;
pub mod confirmations;
pub mod display;
pub mod enums;
pub mod external;
pub mod fill;
pub mod grids;
pub mod guards;
pub mod imports;
pub mod listing;
pub mod login;
pub mod lookup;
pub mod merge;
pub mod merge_law;
pub mod middleware;
pub mod overview;
pub mod paths;
pub mod preview;
pub mod queries;
pub mod result_queries;
pub mod results;
pub mod ranking;
pub mod rounds;
pub mod roster;
pub mod roster_sheet;
pub mod schema;
pub mod score;
pub mod settings;
pub mod sheet;
pub mod sorting;
pub mod table_import;
pub mod students;
pub mod teacher_context;
pub mod text;
pub mod totals;
pub mod universities;

verus! {
} // verus!
