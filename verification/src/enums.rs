//! The enumerations stored in the database as upper-case text.
use vstd::prelude::*;
use crate::text::str_is;

verus! {

/// How an area turns a student's base value into a score.
#[derive(Debug, Clone, Copy, PartialEq, Eq, Structural)]
pub enum CalcType {
    Numeric,
    Category,
    Manual,
}

/// Whether an area's tables and base data are global or per track.
#[derive(Debug, Clone, Copy, PartialEq, Eq, Structural)]
pub enum LookupScope {
    Simple,
    Composite,
}

/// How a numeric value is matched against the thresholds of a range table.
#[derive(Debug, Clone, Copy, PartialEq, Eq, Structural)]
pub enum MatchMode {
    /// The largest threshold not above the value ("at least").
    Upper,
    /// The smallest threshold not below the value ("at most"), else the largest threshold.
    Lower,
    /// The threshold equal to the value.
    Exact,
}

/// How the scores of several categories combine.
#[derive(Debug, Clone, Copy, PartialEq, Eq, Structural)]
pub enum CategoryAgg {
    Sum,
    Max,
}

/// The lifecycle state of a round.
#[derive(Debug, Clone, Copy, PartialEq, Eq, Structural)]
pub enum RoundStatus {
    Open,
    Closed,
    Finalized,
}

/// The kinds of audited actions.
#[derive(Debug, Clone, Copy, PartialEq, Eq, Structural)]
pub enum AuditAction {
    RoundOpened,
    RoundClosed,
    RoundReopened,
    RoundFinalized,
    ScoresRecalculated,
    RecommendConfirmed,
    RecommendCanceled,
    AutoRecommendRun,
    ApplicationSaved,
    ApplicationDeleted,
    ApplicationAbandoned,
    ClassesImported,
    ClassSaved,
    ClassDeleted,
    StudentsImported,
    StudentAdded,
    StudentDeleted,
    AreaCreated,
    AreaUpdated,
    AreaDeleted,
    ScoreTableImported,
    BaseDataImported,
    UniversityCreated,
    UniversityUpdated,
    UniversityDeleted,
    TrackCreated,
    TrackUpdated,
    TrackDeleted,
    UniversitySettingsImported,
    RoundConfirmed,
    RoundConfirmationRevoked,
    ApplicationExcluded,
    ApplicationExclusionCleared,
    AdminPasswordChanged,
    AppInfoUpdated,
    DbBackupDownloaded,
}

/// The stored text of a round state.
pub open spec fn round_status_spec(x: RoundStatus) -> Seq<char> {
    match x {
        RoundStatus::Open => "OPEN"@,
        RoundStatus::Closed => "CLOSED"@,
        RoundStatus::Finalized => "FINALIZED"@,
    }
}

/// The stored text of a round state.
pub fn round_status_text(x: RoundStatus) -> (s: &'static str)
    ensures
        s@ == round_status_spec(x),
{
    match x {
        RoundStatus::Open => "OPEN",
        RoundStatus::Closed => "CLOSED",
        RoundStatus::Finalized => "FINALIZED",
    }
}

/// Reads the stored text of a round state; any other text is `None`.
pub fn parse_round_status(s: &str) -> (r: Option<RoundStatus>)
    ensures
        r matches Some(x) ==> round_status_spec(x) == s@,
        r is None ==> forall|x: RoundStatus| round_status_spec(x) != s@,
{
    proof {
        reveal_strlit("OPEN");
        reveal_strlit("CLOSED");
        reveal_strlit("FINALIZED");
    }
    if str_is(s, "OPEN") {
        Some(RoundStatus::Open)
    } else
    if str_is(s, "CLOSED") {
        Some(RoundStatus::Closed)
    } else
    if str_is(s, "FINALIZED") {
        Some(RoundStatus::Finalized)
    } else {
        None
    }
}

/// The stored text of a calculation type.
pub open spec fn calc_type_spec(x: CalcType) -> Seq<char> {
    match x {
        CalcType::Numeric => "NUMERIC"@,
        CalcType::Category => "CATEGORY"@,
        CalcType::Manual => "MANUAL"@,
    }
}

/// The stored text of a calculation type.
pub fn calc_type_text(x: CalcType) -> (s: &'static str)
    ensures
        s@ == calc_type_spec(x),
{
    match x {
        CalcType::Numeric => "NUMERIC",
        CalcType::Category => "CATEGORY",
        CalcType::Manual => "MANUAL",
    }
}

/// Reads the stored text of a calculation type; any other text is `None`.
pub fn parse_calc_type(s: &str) -> (r: Option<CalcType>)
    ensures
        r matches Some(x) ==> calc_type_spec(x) == s@,
        r is None ==> forall|x: CalcType| calc_type_spec(x) != s@,
{
    proof {
        reveal_strlit("NUMERIC");
        reveal_strlit("CATEGORY");
        reveal_strlit("MANUAL");
    }
    if str_is(s, "NUMERIC") {
        Some(CalcType::Numeric)
    } else
    if str_is(s, "CATEGORY") {
        Some(CalcType::Category)
    } else
    if str_is(s, "MANUAL") {
        Some(CalcType::Manual)
    } else {
        None
    }
}

/// The stored text of a lookup scope.
pub open spec fn lookup_scope_spec(x: LookupScope) -> Seq<char> {
    match x {
        LookupScope::Simple => "SIMPLE"@,
        LookupScope::Composite => "COMPOSITE"@,
    }
}

/// The stored text of a lookup scope.
pub fn lookup_scope_text(x: LookupScope) -> (s: &'static str)
    ensures
        s@ == lookup_scope_spec(x),
{
    match x {
        LookupScope::Simple => "SIMPLE",
        LookupScope::Composite => "COMPOSITE",
    }
}

/// Reads the stored text of a lookup scope; any other text is `None`.
pub fn parse_lookup_scope(s: &str) -> (r: Option<LookupScope>)
    ensures
        r matches Some(x) ==> lookup_scope_spec(x) == s@,
        r is None ==> forall|x: LookupScope| lookup_scope_spec(x) != s@,
{
    proof {
        reveal_strlit("SIMPLE");
        reveal_strlit("COMPOSITE");
    }
    if str_is(s, "SIMPLE") {
        Some(LookupScope::Simple)
    } else
    if str_is(s, "COMPOSITE") {
        Some(LookupScope::Composite)
    } else {
        None
    }
}

/// The stored text of a match mode.
pub open spec fn match_mode_spec(x: MatchMode) -> Seq<char> {
    match x {
        MatchMode::Upper => "UPPER"@,
        MatchMode::Lower => "LOWER"@,
        MatchMode::Exact => "EXACT"@,
    }
}

/// The stored text of a match mode.
pub fn match_mode_text(x: MatchMode) -> (s: &'static str)
    ensures
        s@ == match_mode_spec(x),
{
    match x {
        MatchMode::Upper => "UPPER",
        MatchMode::Lower => "LOWER",
        MatchMode::Exact => "EXACT",
    }
}

/// Reads the stored text of a match mode; any other text is `None`.
pub fn parse_match_mode(s: &str) -> (r: Option<MatchMode>)
    ensures
        r matches Some(x) ==> match_mode_spec(x) == s@,
        r is None ==> forall|x: MatchMode| match_mode_spec(x) != s@,
{
    proof {
        reveal_strlit("UPPER");
        reveal_strlit("LOWER");
        reveal_strlit("EXACT");
    }
    if str_is(s, "UPPER") {
        Some(MatchMode::Upper)
    } else
    if str_is(s, "LOWER") {
        Some(MatchMode::Lower)
    } else
    if str_is(s, "EXACT") {
        Some(MatchMode::Exact)
    } else {
        None
    }
}

/// The stored text of a category aggregation.
pub open spec fn category_agg_spec(x: CategoryAgg) -> Seq<char> {
    match x {
        CategoryAgg::Sum => "SUM"@,
        CategoryAgg::Max => "MAX"@,
    }
}

/// The stored text of a category aggregation.
pub fn category_agg_text(x: CategoryAgg) -> (s: &'static str)
    ensures
        s@ == category_agg_spec(x),
{
    match x {
        CategoryAgg::Sum => "SUM",
        CategoryAgg::Max => "MAX",
    }
}

/// Reads the stored text of a category aggregation; any other text is `None`.
pub fn parse_category_agg(s: &str) -> (r: Option<CategoryAgg>)
    ensures
        r matches Some(x) ==> category_agg_spec(x) == s@,
        r is None ==> forall|x: CategoryAgg| category_agg_spec(x) != s@,
{
    proof {
        reveal_strlit("SUM");
        reveal_strlit("MAX");
    }
    if str_is(s, "SUM") {
        Some(CategoryAgg::Sum)
    } else
    if str_is(s, "MAX") {
        Some(CategoryAgg::Max)
    } else {
        None
    }
}

/// The stored text of an audited action.
pub open spec fn audit_action_spec(x: AuditAction) -> Seq<char> {
    match x {
        AuditAction::RoundOpened => "ROUND_OPENED"@,
        AuditAction::RoundClosed => "ROUND_CLOSED"@,
        AuditAction::RoundReopened => "ROUND_REOPENED"@,
        AuditAction::RoundFinalized => "ROUND_FINALIZED"@,
        AuditAction::ScoresRecalculated => "SCORES_RECALCULATED"@,
        AuditAction::RecommendConfirmed => "RECOMMEND_CONFIRMED"@,
        AuditAction::RecommendCanceled => "RECOMMEND_CANCELED"@,
        AuditAction::AutoRecommendRun => "AUTO_RECOMMEND_RUN"@,
        AuditAction::ApplicationSaved => "APPLICATION_SAVED"@,
        AuditAction::ApplicationDeleted => "APPLICATION_DELETED"@,
        AuditAction::ApplicationAbandoned => "APPLICATION_ABANDONED"@,
        AuditAction::ClassesImported => "CLASSES_IMPORTED"@,
        AuditAction::ClassSaved => "CLASS_SAVED"@,
        AuditAction::ClassDeleted => "CLASS_DELETED"@,
        AuditAction::StudentsImported => "STUDENTS_IMPORTED"@,
        AuditAction::StudentAdded => "STUDENT_ADDED"@,
        AuditAction::StudentDeleted => "STUDENT_DELETED"@,
        AuditAction::AreaCreated => "AREA_CREATED"@,
        AuditAction::AreaUpdated => "AREA_UPDATED"@,
        AuditAction::AreaDeleted => "AREA_DELETED"@,
        AuditAction::ScoreTableImported => "SCORE_TABLE_IMPORTED"@,
        AuditAction::BaseDataImported => "BASE_DATA_IMPORTED"@,
        AuditAction::UniversityCreated => "UNIVERSITY_CREATED"@,
        AuditAction::UniversityUpdated => "UNIVERSITY_UPDATED"@,
        AuditAction::UniversityDeleted => "UNIVERSITY_DELETED"@,
        AuditAction::TrackCreated => "TRACK_CREATED"@,
        AuditAction::TrackUpdated => "TRACK_UPDATED"@,
        AuditAction::TrackDeleted => "TRACK_DELETED"@,
        AuditAction::UniversitySettingsImported => "UNIVERSITY_SETTINGS_IMPORTED"@,
        AuditAction::RoundConfirmed => "ROUND_CONFIRMED"@,
        AuditAction::RoundConfirmationRevoked => "ROUND_CONFIRMATION_REVOKED"@,
        AuditAction::ApplicationExcluded => "APPLICATION_EXCLUDED"@,
        AuditAction::ApplicationExclusionCleared => "APPLICATION_EXCLUSION_CLEARED"@,
        AuditAction::AdminPasswordChanged => "ADMIN_PASSWORD_CHANGED"@,
        AuditAction::AppInfoUpdated => "APP_INFO_UPDATED"@,
        AuditAction::DbBackupDownloaded => "DB_BACKUP_DOWNLOADED"@,
    }
}

/// The stored text of an audited action.
pub fn audit_action_text(x: AuditAction) -> (s: &'static str)
    ensures
        s@ == audit_action_spec(x),
{
    match x {
        AuditAction::RoundOpened => "ROUND_OPENED",
        AuditAction::RoundClosed => "ROUND_CLOSED",
        AuditAction::RoundReopened => "ROUND_REOPENED",
        AuditAction::RoundFinalized => "ROUND_FINALIZED",
        AuditAction::ScoresRecalculated => "SCORES_RECALCULATED",
        AuditAction::RecommendConfirmed => "RECOMMEND_CONFIRMED",
        AuditAction::RecommendCanceled => "RECOMMEND_CANCELED",
        AuditAction::AutoRecommendRun => "AUTO_RECOMMEND_RUN",
        AuditAction::ApplicationSaved => "APPLICATION_SAVED",
        AuditAction::ApplicationDeleted => "APPLICATION_DELETED",
        AuditAction::ApplicationAbandoned => "APPLICATION_ABANDONED",
        AuditAction::ClassesImported => "CLASSES_IMPORTED",
        AuditAction::ClassSaved => "CLASS_SAVED",
        AuditAction::ClassDeleted => "CLASS_DELETED",
        AuditAction::StudentsImported => "STUDENTS_IMPORTED",
        AuditAction::StudentAdded => "STUDENT_ADDED",
        AuditAction::StudentDeleted => "STUDENT_DELETED",
        AuditAction::AreaCreated => "AREA_CREATED",
        AuditAction::AreaUpdated => "AREA_UPDATED",
        AuditAction::AreaDeleted => "AREA_DELETED",
        AuditAction::ScoreTableImported => "SCORE_TABLE_IMPORTED",
        AuditAction::BaseDataImported => "BASE_DATA_IMPORTED",
        AuditAction::UniversityCreated => "UNIVERSITY_CREATED",
        AuditAction::UniversityUpdated => "UNIVERSITY_UPDATED",
        AuditAction::UniversityDeleted => "UNIVERSITY_DELETED",
        AuditAction::TrackCreated => "TRACK_CREATED",
        AuditAction::TrackUpdated => "TRACK_UPDATED",
        AuditAction::TrackDeleted => "TRACK_DELETED",
        AuditAction::UniversitySettingsImported => "UNIVERSITY_SETTINGS_IMPORTED",
        AuditAction::RoundConfirmed => "ROUND_CONFIRMED",
        AuditAction::RoundConfirmationRevoked => "ROUND_CONFIRMATION_REVOKED",
        AuditAction::ApplicationExcluded => "APPLICATION_EXCLUDED",
        AuditAction::ApplicationExclusionCleared => "APPLICATION_EXCLUSION_CLEARED",
        AuditAction::AdminPasswordChanged => "ADMIN_PASSWORD_CHANGED",
        AuditAction::AppInfoUpdated => "APP_INFO_UPDATED",
        AuditAction::DbBackupDownloaded => "DB_BACKUP_DOWNLOADED",
    }
}

/// Law: the stored texts tell the values apart (they differ in their first
/// letter), so reading back a stored text gives the value that was stored.
pub proof fn law_stored_texts_distinct(
    a: RoundStatus,
    b: RoundStatus,
    c: CalcType,
    d: CalcType,
    e: LookupScope,
    f: LookupScope,
    g: MatchMode,
    h: MatchMode,
    i: CategoryAgg,
    j: CategoryAgg,
)
    ensures
        round_status_spec(a) == round_status_spec(b) ==> a == b,
        calc_type_spec(c) == calc_type_spec(d) ==> c == d,
        lookup_scope_spec(e) == lookup_scope_spec(f) ==> e == f,
        match_mode_spec(g) == match_mode_spec(h) ==> g == h,
        category_agg_spec(i) == category_agg_spec(j) ==> i == j,
{
    reveal_strlit("OPEN");
    reveal_strlit("CLOSED");
    reveal_strlit("FINALIZED");
    reveal_strlit("NUMERIC");
    reveal_strlit("CATEGORY");
    reveal_strlit("MANUAL");
    reveal_strlit("SIMPLE");
    reveal_strlit("COMPOSITE");
    reveal_strlit("UPPER");
    reveal_strlit("LOWER");
    reveal_strlit("EXACT");
    reveal_strlit("SUM");
    reveal_strlit("MAX");
    assert(round_status_spec(a)[0] == round_status_spec(b)[0] ==> a == b);
    assert(calc_type_spec(c)[0] == calc_type_spec(d)[0] ==> c == d);
    assert(lookup_scope_spec(e)[0] == lookup_scope_spec(f)[0] ==> e == f);
    assert(match_mode_spec(g)[0] == match_mode_spec(h)[0] ==> g == h);
    assert(category_agg_spec(i)[0] == category_agg_spec(j)[0] ==> i == j);
}

} // verus!
