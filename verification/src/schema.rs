//! Schema versions: each version is a list of SQL fragments; a database records
//! its version, and the versions it lacks are applied in order.
use vstd::prelude::*;
use crate::text::{append_str, chars_of, decimal, push_all, push_decimal, string_of};

verus! {

/// The schema version this program writes.
pub const SCHEMA_VERSION: u32 = 1;

/// A database written by a newer program.
#[derive(Debug, Clone, Copy, PartialEq, Eq, Structural)]
pub struct SchemaTooNewError {
    pub db_ver: u32,
    pub app_ver: u32,
}

/// The message of a too-new database.
pub open spec fn too_new_text(e: SchemaTooNewError) -> Seq<char> {
    "데이터베이스 스키마 버전(v"@ + decimal(e.db_ver as nat) + ")이 이 앱이 지원하는 최대 버전(v"@ + decimal(e.app_ver as nat)
        + ")보다 높습니다. 최신 버전의 앱을 다운로드하여 사용해 주세요."@
}

impl SchemaTooNewError {
    /// The message shown to the user.
    pub fn message(&self) -> (m: String)
        ensures
            m@ == too_new_text(*self),
    {
        let mut v = chars_of("데이터베이스 스키마 버전(v");
        push_decimal(&mut v, self.db_ver as u64);
        append_str(&mut v, ")이 이 앱이 지원하는 최대 버전(v");
        push_decimal(&mut v, self.app_ver as u64);
        append_str(&mut v, ")보다 높습니다. 최신 버전의 앱을 다운로드하여 사용해 주세요.");
        string_of(&v)
    }
}

/// Texts joined with a line break between them.
pub open spec fn joined_lines(parts: Seq<Seq<char>>) -> Seq<char>
    decreases parts.len(),
{
    if parts.len() == 0 {
        Seq::empty()
    } else if parts.len() == 1 {
        parts[0]
    } else {
        joined_lines(parts.drop_last()) + "\n"@ + parts.last()
    }
}

fn join_lines(parts: &Vec<String>) -> (r: String)
    ensures
        r@ == joined_lines(parts@.map_values(|s: String| s@)),
{
    let ghost views = parts@.map_values(|s: String| s@);
    let mut v: Vec<char> = Vec::new();
    let mut i: usize = 0;
    while i < parts.len()
        invariant
            i <= parts@.len(),
            views == parts@.map_values(|s: String| s@),
            v@ == joined_lines(views.take(i as int)),
        decreases parts@.len() - i,
    {
        if i > 0 {
            append_str(&mut v, "\n");
        }
        let w = chars_of(parts[i].as_str());
        push_all(&mut v, &w);
        proof {
            let t = views.take(i + 1);
            assert(t.drop_last() =~= views.take(i as int));
            assert(t.last() == parts@[i as int]@);
            if i == 0 {
                assert(views.take(0) =~= Seq::<Seq<char>>::empty());
                assert(v@ =~= t[0]);
            }
        }
        i = i + 1;
    }
    assert(views.take(parts@.len() as int) =~= views);
    string_of(&v)
}

/// The SQL of each version: its fragments joined with line breaks.
pub fn migration_sqls(fragments: &Vec<Vec<String>>) -> (r: Vec<String>)
    ensures
        r@.len() == fragments@.len(),
        forall|k: int| 0 <= k < r@.len() ==> #[trigger] r@[k]@ == joined_lines(fragments@[k]@.map_values(|s: String| s@)),
{
    let mut out: Vec<String> = Vec::new();
    let mut k: usize = 0;
    while k < fragments.len()
        invariant
            k <= fragments@.len(),
            out@.len() == k,
            forall|t: int| 0 <= t < k ==> #[trigger] out@[t]@ == joined_lines(fragments@[t]@.map_values(|s: String| s@)),
        decreases fragments@.len() - k,
    {
        out.push(join_lines(&fragments[k]));
        k = k + 1;
    }
    out
}

/// The whole schema: every version's SQL, joined with line breaks.
pub fn full_schema_sql(fragments: &Vec<Vec<String>>) -> (r: String)
    ensures
        r@ == joined_lines(migration_sqls_spec(fragments@)),
{
    let sqls = migration_sqls(fragments);
    assert(sqls@.map_values(|s: String| s@) =~= migration_sqls_spec(fragments@));
    join_lines(&sqls)
}

/// The SQL of each version, as text.
pub open spec fn migration_sqls_spec(fragments: Seq<Vec<String>>) -> Seq<Seq<char>> {
    fragments.map_values(|f: Vec<String>| joined_lines(f@.map_values(|s: String| s@)))
}

/// The versions to apply to a database at version `current`, in order: those after
/// it up to the program's. A database newer than the program is refused.
pub fn migration_plan(current: u32, schema_version: u32) -> (r: Result<Vec<u32>, SchemaTooNewError>)
    ensures
        current > schema_version ==> r == Err::<Vec<u32>, SchemaTooNewError>(
            SchemaTooNewError { db_ver: current, app_ver: schema_version },
        ),
        current <= schema_version ==> (r matches Ok(v) && v@.len() == schema_version - current && forall|k: int|
            0 <= k < v@.len() ==> #[trigger] v@[k] == current + k + 1),
{
    if current > schema_version {
        return Err(SchemaTooNewError { db_ver: current, app_ver: schema_version });
    }
    let mut v: Vec<u32> = Vec::new();
    let mut t: u32 = current;
    while t < schema_version
        invariant
            current <= t <= schema_version,
            v@.len() == t - current,
            forall|k: int| 0 <= k < v@.len() ==> #[trigger] v@[k] == current + k + 1,
        decreases schema_version - t,
    {
        t = t + 1;
        v.push(t);
    }
    Ok(v)
}

} // verus!
