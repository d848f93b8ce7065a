//! The title and description shown on the sign-in screen.
use vstd::prelude::*;
use crate::guards::{is_refusal, refuse, Refusal};
use crate::text::{chars_of, str_is, string_of, trim, trim_chars};

verus! {

/// The settings key of the title.
pub const TITLE_KEY: &'static str = "app_title";

/// The settings key of the description.
pub const DESC_KEY: &'static str = "app_desc";

/// The title before one is set.
pub const DEFAULT_TITLE: &'static str = "학교장 추천자";

/// The description before one is set.
pub const DEFAULT_DESC: &'static str = "선발 관리 시스템";

/// The longest title, in characters.
pub const MAX_TITLE_LEN: usize = 40;

/// The longest description, in characters.
pub const MAX_DESC_LEN: usize = 60;

/// The title and the description.
#[derive(Debug, Clone)]
pub struct AppInfo {
    pub title: String,
    pub desc: String,
}

/// A new title and description.
#[derive(Debug, Clone)]
pub struct UpdateAppInfoBody {
    pub title: String,
    pub desc: String,
}

/// The value stored under `key` among the settings rows (the first one), if any.
pub open spec fn setting_of(rows: Seq<(String, String)>, key: Seq<char>) -> Option<Seq<char>>
    decreases rows.len(),
{
    if rows.len() == 0 {
        None
    } else if rows[0].0@ == key {
        Some(rows[0].1@)
    } else {
        setting_of(rows.drop_first(), key)
    }
}

fn pick(rows: &Vec<(String, String)>, key: &str) -> (r: Option<String>)
    ensures
        match setting_of(rows@, key@) {
            Some(v) => r matches Some(s) && s@ == v,
            None => r is None,
        },
{
    let mut i: usize = 0;
    assert(rows@.skip(0) =~= rows@);
    while i < rows.len()
        invariant
            i <= rows@.len(),
            setting_of(rows@, key@) == setting_of(rows@.skip(i as int), key@),
        decreases rows@.len() - i,
    {
        assert(rows@.skip(i as int)[0] == rows@[i as int]);
        assert(rows@.skip(i as int).drop_first() =~= rows@.skip(i + 1));
        if str_is(rows[i].0.as_str(), key) {
            return Some(rows[i].1.clone());
        }
        i = i + 1;
    }
    assert(rows@.skip(i as int) =~= Seq::<(String, String)>::empty());
    None
}

/// The title and description from the settings rows, the defaults where unset.
pub fn read_app_info(rows: &Vec<(String, String)>) -> (r: AppInfo)
    ensures
        r.title@ == match setting_of(rows@, TITLE_KEY@) {
            Some(v) => v,
            None => DEFAULT_TITLE@,
        },
        r.desc@ == match setting_of(rows@, DESC_KEY@) {
            Some(v) => v,
            None => DEFAULT_DESC@,
        },
{
    let title = match pick(rows, TITLE_KEY) {
        Some(t) => t,
        None => string_of(&chars_of(DEFAULT_TITLE)),
    };
    let desc = match pick(rows, DESC_KEY) {
        Some(d) => d,
        None => string_of(&chars_of(DEFAULT_DESC)),
    };
    AppInfo { title, desc }
}

/// Checks a new title and description, trimmed: the title is required and at most
/// 40 characters, the description at most 60. Gives the trimmed pair.
pub fn update_app_info(body: &UpdateAppInfoBody) -> (r: Result<AppInfo, Refusal>)
    ensures
        trim(body.title@).len() == 0 ==> is_refusal(r, 400, "제목을 입력하세요"@),
        0 < trim(body.title@).len() && trim(body.title@).len() > MAX_TITLE_LEN ==> is_refusal(
            r,
            400,
            "제목은 40자 이하여야 합니다"@,
        ),
        0 < trim(body.title@).len() <= MAX_TITLE_LEN && trim(body.desc@).len() > MAX_DESC_LEN ==> is_refusal(
            r,
            400,
            "설명은 60자 이하여야 합니다"@,
        ),
        0 < trim(body.title@).len() <= MAX_TITLE_LEN && trim(body.desc@).len() <= MAX_DESC_LEN ==> (r matches Ok(info)
            && info.title@ == trim(body.title@) && info.desc@ == trim(body.desc@)),
{
    let title = trim_chars(&chars_of(body.title.as_str()));
    let desc = trim_chars(&chars_of(body.desc.as_str()));
    if title.len() == 0 {
        return Err(refuse(400, "제목을 입력하세요"));
    }
    if title.len() > MAX_TITLE_LEN {
        return Err(refuse(400, "제목은 40자 이하여야 합니다"));
    }
    if desc.len() > MAX_DESC_LEN {
        return Err(refuse(400, "설명은 60자 이하여야 합니다"));
    }
    Ok(AppInfo { title: string_of(&title), desc: string_of(&desc) })
}

} // verus!
