//! The restore guide bundled with a data backup.
use vstd::prelude::*;
use crate::text::{append_str, chars_of, string_of};
use crate::paths::{CONFIG_FILENAME, DB_FILENAME, README_FILENAME};

verus! {

/// The guide's text: when the backup was taken, the program version, then the
/// restore steps (set the old folder aside, never overwrite it in place).
pub open spec fn readme_text(backed_up_at: Seq<char>, version: Seq<char>) -> Seq<char> {
    "학교장추천 관리 시스템 — 데이터 백업\n\n백업 시각 : "@ + backed_up_at + "\n프로그램 버전 : "@ + version
        + "\n\n이 zip 안의 pcm 폴더가 프로그램 데이터 전부입니다.\n\n\n[ 복원 방법 ]\n\n1. 프로그램을 완전히 종료합니다.\n   화면 우측 아래 트레이 아이콘을 클릭한 뒤 [종료]를 선택합니다.\n   (브라우저 창만 닫는 것으로는 종료되지 않습니다.)\n\n2. principal-candidate-manager.exe 가 있는 폴더를 엽니다.\n\n3. 그 폴더에 있는 기존 pcm 폴더의 이름을 pcm_old 로 바꿉니다.\n   ★ 지우지 말고 이름만 바꾸세요. 복원이 잘못돼도 되돌릴 수 있습니다.\n\n4. 이 zip 안의 pcm 폴더를 2번에서 연 폴더(exe 옆)로 꺼냅니다.\n\n5. 프로그램을 다시 실행합니다.\n\n6. 데이터가 정상인지 확인한 뒤에 pcm_old 폴더를 지웁니다.\n\n\n[ 반드시 지켜야 할 것 ]\n\n기존 pcm 폴더에 그대로 '덮어쓰기' 하면 안 됩니다.\n덮어쓰면 이전 데이터의 흔적 파일이 폴더에 남아,\n복원한 데이터가 손상될 수 있습니다.\n반드시 3번처럼 기존 폴더를 통째로 치운 뒤에 넣으십시오.\n\n\n[ 개인정보 주의 ]\n\n이 파일에는 전교생의 개인정보와 성적 자료가 들어 있습니다.\n외부로 유출되지 않도록 보관에 주의하고,\n필요 없어지면 완전히 삭제하십시오.\n"@
}

/// The restore guide for a backup taken at `backed_up_at` by program `version`.
pub fn backup_readme(backed_up_at: &str, version: &str) -> (r: String)
    ensures
        r@ == readme_text(backed_up_at@, version@),
{
    let mut v = chars_of("학교장추천 관리 시스템 — 데이터 백업\n\n백업 시각 : ");
    append_str(&mut v, backed_up_at);
    append_str(&mut v, "\n프로그램 버전 : ");
    append_str(&mut v, version);
    append_str(
        &mut v,
        "\n\n이 zip 안의 pcm 폴더가 프로그램 데이터 전부입니다.\n\n\n[ 복원 방법 ]\n\n1. 프로그램을 완전히 종료합니다.\n   화면 우측 아래 트레이 아이콘을 클릭한 뒤 [종료]를 선택합니다.\n   (브라우저 창만 닫는 것으로는 종료되지 않습니다.)\n\n2. principal-candidate-manager.exe 가 있는 폴더를 엽니다.\n\n3. 그 폴더에 있는 기존 pcm 폴더의 이름을 pcm_old 로 바꿉니다.\n   ★ 지우지 말고 이름만 바꾸세요. 복원이 잘못돼도 되돌릴 수 있습니다.\n\n4. 이 zip 안의 pcm 폴더를 2번에서 연 폴더(exe 옆)로 꺼냅니다.\n\n5. 프로그램을 다시 실행합니다.\n\n6. 데이터가 정상인지 확인한 뒤에 pcm_old 폴더를 지웁니다.\n\n\n[ 반드시 지켜야 할 것 ]\n\n기존 pcm 폴더에 그대로 '덮어쓰기' 하면 안 됩니다.\n덮어쓰면 이전 데이터의 흔적 파일이 폴더에 남아,\n복원한 데이터가 손상될 수 있습니다.\n반드시 3번처럼 기존 폴더를 통째로 치운 뒤에 넣으십시오.\n\n\n[ 개인정보 주의 ]\n\n이 파일에는 전교생의 개인정보와 성적 자료가 들어 있습니다.\n외부로 유출되지 않도록 보관에 주의하고,\n필요 없어지면 완전히 삭제하십시오.\n",
    );
    string_of(&v)
}

/// Text with every line break written as CR LF.
pub open spec fn crlf(s: Seq<char>) -> Seq<char>
    decreases s.len(),
{
    if s.len() == 0 {
        Seq::empty()
    } else {
        crlf(s.drop_last()) + if s.last() == '\n' { seq!['\r', '\n'] } else { seq![s.last()] }
    }
}

/// The guide's bytes: a UTF-8 byte-order mark, then the text with CR LF line
/// breaks, so that Notepad shows it correctly.
pub open spec fn readme_bytes(readme: Seq<char>) -> Seq<u8> {
    seq![0xEFu8, 0xBBu8, 0xBFu8] + vstd::utf8::encode_utf8(crlf(readme))
}

/// The entries of a backup archive: the database (and the port settings when
/// present) inside the data folder, and the restore guide at the top level.
pub open spec fn backup_entries_spec(db: Seq<u8>, config: Option<Seq<u8>>, readme: Seq<char>) -> Seq<(Seq<char>, Seq<u8>)> {
    let first = seq![("pcm/"@ + DB_FILENAME@, db)];
    let with_config = match config {
        Some(c) => first.push(("pcm/"@ + CONFIG_FILENAME@, c)),
        None => first,
    };
    with_config.push((README_FILENAME@, readme_bytes(readme)))
}

/// The plain view of archive entries.
pub open spec fn entries_view(e: Seq<(String, Vec<u8>)>) -> Seq<(Seq<char>, Seq<u8>)> {
    e.map_values(|x: (String, Vec<u8>)| (x.0@, x.1@))
}

fn copy_bytes(b: &[u8]) -> (r: Vec<u8>)
    ensures
        r@ == b@,
{
    let mut out: Vec<u8> = Vec::new();
    let mut i: usize = 0;
    while i < b.len()
        invariant
            i <= b@.len(),
            out@ == b@.take(i as int),
        decreases b@.len() - i,
    {
        out.push(b[i]);
        i = i + 1;
        assert(b@.take(i as int) =~= b@.take(i - 1).push(b@[i - 1]));
    }
    assert(b@.take(i as int) =~= b@);
    out
}

fn crlf_text(s: &str) -> (r: String)
    ensures
        r@ == crlf(s@),
{
    let cs = chars_of(s);
    let mut v: Vec<char> = Vec::new();
    let mut i: usize = 0;
    while i < cs.len()
        invariant
            i <= cs@.len(),
            cs@ == s@,
            v@ == crlf(cs@.take(i as int)),
        decreases cs@.len() - i,
    {
        let c = cs[i];
        if c == '\n' {
            v.push('\r');
            v.push('\n');
        } else {
            v.push(c);
        }
        assert(cs@.take(i + 1).drop_last() =~= cs@.take(i as int));
        i = i + 1;
        assert(v@ =~= crlf(cs@.take(i as int)));
    }
    assert(cs@.take(i as int) =~= cs@);
    string_of(&v)
}

fn path_in_data_dir(name: &str) -> (r: String)
    ensures
        r@ == "pcm/"@ + name@,
{
    let mut v = chars_of("pcm/");
    append_str(&mut v, name);
    string_of(&v)
}

/// The entries of a backup archive (see `backup_entries_spec`).
pub fn backup_entries(db_bytes: &[u8], config_bytes: Option<&[u8]>, readme: &str) -> (r: Vec<(String, Vec<u8>)>)
    ensures
        entries_view(r@) == backup_entries_spec(db_bytes@, match config_bytes { Some(c) => Some(c@), None => None }, readme@),
{
    let mut out: Vec<(String, Vec<u8>)> = Vec::new();
    out.push((path_in_data_dir(DB_FILENAME), copy_bytes(db_bytes)));
    match config_bytes {
        Some(c) => {
            out.push((path_in_data_dir(CONFIG_FILENAME), copy_bytes(c)));
        },
        None => {},
    }
    let text = crlf_text(readme);
    let mut bytes: Vec<u8> = Vec::new();
    bytes.push(0xEF);
    bytes.push(0xBB);
    bytes.push(0xBF);
    let body = copy_bytes(text.as_str().as_bytes());
    let mut i: usize = 0;
    while i < body.len()
        invariant
            i <= body@.len(),
            bytes@ == seq![0xEFu8, 0xBBu8, 0xBFu8] + body@.take(i as int),
        decreases body@.len() - i,
    {
        bytes.push(body[i]);
        i = i + 1;
        assert(body@.take(i as int) =~= body@.take(i - 1).push(body@[i - 1]));
    }
    assert(body@.take(i as int) =~= body@);
    out.push((string_of(&chars_of(README_FILENAME)), bytes));
    assert(entries_view(out@) =~= backup_entries_spec(
        db_bytes@,
        match config_bytes { Some(c) => Some(c@), None => None },
        readme@,
    ));
    out
}

/// The framing of a zip archive of `n` entries (none of them duplicated) with no
/// archive comment: it opens with a local file header (where there is an entry)
/// and closes with the 22-byte end-of-central-directory record on disk 0, which
/// counts the entries (at most `0xFFFF`) and holds no comment.
pub open spec fn zip_framing(b: Seq<u8>, n: nat) -> bool {
    let k = b.len() - 22;
    let count: int = if n < 0xFFFF { n as int } else { 0xFFFF };
    &&& n > 0 ==> b.len() >= 4 && b.subrange(0, 4) == seq![0x50u8, 0x4Bu8, 0x03u8, 0x04u8]
    &&& b.len() >= 22
    &&& b.subrange(k, k + 8) == seq![0x50u8, 0x4Bu8, 0x05u8, 0x06u8, 0u8, 0u8, 0u8, 0u8]
    &&& b[k + 8] == count % 256 && b[k + 9] == count / 256
    &&& b[k + 10] == count % 256 && b[k + 11] == count / 256
    &&& b[k + 20] == 0 && b[k + 21] == 0
}

/// An in-memory `zip::ZipWriter`, private to this module: what it holds is
/// known through `zip_contents` and `zip_open` alone.
#[verifier::external_body]
pub struct ZipSink {
    z: zip::ZipWriter<std::io::Cursor<Vec<u8>>>,
}

/// The files an in-memory zip writer holds so far: each name with the bytes
/// written to it, in order; the last file is the one being written.
pub uninterp spec fn zip_contents(z: ZipSink) -> Seq<(Seq<char>, Seq<u8>)>;

/// A file of the writer is open for writing: the last one successfully started,
/// since no later start failed.
pub uninterp spec fn zip_open(z: ZipSink) -> bool;

/// The files of a zip archive read back from its bytes: each name with its
/// uncompressed bytes, in the order of the central directory.
pub uninterp spec fn zip_entries(bytes: Seq<u8>) -> Seq<(Seq<char>, Seq<u8>)>;

/// The largest archive whose writing the crate's source shows cannot fail:
/// every size and offset stays below the 32-bit limits without the large-file option.
pub open spec fn zip_size_limit() -> nat {
    0x4000_0000
}

/// The bytes held by files `0..n`.
pub open spec fn total_bytes(c: Seq<(Seq<char>, Seq<u8>)>, n: int) -> nat
    decreases n,
{
    if n <= 0 {
        0
    } else {
        total_bytes(c, n - 1) + c[n - 1].1.len()
    }
}

/// The file name is held by one of the files.
pub open spec fn has_name(c: Seq<(Seq<char>, Seq<u8>)>, name: Seq<char>) -> bool {
    exists|k: int| 0 <= k < c.len() && (#[trigger] c[k]).0 == name
}

/// `zip::ZipWriter::new` over an empty in-memory buffer: no file yet.
#[verifier::external_body]
fn zip_sink() -> (z: ZipSink)
    ensures
        zip_contents(z) == Seq::<(Seq<char>, Seq<u8>)>::empty(),
        !zip_open(z),
{
    ZipSink { z: zip::ZipWriter::new(std::io::Cursor::new(Vec::new())) }
}

/// `zip::ZipWriter::start_file` with deflate compression (default options
/// otherwise). The crate's source refuses a name already in the archive
/// (`insert_file_data`) and a local header of 64 KiB or more; a fresh name of
/// fewer than 32 768 UTF-8 bytes is accepted. On success the new, empty file is
/// added and open; on failure the writer's state is not stated.
#[verifier::external_body]
fn zip_start_file(z: &mut ZipSink, name: &str) -> (r: Result<(), String>)
    ensures
        !has_name(zip_contents(*old(z)), name@) && crate::text::utf8_len(name@) < 0x8000 ==> r is Ok,
        r is Ok ==> !has_name(zip_contents(*old(z)), name@),
        r is Ok ==> zip_contents(*final(z)) == zip_contents(*old(z)).push((name@, Seq::<u8>::empty())),
        r is Ok ==> zip_open(*final(z)),
{
    let opts = zip::write::SimpleFileOptions::default().compression_method(zip::CompressionMethod::Deflated);
    z.z.start_file(name, opts).map_err(|e| e.to_string())
}

/// `Write::write_all` on the writer: the bytes are added to the open file. The
/// crate's source refuses bytes when no file is open and a file past 4 GiB
/// without the large-file option; below the size limit, with a file open,
/// writing succeeds. Writing no bytes succeeds and changes nothing. On failure
/// the state is not stated.
#[verifier::external_body]
fn zip_write(z: &mut ZipSink, bytes: &Vec<u8>) -> (r: Result<(), String>)
    ensures
        zip_open(*old(z)) && total_bytes(zip_contents(*old(z)), zip_contents(*old(z)).len() as int) + bytes@.len()
            < zip_size_limit() ==> r is Ok,
        r is Ok && bytes@.len() > 0 ==> zip_open(*old(z)),
        r is Ok ==> zip_open(*final(z)) == zip_open(*old(z)),
        r is Ok && zip_open(*old(z)) ==> zip_contents(*final(z)) == zip_contents(*old(z)).update(
            zip_contents(*old(z)).len() - 1,
            (zip_contents(*old(z)).last().0, zip_contents(*old(z)).last().1 + bytes@),
        ),
        r is Ok && !zip_open(*old(z)) ==> zip_contents(*final(z)) == zip_contents(*old(z)),
{
    std::io::Write::write_all(&mut z.z, bytes.as_slice()).map_err(|e| e.to_string())
}

/// `zip::ZipWriter::finish`, then the buffer. Claims, of every archive written,
/// its framing (`zip_framing`): the first local header at offset 0 and the
/// end-of-central-directory record, without comment, ending the stream. Below
/// the size limit finishing succeeds. Read back, the archive holds the writer's
/// files with their bytes. The compressed bytes, sizes and offsets are not
/// stated, and each file records the current time as its modification time.
#[verifier::external_body]
fn zip_finish(z: ZipSink) -> (r: Result<Vec<u8>, String>)
    ensures
        total_bytes(zip_contents(z), zip_contents(z).len() as int) < zip_size_limit() ==> r is Ok,
        r is Ok ==> zip_framing(r->Ok_0@, zip_contents(z).len()),
        r is Ok ==> zip_entries(r->Ok_0@) == zip_contents(z),
{
    z.z.finish().map(|c| c.into_inner()).map_err(|e| e.to_string())
}

/// No two entries share a name.
pub open spec fn distinct_names(e: Seq<(Seq<char>, Seq<u8>)>) -> bool {
    forall|i: int, j: int| 0 <= i < j < e.len() ==> (#[trigger] e[i]).0 != (#[trigger] e[j]).0
}

/// Every name has fewer than 32 768 UTF-8 bytes.
pub open spec fn short_names(e: Seq<(Seq<char>, Seq<u8>)>) -> bool {
    forall|i: int| 0 <= i < e.len() ==> crate::text::utf8_len((#[trigger] e[i]).0) < 0x8000
}

proof fn lemma_total_prefix(e: Seq<(Seq<char>, Seq<u8>)>, i: int, j: int)
    requires
        0 <= i <= j <= e.len(),
    ensures
        total_bytes(e, i) <= total_bytes(e, j),
    decreases j - i,
{
    if i < j {
        lemma_total_prefix(e, i, j - 1);
    }
}

/// Writes entries into an in-memory zip archive, each file deflated, in order.
/// Entries with distinct, short names and fewer bytes in all than the size
/// limit are always written; a written archive is framed as a zip of the entries.
fn zip_deflated(entries: &Vec<(String, Vec<u8>)>) -> (r: Result<Vec<u8>, String>)
    ensures
        distinct_names(entries_view(entries@)) && short_names(entries_view(entries@)) && total_bytes(
            entries_view(entries@),
            entries@.len() as int,
        ) < zip_size_limit() ==> r is Ok,
        r is Ok ==> zip_framing(r->Ok_0@, entries@.len()),
        r is Ok ==> zip_entries(r->Ok_0@) == entries_view(entries@),
{
    let ghost ev = entries_view(entries@);
    let ghost good = distinct_names(ev) && short_names(ev) && total_bytes(ev, ev.len() as int) < zip_size_limit();
    let mut z = zip_sink();
    let mut i: usize = 0;
    while i < entries.len()
        invariant
            i <= entries@.len(),
            ev == entries_view(entries@),
            ev.len() == entries@.len(),
            good == (distinct_names(ev) && short_names(ev) && total_bytes(ev, ev.len() as int) < zip_size_limit()),
            zip_contents(z) == ev.take(i as int),
        decreases entries@.len() - i,
    {
        let ghost before = zip_contents(z);
        proof {
            if good {
                assert forall|k: int| 0 <= k < before.len() implies (#[trigger] before[k]).0 != ev[i as int].0 by {
                    assert(before[k] == ev[k]);
                }
                assert(short_names(ev) ==> crate::text::utf8_len(ev[i as int].0) < 0x8000);
            }
        }
        match zip_start_file(&mut z, entries[i].0.as_str()) {
            Ok(()) => {},
            Err(e) => {
                return Err(e);
            },
        }
        let ghost mid = zip_contents(z);
        proof {
            if good {
                assert(total_bytes(before, i as int) == total_bytes(ev, i as int)) by {
                    assert(before =~= ev.take(i as int));
                    lemma_total_take(ev, i as int, i as int);
                }
                assert(total_bytes(mid, mid.len() as int) == total_bytes(before, i as int)) by {
                    lemma_total_push_empty(before, ev[i as int].0);
                }
                lemma_total_prefix(ev, i + 1, ev.len() as int);
                assert(total_bytes(ev, i + 1) == total_bytes(ev, i as int) + ev[i as int].1.len());
            }
        }
        match zip_write(&mut z, &entries[i].1) {
            Ok(()) => {},
            Err(e) => {
                return Err(e);
            },
        }
        assert(zip_contents(z) =~= ev.take(i + 1));
        i = i + 1;
    }
    assert(zip_contents(z) =~= ev);
    zip_finish(z)
}

proof fn lemma_total_take(e: Seq<(Seq<char>, Seq<u8>)>, i: int, n: int)
    requires
        0 <= n <= i <= e.len(),
    ensures
        total_bytes(e.take(i), n) == total_bytes(e, n),
    decreases n,
{
    if n > 0 {
        lemma_total_take(e, i, n - 1);
    }
}

proof fn lemma_total_push_empty(e: Seq<(Seq<char>, Seq<u8>)>, name: Seq<char>)
    ensures
        total_bytes(e.push((name, Seq::<u8>::empty())), e.len() + 1 as int) == total_bytes(e, e.len() as int),
{
    lemma_total_same(e.push((name, Seq::<u8>::empty())), e, e.len() as int);
}

proof fn lemma_total_same(a: Seq<(Seq<char>, Seq<u8>)>, b: Seq<(Seq<char>, Seq<u8>)>, n: int)
    requires
        0 <= n <= b.len(),
        n <= a.len(),
        forall|k: int| 0 <= k < n ==> a[k] == b[k],
    ensures
        total_bytes(a, n) == total_bytes(b, n),
    decreases n,
{
    if n > 0 {
        lemma_total_same(a, b, n - 1);
    }
}

/// The backup archive of the database, the optional port settings and the guide:
/// the entries of `backup_entries_spec` written by `zip_deflated`. Below the size
/// limit it is always written, framed as a zip of those entries (two, or three
/// with the settings). The clock decides the recorded modification times.
pub fn build_backup_zip(db_bytes: &[u8], config_bytes: Option<&[u8]>, readme: &str) -> (r: Result<Vec<u8>, String>)
    ensures
        ({
            let e = backup_entries_spec(db_bytes@, match config_bytes { Some(c) => Some(c@), None => None }, readme@);
            &&& total_bytes(e, e.len() as int) < zip_size_limit() ==> r is Ok
            &&& r is Ok ==> zip_framing(r->Ok_0@, e.len())
            &&& r is Ok ==> zip_entries(r->Ok_0@) == e
        }),
{
    let entries = backup_entries(db_bytes, config_bytes, readme);
    let ghost e = backup_entries_spec(db_bytes@, match config_bytes { Some(c) => Some(c@), None => None }, readme@);
    assert(entries@.len() == entries_view(entries@).len());
    proof {
        lemma_backup_names(e, db_bytes@, match config_bytes { Some(c) => Some(c@), None => None }, readme@);
    }
    zip_deflated(&entries)
}

proof fn lemma_utf8_len_bound(s: Seq<char>)
    ensures
        crate::text::utf8_len(s) <= 4 * s.len(),
    decreases s.len(),
{
    if s.len() > 0 {
        lemma_utf8_len_bound(s.drop_last());
    }
}

proof fn lemma_backup_names(e: Seq<(Seq<char>, Seq<u8>)>, db: Seq<u8>, config: Option<Seq<u8>>, readme: Seq<char>)
    requires
        e == backup_entries_spec(db, config, readme),
    ensures
        distinct_names(e),
        short_names(e),
{
    reveal_strlit("pcm/");
    reveal_strlit("data.db");
    reveal_strlit("config.json");
    reveal_strlit("복원방법.txt");
    assert(("pcm/"@ + DB_FILENAME@).len() == 11);
    assert(("pcm/"@ + CONFIG_FILENAME@).len() == 15);
    assert(README_FILENAME@.len() == 8);
    assert forall|i: int| 0 <= i < e.len() implies crate::text::utf8_len((#[trigger] e[i]).0) < 0x8000 by {
        lemma_utf8_len_bound(e[i].0);
    }
    assert forall|i: int, j: int| 0 <= i < j < e.len() implies (#[trigger] e[i]).0 != (#[trigger] e[j]).0 by {
        assert(e[i].0.len() != e[j].0.len());
    }
}

} // verus!
