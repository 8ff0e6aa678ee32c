//! Upload ingestion: reading the identifier and file fields out of a
//! multipart body, naming the stored file, and deciding when a submission is
//! malformed.
//!
//! The transport (streaming the body in) happens at the unverified edge and
//! hands in plain parts; everything decided here — field handling, filename
//! sanitising and splitting, the unique on-disk name, the rejection of bodies
//! without a file — is verified.

use crate::errors::UploadError;
use crate::text::dec_digits;
use crate::text::trimmed_of;
use crate::text::u64_to_string;
use vstd::prelude::*;

verus! {

broadcast use vstd::std_specs::vec::group_vec_axioms, vstd::seq::group_seq_axioms;

/// What `sanitize_filename::sanitize` makes of a client-supplied name.
pub uninterp spec fn sanitized_of(s: Seq<char>) -> Seq<char>;

/// Relies on `sanitize_filename::sanitize_with_options` (truncating, with the
/// platform-independent rule set and an empty replacement, as the crate
/// defaults to off Windows): the result is a function of the name alone, and
/// every path separator in it has been removed.
#[verifier::external_body]
fn sanitize_name(s: &str) -> (r: String)
    ensures
        r@ == sanitized_of(s@),
        forall|i: int| 0 <= i < r@.len() ==> r@[i] != '/',
{
    sanitize_filename::sanitize_with_options(
        s,
        sanitize_filename::Options { windows: false, truncate: true, replacement: "" },
    )
}

/// What `String::from_utf8_lossy` makes of raw bytes.
pub uninterp spec fn lossy_utf8_of(b: Seq<u8>) -> Seq<char>;

/// Relies on `String::from_utf8_lossy`: the result is a function of the
/// bytes alone, and valid UTF-8 decodes to exactly its characters.
#[verifier::external_body]
fn utf8_lossy(b: &[u8]) -> (r: String)
    ensures
        r@ == lossy_utf8_of(b@),
        vstd::utf8::valid_utf8(b@) ==> r@ == vstd::utf8::decode_utf8(b@),
{
    String::from_utf8_lossy(b).into_owned()
}

/// Index of the last `.` in `name` at or before `i`, or -1 if there is none.
pub open spec fn last_dot_from(name: Seq<char>, i: int) -> int
    decreases i + 1,
{
    if i < 0 {
        -1
    } else if name[i] == '.' {
        i
    } else {
        last_dot_from(name, i - 1)
    }
}

/// Index of the last `.` in `name`, or -1 if there is none.
pub open spec fn last_dot(name: Seq<char>) -> int {
    last_dot_from(name, name.len() - 1)
}

/// The names that denote no file at all: empty, `.` and `..`.
pub open spec fn is_no_file_name(name: Seq<char>) -> bool {
    ||| name.len() == 0
    ||| (name.len() == 1 && name[0] == '.')
    ||| (name.len() == 2 && name[0] == '.' && name[1] == '.')
}

/// Stem and extension of a plain file name, split at the last `.`, the way
/// `Path::file_stem` and `Path::extension` split a name without separators: a
/// lone leading dot marks a hidden file, not an extension, and the names
/// empty, `.` and `..` have the fallback stem `file` and no extension.
pub open spec fn spec_split_name(name: Seq<char>) -> (Seq<char>, Seq<char>) {
    if is_no_file_name(name) {
        ("file"@, Seq::<char>::empty())
    } else if last_dot(name) <= 0 {
        (name, Seq::<char>::empty())
    } else {
        (name.take(last_dot(name)), name.skip(last_dot(name) + 1))
    }
}

/// A dot at `j` with none after it is the last dot.
proof fn lemma_last_dot_found(name: Seq<char>, j: int, i: int)
    requires
        0 <= j <= i < name.len(),
        name[j] == '.',
        forall|k: int| j < k < name.len() ==> name[k] != '.',
    ensures
        last_dot_from(name, i) == j,
    decreases i,
{
    if i > j {
        lemma_last_dot_found(name, j, i - 1);
    }
}

/// No dot up to `i` means no last dot up to `i`.
proof fn lemma_last_dot_none(name: Seq<char>, i: int)
    requires
        i < name.len(),
        forall|k: int| 0 <= k <= i ==> name[k] != '.',
    ensures
        last_dot_from(name, i) == -1,
    decreases i + 1,
{
    if i >= 0 {
        lemma_last_dot_none(name, i - 1);
    }
}

/// Splits a plain file name into stem and extension, as [`spec_split_name`]
/// lays down.
#[verifier::loop_isolation(false)]
pub fn split_file_name(name: &str) -> (r: (String, String))
    ensures
        r.0@ == spec_split_name(name@).0,
        r.1@ == spec_split_name(name@).1,
{
    let n: usize = name.unicode_len();
    let no_file = n == 0 || (n == 1 && name.get_char(0) == '.') || (n == 2 && name.get_char(0)
        == '.' && name.get_char(1) == '.');
    if no_file {
        let stem: &str = "file";
        proof {
            assert(is_no_file_name(name@));
        }
        return (stem.to_owned(), String::new());
    }
    let mut dot: usize = 0;
    let mut found: bool = false;
    let mut i: usize = 0;
    while i < n
        invariant
            i <= n,
            found ==> dot < i && name@[dot as int] == '.',
            found ==> forall|k: int| dot < k < i ==> name@[k] != '.',
            !found ==> forall|k: int| 0 <= k < i ==> name@[k] != '.',
        decreases n - i,
    {
        if name.get_char(i) == '.' {
            dot = i;
            found = true;
        }
        i = i + 1;
    }
    proof {
        if found {
            lemma_last_dot_found(name@, dot as int, n - 1);
        } else {
            lemma_last_dot_none(name@, n - 1);
        }
    }
    if !found || dot == 0 {
        return (name.to_owned(), String::new());
    }
    let stem: &str = name.substring_char(0, dot);
    let ext: &str = name.substring_char(dot + 1, n);
    proof {
        assert(stem@ =~= name@.take(dot as int));
        assert(ext@ =~= name@.skip(dot as int + 1));
    }
    (stem.to_owned(), ext.to_owned())
}

/// The unique on-disk name for an upload: the sanitized name's stem, an
/// underscore, the upload time in seconds, a dot, and the original extension.
pub open spec fn spec_unique_name(filename: Seq<char>, now: nat) -> Seq<char> {
    let parts = spec_split_name(sanitized_of(filename));
    parts.0 + seq!['_'] + dec_digits(now) + seq!['.'] + parts.1
}

/// Derives the unique on-disk name `<stem>_<now>.<ext>` from a
/// client-supplied filename, sanitising it first.
pub fn unique_file_name(filename: &str, now: u64) -> (r: String)
    ensures
        r@ == spec_unique_name(filename@, now as nat),
{
    let sanitized: String = sanitize_name(filename);
    let (stem, ext) = split_file_name(sanitized.as_str());
    let digits: String = u64_to_string(now);
    let r = stem.concat("_").concat(digits.as_str()).concat(".").concat(ext.as_str());
    proof {
        reveal_strlit("_");
        reveal_strlit(".");
        assert("_"@ =~= seq!['_']);
        assert("."@ =~= seq!['.']);
        assert(r@ =~= spec_unique_name(filename@, now as nat));
    }
    r
}

/// A directory path joined with a plain file name, the way `Path::join`
/// joins a relative name: a `/` goes between them unless the directory is
/// empty or already ends in one.
pub open spec fn spec_join_path(dir: Seq<char>, name: Seq<char>) -> Seq<char> {
    if dir.len() == 0 {
        name
    } else if dir.last() == '/' {
        dir + name
    } else {
        dir + seq!['/'] + name
    }
}

/// Joins the managed directory's path with a stored file's name.
pub fn join_path(dir: &str, name: &str) -> (r: String)
    ensures
        r@ == spec_join_path(dir@, name@),
{
    let n: usize = dir.unicode_len();
    if n == 0 {
        name.to_owned()
    } else if dir.get_char(n - 1) == '/' {
        let r = dir.to_owned().concat(name);
        proof {
            assert(r@ =~= spec_join_path(dir@, name@));
        }
        r
    } else {
        let r = dir.to_owned().concat("/").concat(name);
        proof {
            reveal_strlit("/");
            assert("/"@ =~= seq!['/']);
            assert(r@ =~= spec_join_path(dir@, name@));
        }
        r
    }
}

/// A name that is safe to look up inside the managed directory: non-empty,
/// free of path separators, and not a dot-only name that would walk upward.
pub open spec fn is_safe_lookup_name(name: Seq<char>) -> bool {
    &&& name.len() > 0
    &&& !is_no_file_name(name)
    &&& forall|i: int| 0 <= i < name.len() ==> name[i] != '/' && name[i] != '\\'
}

/// The path for retrieving a previously generated artifact by name: the name
/// joined onto the managed directory, or nothing when the name could escape
/// it (a separator anywhere, or a dot-only name).
pub fn artifact_request_path(dir: &str, name: &str) -> (r: Option<String>)
    ensures
        r is Some <==> is_safe_lookup_name(name@),
        r matches Option::Some(p) ==> p@ == spec_join_path(dir@, name@),
{
    let n: usize = name.unicode_len();
    if n == 0 || (n == 1 && name.get_char(0) == '.') || (n == 2 && name.get_char(0) == '.'
        && name.get_char(1) == '.') {
        return Option::None;
    }
    let mut i: usize = 0;
    while i < n
        invariant
            i <= n,
            n == name@.len(),
            forall|k: int| 0 <= k < i ==> name@[k] != '/' && name@[k] != '\\',
        decreases n - i,
    {
        let c: char = name.get_char(i);
        if c == '/' || c == '\\' {
            return Option::None;
        }
        i = i + 1;
    }
    Option::Some(join_path(dir, name))
}

/// One named part of a multipart body, as the transport hands it in: the
/// field name, the filename if the part carried one, and the payload in the
/// chunks it arrived in.
pub struct Part {
    pub name: String,
    pub filename: Option<String>,
    pub chunks: Vec<Vec<u8>>,
}

/// The payload of a part: its chunks, flattened in arrival order.
pub open spec fn flat_bytes(chunks: Seq<Seq<u8>>) -> Seq<u8>
    decreases chunks,
{
    if chunks.len() == 0 {
        Seq::<u8>::empty()
    } else {
        chunks[0] + flat_bytes(chunks.drop_first())
    }
}

/// Flattening one more chunk appends exactly that chunk.
proof fn lemma_flat_bytes_take(chunks: Seq<Seq<u8>>, i: int)
    requires
        0 <= i < chunks.len(),
    ensures
        flat_bytes(chunks.take(i + 1)) == flat_bytes(chunks.take(i)) + chunks[i],
    decreases i,
{
    if i == 0 {
        assert(chunks.take(0) =~= Seq::<Seq<u8>>::empty());
        assert(chunks.take(1) =~= seq![chunks[0]]);
        assert(chunks.take(1).drop_first() =~= Seq::<Seq<u8>>::empty());
        assert(flat_bytes(chunks.take(0)) + chunks[0] =~= chunks[0] + Seq::<u8>::empty());
    } else {
        lemma_flat_bytes_take(chunks.drop_first(), i - 1);
        assert(chunks.take(i + 1).drop_first() =~= chunks.drop_first().take(i));
        assert(chunks.take(i).drop_first() =~= chunks.drop_first().take(i - 1));
        assert(chunks.take(i + 1)[0] == chunks[0]);
        assert(chunks.take(i)[0] == chunks[0]);
        assert(chunks.drop_first()[i - 1] == chunks[i]);
        assert((chunks[0] + flat_bytes(chunks.drop_first().take(i - 1))) + chunks[i] =~= chunks[0]
            + (flat_bytes(chunks.drop_first().take(i - 1)) + chunks[i]));
    }
}

/// Concatenates a part's chunks into the full payload.
#[verifier::loop_isolation(false)]
pub fn concat_chunks(chunks: &Vec<Vec<u8>>) -> (r: Vec<u8>)
    ensures
        r@ == flat_bytes(chunks.deep_view()),
{
    let mut r: Vec<u8> = Vec::new();
    let ghost all = chunks.deep_view();
    proof {
        assert(all.take(0) =~= Seq::<Seq<u8>>::empty());
    }
    let n: usize = chunks.len();
    let mut i: usize = 0;
    while i < n
        invariant
            i <= n,
            r@ == flat_bytes(all.take(i as int)),
        decreases n - i,
    {
        let chunk: &Vec<u8> = &chunks[i];
        let m: usize = chunk.len();
        let mut j: usize = 0;
        while j < m
            invariant
                j <= m,
                i < n,
                m == chunk@.len(),
                chunk == chunks[i as int],
                r@ == flat_bytes(all.take(i as int)) + chunk@.take(j as int),
            decreases m - j,
        {
            r.push(chunk[j]);
            proof {
                assert(chunk@.take(j as int).push(chunk@[j as int]) =~= chunk@.take(j + 1));
                assert((flat_bytes(all.take(i as int)) + chunk@.take(j as int)).push(
                    chunk@[j as int],
                ) =~= flat_bytes(all.take(i as int)) + chunk@.take(j + 1));
            }
            j = j + 1;
        }
        proof {
            lemma_flat_bytes_take(all, i as int);
            assert(chunk@.take(m as int) =~= chunk@);
            assert(all[i as int] == chunk@);
        }
        i = i + 1;
    }
    proof {
        assert(all.take(n as int) =~= all);
    }
    r
}

/// The identifier a `player_id` part carries: its payload decoded as text,
/// lossily, and stripped of surrounding whitespace.
pub open spec fn spec_player_id_of(bytes: Seq<u8>) -> Seq<char> {
    trimmed_of(lossy_utf8_of(bytes))
}

/// Reads the identifier out of a `player_id` part's chunks.
pub fn read_player_id(chunks: &Vec<Vec<u8>>) -> (r: String)
    ensures
        r@ == spec_player_id_of(flat_bytes(chunks.deep_view())),
{
    let bytes: Vec<u8> = concat_chunks(chunks);
    let text: String = utf8_lossy(bytes.as_slice());
    crate::text::trim_str(text.as_str())
}

/// What ingesting a whole upload yields: the identifier, the unique path the
/// file is to be stored under, and the file's bytes.
#[derive(Debug)]
pub struct IngestPlan {
    pub player_id: String,
    pub stored_path: String,
    pub content: Vec<u8>,
}

/// The view of a pending file: its stored path and its bytes.
pub open spec fn file_state_view(f: Option<(String, Vec<u8>)>) -> Option<(Seq<char>, Seq<u8>)> {
    match f {
        Option::Some((path, content)) => Option::Some((path@, content@)),
        Option::None => Option::None,
    }
}

/// The field walk over the remaining parts, carrying the identifier and the
/// file seen so far: a `player_id` part replaces the identifier, a `file`
/// part must carry a filename (else the walk stops with `MissingFilename`)
/// and replaces the pending file, any other part is ignored; a body whose
/// walk ends without any file is rejected with `MissingFile`.
pub open spec fn spec_ingest(
    parts: Seq<Part>,
    now: nat,
    dir: Seq<char>,
    id: Seq<char>,
    file: Option<(Seq<char>, Seq<u8>)>,
) -> Result<(Seq<char>, Seq<char>, Seq<u8>), UploadError>
    decreases parts,
{
    if parts.len() == 0 {
        match file {
            Option::Some((path, content)) => Result::Ok((id, path, content)),
            Option::None => Result::Err(UploadError::MissingFile),
        }
    } else {
        let p = parts[0];
        if p.name@ == "player_id"@ {
            spec_ingest(
                parts.drop_first(),
                now,
                dir,
                spec_player_id_of(flat_bytes(p.chunks.deep_view())),
                file,
            )
        } else if p.name@ == "file"@ {
            match p.filename {
                Option::None => Result::Err(UploadError::MissingFilename),
                Option::Some(f) => spec_ingest(
                    parts.drop_first(),
                    now,
                    dir,
                    id,
                    Option::Some(
                        (
                            spec_join_path(dir, spec_unique_name(f@, now)),
                            flat_bytes(p.chunks.deep_view()),
                        ),
                    ),
                ),
            }
        } else {
            spec_ingest(parts.drop_first(), now, dir, id, file)
        }
    }
}

/// What a whole multipart body ingests to: the walk starts with the default
/// identifier `0` and no file.
pub open spec fn spec_parse_multipart(parts: Seq<Part>, now: nat, dir: Seq<char>) -> Result<
    (Seq<char>, Seq<char>, Seq<u8>),
    UploadError,
> {
    spec_ingest(parts, now, dir, seq!['0'], Option::None)
}

/// Walks the parts of a multipart body and produces the ingest plan, exactly
/// as [`spec_parse_multipart`] lays down: the last `player_id` part names the
/// identifier (default `0`), the last `file` part is stored under
/// `<dir>/<stem>_<now>.<ext>`, a `file` part without filename is rejected at
/// once, and a body without any `file` part is rejected after the walk.
pub fn parse_multipart_fields(parts: &Vec<Part>, now: u64, upload_dir: &str) -> (r: Result<
    IngestPlan,
    UploadError,
>)
    ensures
        ({
            let s = spec_parse_multipart(parts@, now as nat, upload_dir@);
            match r {
                Result::Ok(plan) => s == Result::<(Seq<char>, Seq<char>, Seq<u8>),
                    UploadError,
                >::Ok((plan.player_id@, plan.stored_path@, plan.content@)),
                Result::Err(e) => s == Result::<(Seq<char>, Seq<char>, Seq<u8>),
                    UploadError,
                >::Err(e),
            }
        }),
{
    let ghost gnow = now as nat;
    let ghost gdir = upload_dir@;
    let mut id: String = {
        let s: &str = "0";
        proof {
            reveal_strlit("0");
            assert(s@ =~= seq!['0']);
        }
        s.to_owned()
    };
    let mut file: Option<(String, Vec<u8>)> = Option::None;
    let field_player: String = "player_id".to_owned();
    let field_file: String = "file".to_owned();
    let n: usize = parts.len();
    let mut i: usize = 0;
    proof {
        assert(parts@.skip(0) =~= parts@);
    }
    while i < n
        invariant
            i <= n,
            n == parts@.len(),
            gnow == now as nat,
            gdir == upload_dir@,
            field_player@ == "player_id"@,
            field_file@ == "file"@,
            spec_parse_multipart(parts@, gnow, gdir) == spec_ingest(
                parts@.skip(i as int),
                gnow,
                gdir,
                id@,
                file_state_view(file),
            ),
        decreases n - i,
    {
        let ghost pre_suffix = parts@.skip(i as int);
        let p: &Part = &parts[i];
        proof {
            assert(pre_suffix[0] == parts@[i as int]);
            assert(pre_suffix.drop_first() =~= parts@.skip(i + 1));
        }
        if p.name == field_player {
            id = read_player_id(&p.chunks);
        } else if p.name == field_file {
            match &p.filename {
                Option::Some(f) => {
                    let name: String = unique_file_name(f.as_str(), now);
                    let path: String = join_path(upload_dir, name.as_str());
                    let content: Vec<u8> = concat_chunks(&p.chunks);
                    file = Option::Some((path, content));
                },
                Option::None => {
                    return Result::Err(UploadError::MissingFilename);
                },
            }
        }
        i = i + 1;
    }
    proof {
        assert(parts@.skip(n as int) =~= Seq::<Part>::empty());
    }
    match file {
        Option::Some((path, content)) => Result::Ok(
            IngestPlan { player_id: id, stored_path: path, content },
        ),
        Option::None => Result::Err(UploadError::MissingFile),
    }
}

} // verus!
