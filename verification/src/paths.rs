//! Safety rules for object-store keys, key prefixes and local paths.
//!
//! A key is read as `/`-separated segments. A safe key is relative, has no
//! empty, `.` or `..` segment, and holds no backslash and no control
//! character. A safe absolute path starts with `/` and has no `.` or `..`
//! component.
use crate::error::{AppError, AppErrorView};
use crate::text::{string_push, texts};
use vstd::prelude::*;
use vstd::string::*;

verus! {

pub open spec fn is_control(c: char) -> bool {
    (c as int) < 32 || c as int == 127
}

pub open spec fn starts_segment(s: Seq<char>, i: int) -> bool {
    i == 0 || s[i - 1] == '/'
}

pub open spec fn ends_segment(s: Seq<char>, j: int) -> bool {
    j == s.len() || s[j] == '/'
}

/// A `.` or `..` segment begins at index `i` of `s`.
pub open spec fn relative_segment_at(s: Seq<char>, i: int) -> bool {
    ||| s[i] == '.' && starts_segment(s, i) && ends_segment(s, i + 1)
    ||| i + 1 < s.len() && s[i] == '.' && s[i + 1] == '.' && starts_segment(s, i) && ends_segment(
        s,
        i + 2,
    )
}

pub open spec fn has_relative_segment(s: Seq<char>) -> bool {
    exists|i: int| 0 <= i < s.len() && relative_segment_at(s, i)
}

pub open spec fn has_double_slash(s: Seq<char>) -> bool {
    exists|i: int| 0 <= i < s.len() - 1 && #[trigger] s[i] == '/' && s[i + 1] == '/'
}

pub open spec fn has_backslash(s: Seq<char>) -> bool {
    exists|i: int| 0 <= i < s.len() && s[i] == '\\'
}

pub open spec fn has_control(s: Seq<char>) -> bool {
    exists|i: int| 0 <= i < s.len() && is_control(s[i])
}

/// `s` is a relative object key (or, with `prefix`, a key prefix that may
/// end in `/`) with only plain segments.
pub open spec fn is_safe_object_text(s: Seq<char>, prefix: bool) -> bool {
    &&& s.len() > 0
    &&& s[0] != '/'
    &&& !has_double_slash(s)
    &&& !has_relative_segment(s)
    &&& !has_backslash(s)
    &&& !has_control(s)
    &&& (!prefix ==> s[s.len() - 1] != '/')
}

pub open spec fn is_safe_object_key(s: Seq<char>) -> bool {
    is_safe_object_text(s, false)
}

pub open spec fn is_safe_object_prefix(s: Seq<char>) -> bool {
    is_safe_object_text(s, true)
}

/// `s` names a local path without ambiguity: it is absolute and has no `.`
/// or `..` component.
pub open spec fn is_unambiguous_absolute_path(s: Seq<char>) -> bool {
    s.len() > 0 && s[0] == '/' && !has_relative_segment(s)
}

pub open spec fn output_key_error(key: Seq<char>) -> Seq<char> {
    "output key must be a relative object key without empty, '.' or '..' segments, backslashes or control characters: "@
        + key
}

pub open spec fn object_prefix_error(label: Seq<char>, prefix: Seq<char>) -> Seq<char> {
    label
        + " must be a relative object key prefix without empty, '.' or '..' segments, backslashes or control characters: "@
        + prefix
}

pub open spec fn not_absolute_error(label: Seq<char>, path: Seq<char>) -> Seq<char> {
    label + " must be an absolute path: "@ + path
}

pub open spec fn relative_components_error(label: Seq<char>, path: Seq<char>) -> Seq<char> {
    label + " must not contain relative path components: "@ + path
}

/// The outcome of checking a path: which error message, if any.
pub open spec fn absolute_path_check(path: Seq<char>, label: Seq<char>) -> Option<Seq<char>> {
    if !(path.len() > 0 && path[0] == '/') {
        Some(not_absolute_error(label, path))
    } else if has_relative_segment(path) {
        Some(relative_components_error(label, path))
    } else {
        None
    }
}

/// The characters of a string slice.
pub fn chars_of(s: &str) -> (v: Vec<char>)
    ensures
        v@ == s@,
{
    let n = s.unicode_len();
    let mut v: Vec<char> = Vec::new();
    let mut i: usize = 0;
    while i < n
        invariant
            n == s@.len(),
            i <= n,
            v@ == s@.take(i as int),
        decreases n - i,
    {
        v.push(s.get_char(i));
        i = i + 1;
        assert(v@ =~= s@.take(i as int));
    }
    assert(s@.take(n as int) =~= s@);
    v
}

/// What a single pass over a text finds.
struct TextScan {
    relative_segment: bool,
    double_slash: bool,
    backslash: bool,
    control: bool,
}

fn is_control_char(c: char) -> (r: bool)
    ensures
        r == is_control(c),
{
    (c as u32) < 32 || (c as u32) == 127
}

fn scan_text(v: &Vec<char>) -> (r: TextScan)
    ensures
        r.relative_segment == has_relative_segment(v@),
        r.double_slash == has_double_slash(v@),
        r.backslash == has_backslash(v@),
        r.control == has_control(v@),
{
    let n = v.len();
    let mut r = TextScan { relative_segment: false, double_slash: false, backslash: false, control: false };
    let mut i: usize = 0;
    while i < n
        invariant
            n == v@.len(),
            i <= n,
            r.relative_segment == (exists|j: int| 0 <= j < i && relative_segment_at(v@, j)),
            r.double_slash == (exists|j: int| 0 <= j < i && j < n - 1 && #[trigger] v@[j] == '/' && v@[j + 1] == '/'),
            r.backslash == (exists|j: int| 0 <= j < i && v@[j] == '\\'),
            r.control == (exists|j: int| 0 <= j < i && is_control(v@[j])),
        decreases n - i,
    {
        let c = v[i];
        let starts = i == 0 || v[i - 1] == '/';
        let single = c == '.' && starts && (i + 1 == n || v[i + 1] == '/');
        let double = i + 1 < n && c == '.' && v[i + 1] == '.' && starts && (i + 2 == n || v[i + 2]
            == '/');
        let ghost old_r = r;
        if single || double {
            r.relative_segment = true;
        }
        if i + 1 < n && c == '/' && v[i + 1] == '/' {
            r.double_slash = true;
        }
        if c == '\\' {
            r.backslash = true;
        }
        if is_control_char(c) {
            r.control = true;
        }
        proof {
            assert(relative_segment_at(v@, i as int) == (single || double));
            if old_r.relative_segment {
                let j = choose|j: int| 0 <= j < i && relative_segment_at(v@, j);
                assert(0 <= j < i + 1 && relative_segment_at(v@, j));
            }
            if old_r.double_slash {
                let j = choose|j: int| 0 <= j < i && j < n - 1 && #[trigger] v@[j] == '/' && v@[j + 1] == '/';
                assert(0 <= j < i + 1);
            }
            if old_r.backslash {
                let j = choose|j: int| 0 <= j < i && v@[j] == '\\';
                assert(0 <= j < i + 1);
            }
            if old_r.control {
                let j = choose|j: int| 0 <= j < i && is_control(v@[j]);
                assert(0 <= j < i + 1);
            }
        }
        i = i + 1;
    }
    r
}

/// `s + t` as a new string.
pub fn concat(s: &str, t: &str) -> (r: String)
    ensures
        r@ == s@ + t@,
{
    let mut r = String::from_str(s);
    r.append(t);
    r
}

/// Checks that `key` is a safe relative object key for an output record.
pub fn validate_output_key(key: &str) -> (r: Result<(), AppError>)
    ensures
        r is Ok <==> is_safe_object_key(key@),
        r matches Err(e) ==> e@ == AppErrorView::Validation(output_key_error(key@)),
{
    let v = chars_of(key);
    let scan = scan_text(&v);
    let n = v.len();
    if n == 0 || v[0] == '/' || scan.double_slash || scan.relative_segment || scan.backslash
        || scan.control || v[n - 1] == '/' {
        let msg = concat(
            "output key must be a relative object key without empty, '.' or '..' segments, backslashes or control characters: ",
            key,
        );
        return Err(AppError::Validation(msg));
    }
    Ok(())
}

/// Checks that `prefix` is a safe relative object key prefix; `label` names
/// the setting it came from.
pub fn validate_object_prefix(prefix: &str, label: &str) -> (r: Result<(), AppError>)
    ensures
        r is Ok <==> is_safe_object_prefix(prefix@),
        r matches Err(e) ==> e@ == AppErrorView::Validation(object_prefix_error(label@, prefix@)),
{
    let v = chars_of(prefix);
    let scan = scan_text(&v);
    let n = v.len();
    if n == 0 || v[0] == '/' || scan.double_slash || scan.relative_segment || scan.backslash
        || scan.control {
        let mut msg = String::from_str(label);
        msg.append(
            " must be a relative object key prefix without empty, '.' or '..' segments, backslashes or control characters: ",
        );
        msg.append(prefix);
        return Err(AppError::Validation(msg));
    }
    Ok(())
}

/// Checks that `path` is absolute and has no `.` or `..` component; `label`
/// names the setting it came from.
pub fn validate_unambiguous_absolute_path(path: &str, label: &str) -> (r: Result<(), AppError>)
    ensures
        r is Ok <==> is_unambiguous_absolute_path(path@),
        r matches Err(e) ==> absolute_path_check(path@, label@) == Some(e@.message()),
        r matches Err(e) ==> e@ is Validation,
{
    let v = chars_of(path);
    let n = v.len();
    if n == 0 || v[0] != '/' {
        let mut msg = String::from_str(label);
        msg.append(" must be an absolute path: ");
        msg.append(path);
        return Err(AppError::Validation(msg));
    }
    let scan = scan_text(&v);
    if scan.relative_segment {
        let mut msg = String::from_str(label);
        msg.append(" must not contain relative path components: ");
        msg.append(path);
        return Err(AppError::Validation(msg));
    }
    Ok(())
}

/// Checks an output directory: an unambiguous absolute path.
pub fn validate_output_dir(dir: &str) -> (r: Result<(), AppError>)
    ensures
        r is Ok <==> is_unambiguous_absolute_path(dir@),
        r matches Err(e) ==> absolute_path_check(dir@, "output dir"@) == Some(e@.message()),
{
    validate_unambiguous_absolute_path(dir, "output dir")
}


// ----- where output records go -----------------------------------------

/// `rel` appended to the directory `dir`, as `Path::join` does for a
/// relative `rel`: with a `/` between them unless `dir` is empty or already
/// ends in one.
pub open spec fn path_join(dir: Seq<char>, rel: Seq<char>) -> Seq<char> {
    if dir.len() == 0 || dir.last() == '/' {
        dir + rel
    } else {
        dir + "/"@ + rel
    }
}

/// The parts of `key` that stand before each of its `/`, shortest first:
/// the directories that hold the object, relative to the root.
pub open spec fn slash_prefixes(key: Seq<char>) -> Seq<Seq<char>>
    decreases key.len(),
{
    if key.len() == 0 {
        seq![]
    } else if key.last() == '/' {
        slash_prefixes(key.drop_last()).push(key.drop_last())
    } else {
        slash_prefixes(key.drop_last())
    }
}

/// The directories under `dir` that must exist before the record `key` is
/// written, outermost first.
pub open spec fn output_parent_dirs_spec(dir: Seq<char>, key: Seq<char>) -> Seq<Seq<char>> {
    slash_prefixes(key).map_values(|p: Seq<char>| path_join(dir, p))
}

/// `rel` appended to the directory `dir`.
pub fn join_path(dir: &str, rel: &str) -> (r: String)
    ensures
        r@ == path_join(dir@, rel@),
{
    let n = dir.unicode_len();
    let mut r = String::from_str(dir);
    if n > 0 && dir.get_char(n - 1) == '/' {
        r.append(rel);
    } else if n == 0 {
        r.append(rel);
    } else {
        r.append("/");
        r.append(rel);
        proof {
            reveal_strlit("/");
        }
    }
    r
}

/// The local path of the output record `key` under `output_dir`.
pub fn output_record_path(output_dir: &str, key: &str) -> (r: String)
    ensures
        r@ == path_join(output_dir@, key@),
{
    join_path(output_dir, key)
}

/// The directories to create, outermost first, before the record `key` is
/// written under `output_dir`: one for each `/` of the key, the directory
/// that the key's text before that `/` names. For a safe key these are the
/// record's parent directories under `output_dir`.
pub fn output_parent_dirs(output_dir: &str, key: &str) -> (r: Vec<String>)
    ensures
        texts(r@) == output_parent_dirs_spec(output_dir@, key@),
{
    let n = key.unicode_len();
    let mut dirs: Vec<String> = Vec::new();
    let mut prefix = String::new();
    let mut i: usize = 0;
    while i < n
        invariant
            n == key@.len(),
            i <= n,
            prefix@ == key@.take(i as int),
            texts(dirs@) == output_parent_dirs_spec(output_dir@, key@.take(i as int)),
        decreases n - i,
    {
        let c = key.get_char(i);
        let ghost before = key@.take(i as int);
        proof {
            assert(key@.take(i as int + 1).drop_last() =~= before);
            assert(key@.take(i as int + 1).last() == c);
        }
        if c == '/' {
            let dir = join_path(output_dir, prefix.as_str());
            dirs.push(dir);
            proof {
                assert(slash_prefixes(key@.take(i as int + 1)) == slash_prefixes(before).push(
                    before,
                ));
                assert(texts(dirs@) =~= output_parent_dirs_spec(output_dir@, before).push(
                    path_join(output_dir@, before),
                ));
                assert(texts(dirs@) =~= output_parent_dirs_spec(
                    output_dir@,
                    key@.take(i as int + 1),
                ));
            }
        } else {
            proof {
                assert(output_parent_dirs_spec(output_dir@, key@.take(i as int + 1))
                    =~= output_parent_dirs_spec(output_dir@, before));
            }
        }
        string_push(&mut prefix, c);
        i = i + 1;
        proof {
            assert(prefix@ =~= key@.take(i as int));
        }
    }
    proof {
        assert(key@.take(n as int) =~= key@);
    }
    dirs
}

// ----- output records stay under the output directory -----------------

/// A safe key joined to an unambiguous absolute directory names an
/// unambiguous absolute path: the directory, a `/`, then the key. The
/// record cannot land outside the directory.
pub proof fn lemma_record_path_stays_under_dir(dir: Seq<char>, key: Seq<char>)
    requires
        is_unambiguous_absolute_path(dir),
        is_safe_object_key(key),
    ensures
        is_unambiguous_absolute_path(path_join(dir, key)),
        path_join(dir, key).take(dir.len() as int) == dir,
        path_join(dir, key).len() > key.len(),
        path_join(dir, key).skip(path_join(dir, key).len() - key.len()) == key,
        path_join(dir, key)[path_join(dir, key).len() - key.len() - 1] == '/',
{
    let j = path_join(dir, key);
    let off = j.len() - key.len();
    assert(j.take(dir.len() as int) =~= dir);
    assert(j.skip(off) =~= key);
    if dir.last() == '/' {
        assert(j =~= dir + key);
        assert(j[off - 1] == dir[dir.len() - 1]);
    } else {
        reveal_strlit("/");
        assert(j =~= dir + seq!['/'] + key);
        assert(j[off - 1] == '/');
    }
    assert(j[off - 1] == '/');
    assert forall|i: int| 0 <= i < j.len() implies !relative_segment_at(j, i) by {
        if relative_segment_at(j, i) {
            if i < off {
                assert(j[i] == '.');
                assert(i != off - 1);
                assert(i < dir.len());
                assert(j[i] == dir[i]);
                if i > 0 {
                    assert(j[i - 1] == dir[i - 1]);
                }
                if i + 1 < dir.len() {
                    assert(j[i + 1] == dir[i + 1]);
                }
                if i + 2 < dir.len() {
                    assert(j[i + 2] == dir[i + 2]);
                }
                assert(relative_segment_at(dir, i));
            } else {
                let k = i - off;
                assert(j[i] == key[k]);
                if k > 0 {
                    assert(j[i - 1] == key[k - 1]);
                }
                if k + 1 < key.len() {
                    assert(j[i + 1] == key[k + 1]);
                }
                if k + 2 < key.len() {
                    assert(j[i + 2] == key[k + 2]);
                }
                assert(relative_segment_at(key, k));
            }
        }
    }
}

/// `p` is the text of `key` before one of its `/`.
pub open spec fn is_text_before_slash(key: Seq<char>, p: Seq<char>) -> bool {
    exists|j: int| 0 <= j < key.len() && key[j] == '/' && p == key.take(j)
}

/// Each directory that holds a record is named by the text of the key
/// before one of its `/`.
proof fn lemma_slash_prefixes_shape(key: Seq<char>)
    ensures
        forall|i: int|
            0 <= i < slash_prefixes(key).len() ==> is_text_before_slash(
                key,
                #[trigger] slash_prefixes(key)[i],
            ),
    decreases key.len(),
{
    if key.len() > 0 {
        let init = key.drop_last();
        lemma_slash_prefixes_shape(init);
        let sp = slash_prefixes(key);
        assert forall|i: int| 0 <= i < sp.len() implies is_text_before_slash(key, #[trigger] sp[i]) by {
            if i < slash_prefixes(init).len() {
                assert(sp[i] == slash_prefixes(init)[i]);
                assert(is_text_before_slash(init, slash_prefixes(init)[i]));
                let j = choose|j: int|
                    0 <= j < init.len() && init[j] == '/' && slash_prefixes(init)[i]
                        == init.take(j);
                assert(init.take(j) =~= key.take(j));
                assert(key[j] == '/');
            } else {
                assert(sp[i] == init);
                assert(init =~= key.take(key.len() - 1));
                assert(key[key.len() - 1] == '/');
            }
        }
    }
}

/// The text of a safe key before one of its `/` is itself a safe key.
proof fn lemma_safe_key_before_slash(key: Seq<char>, j: int)
    requires
        is_safe_object_key(key),
        0 <= j < key.len(),
        key[j] == '/',
    ensures
        j > 0,
        is_safe_object_key(key.take(j)),
{
    let t = key.take(j);
    assert(j > 0);
    if j >= 2 {
        assert(key[j - 1] != '/') by {
            if key[j - 1] == '/' {
                assert(key[j - 1] == '/' && key[j] == '/');
            }
        }
    } else {
        assert(key[0] != '/');
    }
    assert forall|i: int| 0 <= i < t.len() implies !relative_segment_at(t, i) by {
        if relative_segment_at(t, i) {
            assert(t[i] == key[i]);
            if i > 0 {
                assert(t[i - 1] == key[i - 1]);
            }
            if i + 1 < t.len() {
                assert(t[i + 1] == key[i + 1]);
            }
            if i + 2 < t.len() {
                assert(t[i + 2] == key[i + 2]);
            }
            assert(relative_segment_at(key, i));
        }
    }
    assert forall|i: int| 0 <= i < t.len() - 1 implies !(#[trigger] t[i] == '/' && t[i + 1] == '/') by {
        assert(t[i] == key[i] && t[i + 1] == key[i + 1]);
    }
    assert forall|i: int| 0 <= i < t.len() implies !(t[i] == '\\') && !is_control(t[i]) by {
        assert(t[i] == key[i]);
    }
}

/// Every directory created for a record lies under the output directory,
/// names an unambiguous absolute path, and is a parent of the record's path:
/// the record's path continues it with a `/`.
pub proof fn lemma_output_parent_dirs_under_dir(dir: Seq<char>, key: Seq<char>)
    requires
        is_unambiguous_absolute_path(dir),
        is_safe_object_key(key),
    ensures
        forall|i: int|
            0 <= i < output_parent_dirs_spec(dir, key).len() ==> {
                let d = #[trigger] output_parent_dirs_spec(dir, key)[i];
                &&& is_unambiguous_absolute_path(d)
                &&& d.take(dir.len() as int) == dir
                &&& d.len() < path_join(dir, key).len()
                &&& path_join(dir, key).take(d.len() as int) == d
                &&& path_join(dir, key)[d.len() as int] == '/'
            },
{
    lemma_slash_prefixes_shape(key);
    let sp = slash_prefixes(key);
    let r = path_join(dir, key);
    assert forall|i: int| 0 <= i < output_parent_dirs_spec(dir, key).len() implies {
        let d = #[trigger] output_parent_dirs_spec(dir, key)[i];
        &&& is_unambiguous_absolute_path(d)
        &&& d.take(dir.len() as int) == dir
        &&& d.len() < r.len()
        &&& r.take(d.len() as int) == d
        &&& r[d.len() as int] == '/'
    } by {
        let d = output_parent_dirs_spec(dir, key)[i];
        assert(d == path_join(dir, sp[i]));
        assert(is_text_before_slash(key, sp[i]));
        let j = choose|j: int| 0 <= j < key.len() && key[j] == '/' && sp[i] == key.take(j);
        lemma_safe_key_before_slash(key, j);
        lemma_record_path_stays_under_dir(dir, key.take(j));
        assert(r.take(d.len() as int) =~= d);
        assert(r[d.len() as int] == key[j]);
    }
}

} // verus!
